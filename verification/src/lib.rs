//! Parsing of G64 disk images of the Commodore 1541 and of the CBM DOS
//! GCR sectors on their tracks.
pub mod gcr;
pub mod layout;
pub mod sector;
pub mod model;
pub mod fluxhead;
pub mod laws;

pub use crate::fluxhead::Fluxhead;
pub use crate::layout::G64HeaderInfo;
pub use crate::sector::{ParsedData, Sector, SectorData, SectorHeader, Track};
