//! Verified pieces of a RAW developer: the Olympus MakerNote reader and the
//! decisions that shape how a RAW file is developed.

pub mod text;
pub mod olympus_metadata;
pub mod raw_processing;
