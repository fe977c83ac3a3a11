//! Chapter segmentation, range selection, encryption planning, asset
//! publication and publication scheduling for serialized manuscripts.

pub mod book;
pub mod error;
pub mod paths;
pub mod text;
pub mod utils;
