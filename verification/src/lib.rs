//! Verified core of a renderer for Alight Motion XML projects: the
//! project model's enumerations, the attribute grammar of the XML format,
//! asset pairing, edit history, playback scheduling and debug drawing.

pub mod text;
pub mod model;
pub mod history;
pub mod playback;
pub mod xml;
pub mod convert;
pub mod effects;
pub mod order;
pub mod assets;
pub mod raster;
pub mod draw;
pub mod offset;
pub mod mutation;
pub mod service;
pub mod export;
