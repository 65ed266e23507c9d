//! Metadata extraction and STAC document assembly for 3D city models.
pub mod text;
pub mod crs;
pub mod sorted;
pub mod attributes;
pub mod model;
pub mod error;
pub mod reader;
pub mod input;
pub mod traversal;
pub mod stac;
pub mod accumulator;
pub mod epsg;
pub mod layout;
pub mod config;
pub mod lines;
pub mod memory;
pub mod validation;
pub mod progress;
pub mod citygml;
pub mod zip;
pub mod checksum;
pub mod plan;
pub mod item;
pub mod catalog;
pub mod fcb;
pub mod decode;
pub mod normalize;
