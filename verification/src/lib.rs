//! A verified ingestion and normalization model for a game's narrative-script
//! dataset: raw, tag-discriminated JSON script-line records are decoded into a
//! strongly-typed representation, stories are grouped into a category-keyed
//! catalog, and per-story detail resources are resolved and attached.

pub mod catalog;
pub mod error;
pub mod json;
pub mod line;
pub mod raw;
pub mod review;
pub mod story;
pub mod strutil;
