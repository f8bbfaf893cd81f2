//! Thumbnail pipeline core.
pub mod address;
pub mod after;
pub mod bytes;
pub mod cache;
pub mod checks;
pub mod cli;
pub mod config;
pub mod connect;
pub mod cook;
pub mod decode;
pub mod deliver;
pub mod diag;
pub mod digest;
pub mod dispatch;
pub mod double;
pub mod fetch;
pub mod fetch_guard;
pub mod ffs;
pub mod fit;
pub mod formats;
pub mod handoff;
pub mod inspect;
pub mod json;
pub mod laws;
pub mod lines;
pub mod local_path;
pub mod media;
pub mod number;
pub mod outcome;
pub mod pipeline;
pub mod pretty;
pub mod props;
pub mod raster;
pub mod renderer;
pub mod result;
pub mod routes;
pub mod shortcut;
pub mod table_laws;
pub mod text;
pub mod text_map;
pub mod tier2;
pub mod tier3;
pub mod token;
