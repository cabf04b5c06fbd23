//! The decisions of the gmacFTP client: connections, transfers, folder synchronization and the
//! safety rules around them, without any input or output.

pub mod controllers;
pub mod digest;
pub mod folder_sync;
pub mod i18n;
pub mod ip_address;
pub mod lexical;
pub mod model;
pub mod net;
pub mod numerals;
pub mod ordered_map;
pub mod path_pattern;
pub mod path_text;
pub mod pattern_laws;
pub mod pieces;
pub mod plain_laws;
pub mod preview_laws;
pub mod rule_text;
pub mod sorting;
pub mod text;
pub mod text_laws;
pub mod wildcard;
