//! FTP and FTPS.

pub mod checksum;
pub mod commands;
pub mod delivery;
pub mod download;
pub mod entries;
pub mod entry_laws;
pub mod find;
pub mod identity;
pub mod listing;
pub mod path_laws;
pub mod session_laws;
pub mod paths;
pub mod pin;
pub mod promote;
pub mod remove;
pub mod stats;
pub mod transfer_laws;
pub mod transport;
pub mod traverse;
pub mod tree_laws;
pub mod upload;
pub mod upload_laws;
pub mod upload_run;
pub mod walk;

pub use pin::normalize_certificate_pin;
pub use transport::{accept_invalid_tls, allow_plaintext_ftp, FtpFailure};
