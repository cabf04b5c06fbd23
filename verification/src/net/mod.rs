//! The decisions of the protocol clients.

pub mod error;
pub mod file_laws;
pub mod ftp;
pub mod limit_laws;
pub mod partial;
pub mod proxy;
pub mod proxy_laws;
pub mod safe;
pub mod search;
pub mod ssh_config;
pub mod ssh_config_growth;
pub mod ssh_config_laws;
pub mod ssh_laws;
pub mod ssh_resolve;
pub mod staging;
pub mod transfer_rules;

pub use error::{HostKeyChallenge, IoFailure, IoKind, NetError, TlsCertificateChallenge};
pub use partial::{resumable_part_path, DownloadResume};
pub use safe::{assert_within, sanitize_local_rel, validate_ftp_path};
pub use search::{
    normalize_remote_search_query, remote_search_matches, MAX_REMOTE_SEARCH_QUERY_BYTES,
    MAX_REMOTE_SEARCH_RESULTS,
};
pub use ssh_resolve::validate_ssh_proxy_jump;
pub use staging::RemoteStagingPaths;
pub use transfer_rules::{
    MetadataPreservation, RemoteFileMetadata, RemoteMetadata, TransferMetadata, UploadResume,
};
