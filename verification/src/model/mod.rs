//! Domain types shared by every protocol client.

pub mod connection;
pub mod entry;
pub mod protocol;
pub mod transfer;

pub use connection::{
    ConnectionId, ConnectionSpec, FtpDataMode, FtpFilenameEncoding, FtpTlsMode, SftpAuth,
};
pub use entry::{sort_entries, RemoteEntry};
pub use protocol::Protocol;
pub use transfer::{TransferDirection, TransferId, TransferJob, TransferPriority};
