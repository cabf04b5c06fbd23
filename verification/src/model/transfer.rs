//! A queued file transfer (download or upload) and its progress.

use vstd::prelude::*;

verus! {

#[derive(Debug, Clone, Copy, PartialEq, Eq, Hash, Structural)]
pub struct TransferId(pub usize);

#[derive(Debug, Clone, Copy, PartialEq, Eq, Structural)]
pub enum TransferDirection {
    /// Remote to local.
    Download,
    /// Local to remote.
    Upload,
}

#[derive(Debug, Clone, Copy, PartialEq, Eq, Hash, Structural)]
pub enum TransferPriority {
    Low,
    Normal,
    High,
}

impl Default for TransferPriority {
    fn default() -> (r: Self)
        ensures
            r == TransferPriority::Normal,
    {
        TransferPriority::Normal
    }
}

impl TransferPriority {
    pub open spec fn rank(self) -> u8 {
        match self {
            TransferPriority::High => 0,
            TransferPriority::Normal => 1,
            TransferPriority::Low => 2,
        }
    }

    /// Jobs with a smaller rank are scheduled first.
    pub fn scheduling_rank(self) -> (r: u8)
        ensures
            r == self.rank(),
    {
        match self {
            TransferPriority::High => 0,
            TransferPriority::Normal => 1,
            TransferPriority::Low => 2,
        }
    }
}

#[derive(Debug)]
pub struct TransferJob {
    pub id: TransferId,
    /// Groups files started by one user action so an error can stop only that copy batch.
    pub batch_id: usize,
    /// Pause this batch on failure and ask whether to skip or stop. Disabled for a lone file.
    pub pause_on_error: bool,
    /// User-controlled scheduling priority.
    pub priority: TransferPriority,
    pub direction: TransferDirection,
    pub local_path: String,
    pub remote_path: String,
    /// Total size in bytes, if known before the transfer starts.
    pub bytes_total: Option<u64>,
    /// Modification time captured when a local upload was queued. Together with `bytes_total`,
    /// this prevents appending a changed local file to an older remote upload fragment.
    pub source_modified_unix_nanos: Option<u64>,
    /// Random per-job token for a private resumable download or upload fragment. Zero disables
    /// resume.
    pub resume_token: u64,
}

impl Clone for TransferJob {
    fn clone(&self) -> (r: Self)
        ensures
            r == *self,
    {
        TransferJob {
            id: self.id,
            batch_id: self.batch_id,
            pause_on_error: self.pause_on_error,
            priority: self.priority,
            direction: self.direction,
            local_path: self.local_path.clone(),
            remote_path: self.remote_path.clone(),
            bytes_total: self.bytes_total,
            source_modified_unix_nanos: self.source_modified_unix_nanos,
            resume_token: self.resume_token,
        }
    }
}

} // verus!
