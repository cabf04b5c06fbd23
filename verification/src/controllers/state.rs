//! Validated values that cross the boundary between the user interface and the client.

use vstd::prelude::*;

use crate::model::TransferDirection;
use crate::text::same_text;

verus! {

/// One of the two panes.
#[derive(Debug, Clone, Copy, PartialEq, Eq, Structural)]
pub enum PaneId {
    Left,
    Right,
}

impl Default for PaneId {
    fn default() -> (r: Self)
        ensures
            r == PaneId::Left,
    {
        PaneId::Left
    }
}

impl PaneId {
    /// The word that stands for the value.
    pub open spec fn word(self) -> Seq<char> {
        match self {
            PaneId::Left => "local"@,
            PaneId::Right => "remote"@,
        }
    }

    pub fn as_str(self) -> (r: &'static str)
        ensures
            r@ == self.word(),
    {
        match self {
            PaneId::Left => "local",
            PaneId::Right => "remote",
        }
    }

    /// The value that a word stands for. No word stands for two.
    pub fn try_from(value: &str) -> (r: Result<Self, &'static str>)
        ensures
            r matches Ok(v) ==> v.word() == value@,
            r is Ok <==> exists|v: PaneId| #[trigger] v.word() == value@,
            forall|v: PaneId| #[trigger] v.word() == value@ ==> r == Ok::<_, &'static str>(v),
            r matches Err(e) ==> e@ == "unknown pane identifier"@,
    {
        proof {
            reveal_strlit("local");
            reveal_strlit("remote");
            assert(PaneId::Left.word()[0] == 'l');
            assert(PaneId::Right.word()[0] == 'r');
        }
        if same_text(value, "local") {
            Ok(PaneId::Left)
        } else if same_text(value, "remote") {
            Ok(PaneId::Right)
        } else {
            Err("unknown pane identifier")
        }
    }

    pub open spec fn number(self) -> int {
        match self {
            PaneId::Left => 0,
            PaneId::Right => 1,
        }
    }

    pub fn index(self) -> (r: usize)
        ensures
            r == self.number(),
    {
        match self {
            PaneId::Left => 0,
            PaneId::Right => 1,
        }
    }

    /// The pane with an index.
    pub fn from_index(value: i32) -> (r: Result<Self, &'static str>)
        ensures
            r is Ok <==> value == 0 || value == 1,
            r matches Ok(pane) ==> pane.number() == value,
            r matches Err(e) ==> e@ == "pane index is out of range"@,
    {
        if value == 0 {
            Ok(PaneId::Left)
        } else if value == 1 {
            Ok(PaneId::Right)
        } else {
            Err("pane index is out of range")
        }
    }

    pub open spec fn spec_other(self) -> PaneId {
        match self {
            PaneId::Left => PaneId::Right,
            PaneId::Right => PaneId::Left,
        }
    }

    pub fn other(self) -> (r: Self)
        ensures
            r == self.spec_other(),
    {
        match self {
            PaneId::Left => PaneId::Right,
            PaneId::Right => PaneId::Left,
        }
    }
}

/// What is done to a file besides transferring it.
#[derive(Debug, Clone, Copy, PartialEq, Eq, Structural)]
pub enum FileOperationMode {
    Rename,
    CreateDirectory,
    ChangePermissions,
}

impl FileOperationMode {
    /// The word that stands for the value.
    pub open spec fn word(self) -> Seq<char> {
        match self {
            FileOperationMode::Rename => "rename"@,
            FileOperationMode::CreateDirectory => "mkdir"@,
            FileOperationMode::ChangePermissions => "chmod"@,
        }
    }

    pub fn as_str(self) -> (r: &'static str)
        ensures
            r@ == self.word(),
    {
        match self {
            FileOperationMode::Rename => "rename",
            FileOperationMode::CreateDirectory => "mkdir",
            FileOperationMode::ChangePermissions => "chmod",
        }
    }

    /// The value that a word stands for. No word stands for two.
    pub fn try_from(value: &str) -> (r: Result<Self, &'static str>)
        ensures
            r matches Ok(v) ==> v.word() == value@,
            r is Ok <==> exists|v: FileOperationMode| #[trigger] v.word() == value@,
            forall|v: FileOperationMode| #[trigger] v.word() == value@ ==> r == Ok::<_, &'static str>(v),
            r matches Err(e) ==> e@ == "unknown file operation"@,
    {
        proof {
            reveal_strlit("rename");
            reveal_strlit("mkdir");
            reveal_strlit("chmod");
            assert(FileOperationMode::Rename.word()[0] == 'r');
            assert(FileOperationMode::CreateDirectory.word()[0] == 'm');
            assert(FileOperationMode::ChangePermissions.word()[0] == 'c');
        }
        if same_text(value, "rename") {
            Ok(FileOperationMode::Rename)
        } else if same_text(value, "mkdir") {
            Ok(FileOperationMode::CreateDirectory)
        } else if same_text(value, "chmod") {
            Ok(FileOperationMode::ChangePermissions)
        } else {
            Err("unknown file operation")
        }
    }

    pub fn needs_source_name(self) -> (r: bool)
        ensures
            r == (self == FileOperationMode::Rename || self
                == FileOperationMode::ChangePermissions),
    {
        match self {
            FileOperationMode::Rename | FileOperationMode::ChangePermissions => true,
            FileOperationMode::CreateDirectory => false,
        }
    }

    pub fn needs_destination_name(self) -> (r: bool)
        ensures
            r == (self == FileOperationMode::Rename || self == FileOperationMode::CreateDirectory),
    {
        match self {
            FileOperationMode::Rename | FileOperationMode::CreateDirectory => true,
            FileOperationMode::ChangePermissions => false,
        }
    }
}

/// The column by which a pane is sorted.
#[derive(Debug, Clone, Copy, PartialEq, Eq, Structural)]
pub enum SortKey {
    Name,
    Date,
    Size,
    Owner,
    Group,
    Permissions,
}

impl SortKey {
    /// The word that stands for the value.
    pub open spec fn word(self) -> Seq<char> {
        match self {
            SortKey::Name => "name"@,
            SortKey::Date => "date"@,
            SortKey::Size => "size"@,
            SortKey::Owner => "owner"@,
            SortKey::Group => "group"@,
            SortKey::Permissions => "permissions"@,
        }
    }

    pub fn as_str(self) -> (r: &'static str)
        ensures
            r@ == self.word(),
    {
        match self {
            SortKey::Name => "name",
            SortKey::Date => "date",
            SortKey::Size => "size",
            SortKey::Owner => "owner",
            SortKey::Group => "group",
            SortKey::Permissions => "permissions",
        }
    }

    /// The value that a word stands for. No word stands for two.
    pub fn try_from(value: &str) -> (r: Result<Self, &'static str>)
        ensures
            r matches Ok(v) ==> v.word() == value@,
            r is Ok <==> exists|v: SortKey| #[trigger] v.word() == value@,
            forall|v: SortKey| #[trigger] v.word() == value@ ==> r == Ok::<_, &'static str>(v),
            r matches Err(e) ==> e@ == "unknown sort key"@,
    {
        proof {
            reveal_strlit("name");
            reveal_strlit("date");
            reveal_strlit("size");
            reveal_strlit("owner");
            reveal_strlit("group");
            reveal_strlit("permissions");
            assert(SortKey::Name.word()[0] == 'n');
            assert(SortKey::Date.word()[0] == 'd');
            assert(SortKey::Size.word()[0] == 's');
            assert(SortKey::Owner.word()[0] == 'o');
            assert(SortKey::Group.word()[0] == 'g');
            assert(SortKey::Permissions.word()[0] == 'p');
        }
        if same_text(value, "name") {
            Ok(SortKey::Name)
        } else if same_text(value, "date") {
            Ok(SortKey::Date)
        } else if same_text(value, "size") {
            Ok(SortKey::Size)
        } else if same_text(value, "owner") {
            Ok(SortKey::Owner)
        } else if same_text(value, "group") {
            Ok(SortKey::Group)
        } else if same_text(value, "permissions") {
            Ok(SortKey::Permissions)
        } else {
            Err("unknown sort key")
        }
    }
}

#[derive(Debug, Clone, Copy, PartialEq, Eq, Structural)]
pub enum SortDirection {
    Ascending,
    Descending,
}

impl SortDirection {
    /// The word that stands for the value.
    pub open spec fn word(self) -> Seq<char> {
        match self {
            SortDirection::Ascending => "asc"@,
            SortDirection::Descending => "desc"@,
        }
    }

    pub fn as_str(self) -> (r: &'static str)
        ensures
            r@ == self.word(),
    {
        match self {
            SortDirection::Ascending => "asc",
            SortDirection::Descending => "desc",
        }
    }

    /// The value that a word stands for. No word stands for two.
    pub fn try_from(value: &str) -> (r: Result<Self, &'static str>)
        ensures
            r matches Ok(v) ==> v.word() == value@,
            r is Ok <==> exists|v: SortDirection| #[trigger] v.word() == value@,
            forall|v: SortDirection| #[trigger] v.word() == value@ ==> r == Ok::<_, &'static str>(v),
            r matches Err(e) ==> e@ == "unknown sort direction"@,
    {
        proof {
            reveal_strlit("asc");
            reveal_strlit("desc");
            assert(SortDirection::Ascending.word()[0] == 'a');
            assert(SortDirection::Descending.word()[0] == 'd');
        }
        if same_text(value, "asc") {
            Ok(SortDirection::Ascending)
        } else if same_text(value, "desc") {
            Ok(SortDirection::Descending)
        } else {
            Err("unknown sort direction")
        }
    }

    pub open spec fn spec_reversed(self) -> SortDirection {
        match self {
            SortDirection::Ascending => SortDirection::Descending,
            SortDirection::Descending => SortDirection::Ascending,
        }
    }

    pub fn reversed(self) -> (r: Self)
        ensures
            r == self.spec_reversed(),
    {
        match self {
            SortDirection::Ascending => SortDirection::Descending,
            SortDirection::Descending => SortDirection::Ascending,
        }
    }
}

/// Which side of a folder synchronization is the source.
#[derive(Debug, Clone, Copy, PartialEq, Eq, Structural)]
pub enum SyncDirection {
    Upload,
    Download,
}

impl SyncDirection {
    /// The word that stands for the value.
    pub open spec fn word(self) -> Seq<char> {
        match self {
            SyncDirection::Upload => "upload"@,
            SyncDirection::Download => "download"@,
        }
    }

    pub fn as_str(self) -> (r: &'static str)
        ensures
            r@ == self.word(),
    {
        match self {
            SyncDirection::Upload => "upload",
            SyncDirection::Download => "download",
        }
    }

    /// The value that a word stands for. No word stands for two.
    pub fn try_from(value: &str) -> (r: Result<Self, &'static str>)
        ensures
            r matches Ok(v) ==> v.word() == value@,
            r is Ok <==> exists|v: SyncDirection| #[trigger] v.word() == value@,
            forall|v: SyncDirection| #[trigger] v.word() == value@ ==> r == Ok::<_, &'static str>(v),
            r matches Err(e) ==> e@ == "unknown synchronization direction"@,
    {
        proof {
            reveal_strlit("upload");
            reveal_strlit("download");
            assert(SyncDirection::Upload.word()[0] == 'u');
            assert(SyncDirection::Download.word()[0] == 'd');
        }
        if same_text(value, "upload") {
            Ok(SyncDirection::Upload)
        } else if same_text(value, "download") {
            Ok(SyncDirection::Download)
        } else {
            Err("unknown synchronization direction")
        }
    }

    pub fn transfer_direction(self) -> (r: TransferDirection)
        ensures
            r == (match self {
                SyncDirection::Upload => TransferDirection::Upload,
                SyncDirection::Download => TransferDirection::Download,
            }),
    {
        match self {
            SyncDirection::Upload => TransferDirection::Upload,
            SyncDirection::Download => TransferDirection::Download,
        }
    }
}

/// What to do about a file that exists already.
#[derive(Debug, Clone, Copy, PartialEq, Eq, Structural)]
pub enum OverwriteDecision {
    Skip,
    Overwrite,
    KeepBoth,
}

impl OverwriteDecision {
    pub open spec fn number(self) -> int {
        match self {
            OverwriteDecision::Skip => 0,
            OverwriteDecision::Overwrite => 1,
            OverwriteDecision::KeepBoth => 2,
        }
    }

    pub fn try_from(value: i32) -> (r: Result<Self, &'static str>)
        ensures
            r is Ok <==> 0 <= value <= 2,
            r matches Ok(decision) ==> decision.number() == value,
            r matches Err(e) ==> e@ == "unknown overwrite decision"@,
    {
        if value == 0 {
            Ok(OverwriteDecision::Skip)
        } else if value == 1 {
            Ok(OverwriteDecision::Overwrite)
        } else if value == 2 {
            Ok(OverwriteDecision::KeepBoth)
        } else {
            Err("unknown overwrite decision")
        }
    }
}

/// The state of a transfer as its row shows it.
#[derive(Debug, Clone, Copy, PartialEq, Eq, Structural)]
pub enum TransferRowState {
    Active,
    Queued,
    Paused,
    Done,
    Failed,
    Cancelled,
    Recovered,
}

impl TransferRowState {
    /// The word that stands for the value.
    pub open spec fn word(self) -> Seq<char> {
        match self {
            TransferRowState::Active => "active"@,
            TransferRowState::Queued => "queued"@,
            TransferRowState::Paused => "paused"@,
            TransferRowState::Done => "done"@,
            TransferRowState::Failed => "failed"@,
            TransferRowState::Cancelled => "cancelled"@,
            TransferRowState::Recovered => "recovered"@,
        }
    }

    pub fn as_str(self) -> (r: &'static str)
        ensures
            r@ == self.word(),
    {
        match self {
            TransferRowState::Active => "active",
            TransferRowState::Queued => "queued",
            TransferRowState::Paused => "paused",
            TransferRowState::Done => "done",
            TransferRowState::Failed => "failed",
            TransferRowState::Cancelled => "cancelled",
            TransferRowState::Recovered => "recovered",
        }
    }

    /// The value that a word stands for. No word stands for two.
    pub fn try_from(value: &str) -> (r: Result<Self, &'static str>)
        ensures
            r matches Ok(v) ==> v.word() == value@,
            r is Ok <==> exists|v: TransferRowState| #[trigger] v.word() == value@,
            forall|v: TransferRowState| #[trigger] v.word() == value@ ==> r == Ok::<_, &'static str>(v),
            r matches Err(e) ==> e@ == "unknown transfer-row state"@,
    {
        proof {
            reveal_strlit("active");
            reveal_strlit("queued");
            reveal_strlit("paused");
            reveal_strlit("done");
            reveal_strlit("failed");
            reveal_strlit("cancelled");
            reveal_strlit("recovered");
            assert(TransferRowState::Active.word()[0] == 'a');
            assert(TransferRowState::Queued.word()[0] == 'q');
            assert(TransferRowState::Paused.word()[0] == 'p');
            assert(TransferRowState::Done.word()[0] == 'd');
            assert(TransferRowState::Failed.word()[0] == 'f');
            assert(TransferRowState::Cancelled.word()[0] == 'c');
            assert(TransferRowState::Recovered.word()[0] == 'r');
        }
        if same_text(value, "active") {
            Ok(TransferRowState::Active)
        } else if same_text(value, "queued") {
            Ok(TransferRowState::Queued)
        } else if same_text(value, "paused") {
            Ok(TransferRowState::Paused)
        } else if same_text(value, "done") {
            Ok(TransferRowState::Done)
        } else if same_text(value, "failed") {
            Ok(TransferRowState::Failed)
        } else if same_text(value, "cancelled") {
            Ok(TransferRowState::Cancelled)
        } else if same_text(value, "recovered") {
            Ok(TransferRowState::Recovered)
        } else {
            Err("unknown transfer-row state")
        }
    }
}

/// The other pane of the other pane is the pane itself, and no pane is its own other.
pub proof fn panes_are_opposite(pane: PaneId)
    ensures
        pane.spec_other().spec_other() == pane,
        pane.spec_other() != pane,
        pane.number() + pane.spec_other().number() == 1,
{
}

/// Reversing a direction twice changes nothing.
pub proof fn reversing_twice_changes_nothing(direction: SortDirection)
    ensures
        direction.spec_reversed().spec_reversed() == direction,
        direction.spec_reversed() != direction,
{
}

} // verus!
