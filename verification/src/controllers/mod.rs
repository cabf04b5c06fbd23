//! What the windows of the client decide.

pub mod appearance;
pub mod commands;
pub mod connection_laws;
pub mod connections;
pub mod credentials;
pub mod desk_laws;
pub mod drag_drop;
pub mod editor;
pub mod editor_form;
pub mod editor_laws;
pub mod menu;
pub mod notices;
pub mod pane_laws;
pub mod panes;
pub mod queue_laws;
pub mod settings;
pub mod settings_files;
pub mod settings_laws;
pub mod state;
pub mod status_laws;
pub mod storage;
pub mod sync_form;
pub mod sync_laws;
pub mod sync_mirror;
pub mod sync_plan;
pub mod sync_profiles;
pub mod sync_report;
pub mod sync_scan;
pub mod sync_session;
pub mod transfer_report;
pub mod transfers;
pub mod updates;

pub use state::{
    FileOperationMode, OverwriteDecision, PaneId, SortDirection, SortKey, SyncDirection,
    TransferRowState,
};
