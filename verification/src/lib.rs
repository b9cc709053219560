//! Loom: the state logic behind a terminal client for local shells and SSH —
//! the binary pane tree of each tab, the tab list and how panes connect,
//! the inline text editor, the Files browser (listings, prompts, transfer
//! rows), the profile forms and dialogs, the workspace of profiles and
//! groups, and when the workspace is written to disk.

pub mod ids;
pub mod pane_layout;
pub mod text;
pub mod rename_edit;
pub mod tab_manager;
pub mod connect;
pub mod status;
pub mod tab_bar;
pub mod workspace_store;
pub mod file_icon;
pub mod files;
pub mod files_panel;
pub mod files_session;
pub mod forms;
pub mod ssh_form_state;
pub mod local_form_state;
pub mod password_prompt;
pub mod workspace_view;
pub mod settings_edit;
pub mod sidebar;
pub mod host_info;
pub mod listing;
pub mod naming;
pub mod docker_picker;
pub mod persistence;
pub mod transfers;
pub mod transfer_settings;
