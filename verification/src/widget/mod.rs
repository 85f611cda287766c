pub mod commit_detail;
pub mod commit_user_command;
pub mod commit_list;
pub mod pending_overlay;
pub mod ref_list;
pub mod detail_text;
pub mod dialog;
pub mod list_refs;
