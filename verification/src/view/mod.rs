pub mod detail;
pub mod list;
pub mod user_command;
pub mod views;
pub mod delete_tag;
pub mod delete_ref;
pub mod create_tag;
pub mod help;
pub mod refs;
pub mod navigation;
