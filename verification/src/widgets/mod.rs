pub mod list_state;
pub mod package_metadata;
pub mod search_popup;
pub mod tabs;
pub mod use_flags;
pub mod helpers;
