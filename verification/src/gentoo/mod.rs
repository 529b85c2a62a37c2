pub mod maintainer;
pub mod package;
pub mod portage;
pub mod portage_loader;
pub mod sets;
pub mod useflags;
