pub mod available_packages;
pub mod dashboard;
pub mod installed_packages;
