//! News from the loading of the packages that the repositories offer.
use vstd::prelude::*;

use crate::gentoo::package::Package;

verus! {

/// What the loader reports: that it is at work, the packages it found, or why it
/// failed.
#[derive(Debug)]
pub enum LoaderMessage {
    Loading,
    Complete(Vec<Package>),
    Error(String),
}

} // verus!
