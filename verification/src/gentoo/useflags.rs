//! USE flags as a package declares them.
use vstd::prelude::*;

verus! {

/// A USE flag of a package: its name, whether it is on, and whether the package turns
/// it on by default (a `+` before it in `IUSE`).
#[derive(Debug, Eq, PartialEq, Hash)]
pub struct UseFlag {
    pub name: String,
    pub enabled: bool,
    pub default: bool,
}

impl View for UseFlag {
    type V = (Seq<char>, bool, bool);

    open spec fn view(&self) -> (Seq<char>, bool, bool) {
        (self.name@, self.enabled, self.default)
    }
}

/// The views of a list of flags.
pub open spec fn flags_view(v: Seq<UseFlag>) -> Seq<(Seq<char>, bool, bool)> {
    v.map_values(|f: UseFlag| f@)
}

impl UseFlag {
    pub fn new(name: String, enabled: bool, default: bool) -> (r: Self)
        ensures
            r.name == name,
            r.enabled == enabled,
            r.default == default,
    {
        UseFlag { name, enabled, default }
    }
}

impl Clone for UseFlag {
    fn clone(&self) -> (r: Self)
        ensures
            r == *self,
    {
        UseFlag { name: self.name.clone(), enabled: self.enabled, default: self.default }
    }
}

} // verus!
