//! Compact champion records: a name and the skins, without role tags.
use vstd::prelude::*;
use vstd::string::StringExecFns;

verus! {

/// One skin of a champion.
#[derive(Debug, Default)]
pub struct Skin {
    id: String,
    pub name: String,
    chromas: bool,
    num: u32,
}

/// A champion with its skins.
#[derive(Debug, Default)]
pub struct Champion {
    name: String,
    skins: Vec<Skin>,
}

impl Champion {
    /// A champion called `name`, with no skins yet.
    pub fn new(name: &str) -> (r: Self)
        ensures
            r.name()@ == name@,
            r.skins()@.len() == 0,
    {
        Champion { name: String::from_str(name), skins: Vec::new() }
    }

    pub closed spec fn name(&self) -> String {
        self.name
    }

    pub closed spec fn skins(&self) -> Vec<Skin> {
        self.skins
    }
}

} // verus!
