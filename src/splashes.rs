//! Champion and skin records as the Data Dragon service lists them.
use vstd::prelude::*;
use vstd::string::StringExecFns;

verus! {

/// One skin of a champion.
#[derive(Debug, Default)]
pub struct Skin {
    pub id: String,
    pub name: String,
    pub chromas: bool,
    pub num: u32,
    /// The champion the skin belongs to, once known.
    pub champ: Option<String>,
}

/// A champion with its skins and its role tags.
#[derive(Debug, Default)]
pub struct Champion {
    pub name: String,
    pub skins: Vec<Skin>,
    pub tags: Vec<String>,
}

impl Champion {
    /// A champion called `name`, with no skins and no tags yet.
    pub fn new(name: &str) -> (r: Self)
        ensures
            r.name@ == name@,
            r.skins@.len() == 0,
            r.tags@.len() == 0,
    {
        Champion { name: String::from_str(name), skins: Vec::new(), tags: Vec::new() }
    }
}

} // verus!
