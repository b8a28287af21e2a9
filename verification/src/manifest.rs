//! The project manifest, `fowl.jsonc`: the package's name, description and
//! version. Reading the file and decoding its JSON happen outside the
//! library; here a manifest is plain data.

use vstd::prelude::*;
use vstd::string::*;

verus! {

pub struct Manifest {
    name: String,
    description: String,
    version: String,
}

impl Manifest {
    /// The package's name.
    pub closed spec fn name_text(&self) -> Seq<char> {
        self.name@
    }

    /// The package's description.
    pub closed spec fn description_text(&self) -> Seq<char> {
        self.description@
    }

    /// The package's version.
    pub closed spec fn version_text(&self) -> Seq<char> {
        self.version@
    }

    /// The manifest with the given fields.
    pub fn new(name: &str, description: &str, version: &str) -> (m: Self)
        ensures
            m.name_text() == name@,
            m.description_text() == description@,
            m.version_text() == version@,
    {
        Manifest {
            name: String::from_str(name),
            description: String::from_str(description),
            version: String::from_str(version),
        }
    }

    pub fn name(&self) -> (r: &str)
        ensures
            r@ == self.name_text(),
    {
        self.name.as_str()
    }

    pub fn description(&self) -> (r: &str)
        ensures
            r@ == self.description_text(),
    {
        self.description.as_str()
    }

    pub fn version(&self) -> (r: &str)
        ensures
            r@ == self.version_text(),
    {
        self.version.as_str()
    }
}

} // verus!
