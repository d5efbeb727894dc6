//! The failures that can end a generation run.

use vstd::prelude::*;

verus! {

/// A fatal failure of the generation pipeline. Every error is terminal:
/// no partial output is ever produced alongside one.
#[derive(Debug, PartialEq, Eq)]
pub enum Error {
    /// No interface with the requested name exists in the schema.
    MissingInterface { name: String },
    /// The selected interface carries no name to render a trait from.
    UnnamedInterface,
    /// A type definition id was referenced but has no resolver entry.
    Lookup { id: usize },
    /// An anonymous type definition has a kind outside list, option and
    /// result, for which no generic wrapper exists.
    UnsupportedKind { id: usize },
}

impl Error {
    /// The description text of each error, with the identifying name
    /// where one is carried.
    pub open spec fn spec_describe(self) -> Seq<char> {
        match self {
            Error::MissingInterface { name } => "interface not found in the schema: "@ + name@,
            Error::UnnamedInterface => "the selected interface does not have a name"@,
            Error::Lookup { id } => "could not find a type id in the type map"@,
            Error::UnsupportedKind { id } => "unsupported kind of anonymous type definition"@,
        }
    }

    /// A human-readable description of the failure.
    pub fn describe(&self) -> (r: String)
        ensures
            r@ == self.spec_describe(),
    {
        let mut s = String::new();
        match self {
            Error::MissingInterface { name } => {
                s.append("interface not found in the schema: ");
                s.append(name.as_str());
            },
            Error::UnnamedInterface => {
                s.append("the selected interface does not have a name");
            },
            Error::Lookup { id: _ } => {
                s.append("could not find a type id in the type map");
            },
            Error::UnsupportedKind { id: _ } => {
                s.append("unsupported kind of anonymous type definition");
            },
        }
        proof {
            assert(s@ =~= self.spec_describe());
        }
        s
    }
}

} // verus!
