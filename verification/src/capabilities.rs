//! The features that a command server can advertise.

use vstd::prelude::*;
use vstd::string::StringExecFns;

verus! {

/// A feature named in the server's greeting. A name that this client does
/// not know is kept as it was sent.
#[derive(Clone, Debug, Eq, Hash, PartialEq)]
pub enum Capability {
    RunCommand,
    GetEncoding,
    Unknown(String),
}

/// What a [`Capability`] holds, as a mathematical value.
pub ghost enum CapabilityView {
    RunCommand,
    GetEncoding,
    Unknown(Seq<char>),
}

impl View for Capability {
    type V = CapabilityView;

    open spec fn view(&self) -> CapabilityView {
        match self {
            Capability::RunCommand => CapabilityView::RunCommand,
            Capability::GetEncoding => CapabilityView::GetEncoding,
            Capability::Unknown(name) => CapabilityView::Unknown(name@),
        }
    }
}

/// The capability that a name stands for: the two known names stand for
/// their capabilities, every other for itself.
pub open spec fn resolve(name: Seq<char>) -> CapabilityView {
    if name == "runcommand"@ {
        CapabilityView::RunCommand
    } else if name == "getencoding"@ {
        CapabilityView::GetEncoding
    } else {
        CapabilityView::Unknown(name)
    }
}

/// What a list of capabilities holds, as mathematical values.
pub open spec fn capability_views(capabilities: Seq<Capability>) -> Seq<CapabilityView> {
    capabilities.map_values(|c: Capability| c@)
}

impl Capability {
    /// Resolves a capability name. This never fails.
    pub fn from(s: &str) -> (c: Capability)
        ensures
            c@ == resolve(s@),
            s@ != "runcommand"@ && s@ != "getencoding"@ ==> c@ == CapabilityView::Unknown(s@),
    {
        let name = String::from_str(s);
        if name == String::from_str("runcommand") {
            Capability::RunCommand
        } else if name == String::from_str("getencoding") {
            Capability::GetEncoding
        } else {
            Capability::Unknown(name)
        }
    }

    /// Whether two capabilities are the same one.
    pub fn same(&self, other: &Capability) -> (r: bool)
        ensures
            r == (self@ == other@),
    {
        match (self, other) {
            (Capability::RunCommand, Capability::RunCommand) => true,
            (Capability::GetEncoding, Capability::GetEncoding) => true,
            (Capability::Unknown(a), Capability::Unknown(b)) => *a == *b,
            _ => false,
        }
    }
}

} // verus!
