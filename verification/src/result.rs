//! The outcome of a proving run as it is handed between programs.

use vstd::prelude::*;
use vstd::string::*;
use crate::text::chars_of;

verus! {

/// The outcome of a proving run.
#[derive(Clone, Debug, PartialEq, Eq)]
pub enum ResultType {
    /// A run that ended: the seal it produced, empty when there is none, and
    /// `OK` or the failure's message.
    ProveResult { seal: Vec<u8>, status: String },
}

impl ResultType {
    /// The bytes of the seal.
    pub open spec fn seal_bytes(&self) -> Seq<u8> {
        match self {
            ResultType::ProveResult { seal, .. } => seal@,
        }
    }

    /// The text of the status.
    pub open spec fn status_text(&self) -> Seq<char> {
        match self {
            ResultType::ProveResult { status, .. } => status@,
        }
    }

    /// A copy of the seal.
    pub fn get_seal(&self) -> (r: Vec<u8>)
        ensures
            r@ == self.seal_bytes(),
    {
        match self {
            ResultType::ProveResult { seal: vec, .. } => vec.clone(),
        }
    }

    /// A copy of the status.
    pub fn get_status(&self) -> (r: String)
        ensures
            r@ == self.status_text(),
    {
        match self {
            ResultType::ProveResult { status, .. } => status.clone(),
        }
    }

    /// Tells whether the status is exactly `OK`.
    pub fn status_is_ok(&self) -> (r: bool)
        ensures
            r == (self.status_text() == seq!['O', 'K']),
    {
        match self {
            ResultType::ProveResult { status, .. } => {
                let v = chars_of(status.as_str());
                let r = v.len() == 2 && v[0] == 'O' && v[1] == 'K';
                assert(r == (v@ =~= seq!['O', 'K']));
                r
            },
        }
    }
}

} // verus!
