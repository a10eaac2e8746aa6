//! Identity verification: the three-way outcome of an access check and the
//! response an identity backend produces.  The two backends live in the
//! submodules: `json` scans a local line-oriented record file, `ldap`
//! classifies the result of a remote directory search.

use vstd::prelude::*;

pub mod json;
pub mod ldap;

verus! {

/// Three-way classification of an access check.
#[derive(Clone, Copy, PartialEq, Eq, Structural, Debug)]
pub enum Outcome {
    Success,
    Revoked,
    Unknown,
}

/// What an identity backend answers: the outcome and, on success, the
/// verified name.
#[derive(Clone, Debug)]
pub struct AccessResponse {
    pub outcome: Outcome,
    pub name: Option<String>,
}

/// Spec-level value of an `AccessResponse`.
#[verifier::ext_equal]
pub ghost struct AccessResponseView {
    pub outcome: Outcome,
    pub name: Option<Seq<char>>,
}

impl View for AccessResponse {
    type V = AccessResponseView;

    open spec fn view(&self) -> AccessResponseView {
        AccessResponseView {
            outcome: self.outcome,
            name: match self.name {
                Some(s) => Some(s@),
                None => None,
            },
        }
    }
}

impl AccessResponseView {
    /// A name is carried only on success.
    pub open spec fn valid(self) -> bool {
        self.outcome == Outcome::Success || self.name is None
    }
}

} // verus!
