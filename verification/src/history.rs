//! The audit trail: one immutable entry per access check, kept in an
//! append-only log.  The `json_history` submodule holds the line format the
//! log is persisted in and the filtered queries over it.

use vstd::prelude::*;

pub mod json_history;

verus! {

use crate::identity::{AccessResponse, AccessResponseView};

/// One immutable audit record: when a check happened, for which token, and
/// what the identity backend answered.
#[derive(Clone, Debug)]
pub struct HistoryEntry {
    pub time: u64,
    pub token: String,
    pub response: AccessResponse,
}

/// Spec-level value of a `HistoryEntry`.
#[verifier::ext_equal]
pub ghost struct HistoryEntryView {
    pub time: u64,
    pub token: Seq<char>,
    pub response: AccessResponseView,
}

impl View for HistoryEntry {
    type V = HistoryEntryView;

    open spec fn view(&self) -> HistoryEntryView {
        HistoryEntryView { time: self.time, token: self.token@, response: self.response@ }
    }
}

} // verus!
