//! What is remembered from one heartbeat to the next.

use vstd::prelude::*;
use crate::clock::Timestamp;
use crate::nameserver::{NsReport, NsReportView};
use crate::record_ids::RecordIds;
use crate::text::opt_text;

verus! {

/// What is remembered from one heartbeat to the next.
#[derive(Debug)]
pub struct State {
    /// The IDs of the managed records, found when they were first published. The
    /// ID of a record that could not be published is forgotten, so that the next
    /// heartbeat searches for the record again.
    pub managed_record_ids: RecordIds,
    /// The last address that was published.
    pub last_ip: Option<String>,
    /// When records were last published.
    pub last_success: Option<Timestamp>,
    /// From when the rate limit counts.
    pub last_publish_ts: Option<Timestamp>,
    /// The last report on the name servers.
    pub ns_convergence_report: Option<NsReport>,
    /// How many publications in a row some name server did not show.
    pub ns_inconsistency_cycles: u32,
}

/// The mathematical content of a [`State`].
#[verifier::ext_equal]
pub struct StateView {
    pub managed_record_ids: Map<Seq<char>, Seq<char>>,
    pub last_ip: Option<Seq<char>>,
    pub last_success: Option<Timestamp>,
    pub last_publish_ts: Option<Timestamp>,
    pub ns_convergence_report: Option<NsReportView>,
    pub ns_inconsistency_cycles: u32,
}

impl View for State {
    type V = StateView;

    open spec fn view(&self) -> StateView {
        StateView {
            managed_record_ids: self.managed_record_ids@,
            last_ip: opt_text(self.last_ip),
            last_success: self.last_success,
            last_publish_ts: self.last_publish_ts,
            ns_convergence_report: match self.ns_convergence_report {
                Some(report) => Some(report@),
                None => None,
            },
            ns_inconsistency_cycles: self.ns_inconsistency_cycles,
        }
    }
}

impl StateView {
    /// Nothing is remembered.
    pub open spec fn initial() -> StateView {
        StateView {
            managed_record_ids: Map::empty(),
            last_ip: None,
            last_success: None,
            last_publish_ts: None,
            ns_convergence_report: None,
            ns_inconsistency_cycles: 0,
        }
    }
}

impl Default for State {
    fn default() -> (r: State)
        ensures
            r@ == StateView::initial(),
    {
        State {
            managed_record_ids: RecordIds::new(),
            last_ip: None,
            last_success: None,
            last_publish_ts: None,
            ns_convergence_report: None,
            ns_inconsistency_cycles: 0,
        }
    }
}

impl State {
    /// The state to start from: the one that was kept, if it could be read.
    pub fn resume(kept: Option<State>) -> (r: State)
        ensures
            kept matches Some(state) ==> r == state,
            kept is None ==> r@ == StateView::initial(),
    {
        match kept {
            Some(state) => state,
            None => State::default(),
        }
    }
}

} // verus!
