//! What holds of a whole heartbeat, whatever the outside world answers, and of
//! one heartbeat after another.

use vstd::prelude::*;
use crate::clock::{elapsed, Timestamp};
use crate::cloudflare::{
    create_outcome_view, create_request_view, list_outcome_view, update_outcome_view, CfRecord,
    CfReply,
};
use crate::config::Config;
use crate::heartbeat::{
    ask_create, ask_list, ask_update, begin_record_view, created_view, current,
    end_record_view, force_due_view, listed_view, ns_checked_view, plan_view, rate_limited_view,
    retry_due_view, search_due_view, NextView, NsCheckView, Outcome, PassView, RecordEndView,
};
use crate::nameserver::{
    absolute_name, lemma_report_complete, overall_timeout_view, report_view, NsAnswer,
};
use crate::state::StateView;
use crate::text::texts;

verus! {

/// An answer to what a heartbeat asked.
pub enum Event {
    Listed { listing: CfReply<Vec<CfRecord>>, published_at: Timestamp, succeeded_at: Timestamp },
    Created { reply: CfReply<CfRecord>, published_at: Timestamp, succeeded_at: Timestamp },
    Updated { reply: CfReply<CfRecord>, published_at: Timestamp, succeeded_at: Timestamp },
    NsChecked { answers: Seq<NsAnswer>, checked_at: Timestamp },
}

/// Whether the event answers what was asked. The count of publications that
/// some name server did not show has room for one more.
pub open spec fn answers(s: StateView, next: NextView, event: Event) -> bool {
    match (next, event) {
        (NextView::List { .. }, Event::Listed { .. }) => true,
        (NextView::Create { .. }, Event::Created { .. }) => true,
        (NextView::Update { .. }, Event::Updated { .. }) => true,
        (NextView::CheckNs(check), Event::NsChecked { answers, checked_at }) => {
            &&& answers.len() == check.ns_list.len()
            &&& report_view(check.ns_list, answers, check.expected_ip, checked_at).stale.len() > 0
                ==> s.ns_inconsistency_cycles < u32::MAX
        },
        _ => false,
    }
}

/// The state after an event, and what is asked then: what the functions of the
/// heartbeat state in their contracts, as one step.
pub open spec fn step(cfg: Config, s: StateView, next: NextView, event: Event) -> (
    StateView,
    NextView,
) {
    match (next, event) {
        (
            NextView::List { pass, .. },
            Event::Listed { listing, published_at, succeeded_at },
        ) => listed_view(cfg, s, pass, list_outcome_view(listing), published_at, succeeded_at),
        (
            NextView::Create { pass, .. },
            Event::Created { reply, published_at, succeeded_at },
        ) => created_view(cfg, s, pass, create_outcome_view(reply), published_at, succeeded_at),
        (
            NextView::Update { pass, .. },
            Event::Updated { reply, published_at, succeeded_at },
        ) => end_record_view(
            cfg,
            s,
            pass,
            update_outcome_view(reply) is Ok,
            published_at,
            succeeded_at,
        ),
        (NextView::CheckNs(check), Event::NsChecked { answers, checked_at }) => {
            let (after, outcome) = ns_checked_view(cfg, s, check, answers, checked_at);
            (after, NextView::Done(outcome))
        },
        _ => (s, next),
    }
}

/// The record that the event brings to its end, if it does.
pub open spec fn record_end(cfg: Config, next: NextView, event: Event) -> Option<RecordEndView> {
    match (next, event) {
        (NextView::List { pass, .. }, Event::Listed { listing, .. }) => match list_outcome_view(
            listing,
        ) {
            Ok(_) => None,
            Err(error) => Some(RecordEndView { fqdn: current(cfg, pass), result: Err(error) }),
        },
        (NextView::Create { pass, .. }, Event::Created { reply, .. }) => Some(
            RecordEndView {
                fqdn: current(cfg, pass),
                result: match create_outcome_view(reply) {
                    Ok(record) => Ok(record.id@),
                    Err(error) => Err(error),
                },
            },
        ),
        (NextView::Update { pass, record_id, .. }, Event::Updated { reply, .. }) => Some(
            RecordEndView {
                fqdn: current(cfg, pass),
                result: match update_outcome_view(reply) {
                    Ok(_) => Ok(record_id),
                    Err(error) => Err(error),
                },
            },
        ),
        _ => None,
    }
}

/// The times to remember where a pass ends in which something was published.
pub struct Times {
    pub published_at: Timestamp,
    pub succeeded_at: Timestamp,
}

/// The times that come with an event.
pub open spec fn times(event: Event) -> Times {
    match event {
        Event::Listed { published_at, succeeded_at, .. } => Times { published_at, succeeded_at },
        Event::Created { published_at, succeeded_at, .. } => Times { published_at, succeeded_at },
        Event::Updated { published_at, succeeded_at, .. } => Times { published_at, succeeded_at },
        Event::NsChecked { checked_at, .. } => Times {
            published_at: checked_at,
            succeeded_at: checked_at,
        },
    }
}

/// What has happened so far in a heartbeat.
#[verifier::ext_equal]
pub struct History {
    /// The records that were brought to their end, in their order.
    pub ends: Seq<RecordEndView>,
    /// The times that came with the end of the last of them.
    pub last: Option<Times>,
}

impl History {
    pub open spec fn empty() -> History {
        History { ends: Seq::empty(), last: None }
    }

    /// The history after one more event.
    pub open spec fn extended(self, cfg: Config, next: NextView, event: Event) -> History {
        match record_end(cfg, next, event) {
            None => self,
            Some(end) => History { ends: self.ends.push(end), last: Some(times(event)) },
        }
    }

    /// Whether any record was published.
    pub open spec fn any_published(self) -> bool {
        exists|i: int| 0 <= i < self.ends.len() && (#[trigger] self.ends[i]).result is Ok
    }
}

/// Whether each event answers what was asked.
pub open spec fn is_dialogue(cfg: Config, s: StateView, next: NextView, events: Seq<Event>) -> bool
    decreases events.len(),
{
    events.len() > 0 ==> {
        let (after, asked) = step(cfg, s, next, events.first());
        &&& answers(s, next, events.first())
        &&& is_dialogue(cfg, after, asked, events.drop_first())
    }
}

/// The state, what is asked, and the history after the events.
pub open spec fn run(
    cfg: Config,
    s: StateView,
    next: NextView,
    history: History,
    events: Seq<Event>,
) -> (StateView, NextView, History)
    decreases events.len(),
{
    if events.len() == 0 {
        (s, next, history)
    } else {
        let (after, asked) = step(cfg, s, next, events.first());
        run(cfg, after, asked, history.extended(cfg, next, events.first()), events.drop_first())
    }
}

/// A heartbeat that has found the address `ip`: the decision, and the events
/// after it.
pub open spec fn heartbeat(
    cfg: Config,
    s: StateView,
    ip: Seq<char>,
    age_now: Timestamp,
    rate_now: Timestamp,
    events: Seq<Event>,
) -> (StateView, NextView, History) {
    run(cfg, s, plan_view(cfg, s, ip, age_now, rate_now), History::empty(), events)
}

/// Whether the events are a dialogue with that heartbeat.
pub open spec fn is_heartbeat(
    cfg: Config,
    s: StateView,
    ip: Seq<char>,
    age_now: Timestamp,
    rate_now: Timestamp,
    events: Seq<Event>,
) -> bool {
    is_dialogue(cfg, s, plan_view(cfg, s, ip, age_now, rate_now), events)
}

/// Whether two states agree in all but the known record IDs.
pub open spec fn same_but_ids(a: StateView, b: StateView) -> bool {
    &&& a.last_ip == b.last_ip
    &&& a.last_success == b.last_success
    &&& a.last_publish_ts == b.last_publish_ts
    &&& a.ns_convergence_report == b.ns_convergence_report
    &&& a.ns_inconsistency_cycles == b.ns_inconsistency_cycles
}

/// Whether `name` is the name of a managed record.
pub open spec fn is_managed(cfg: Config, name: Seq<char>) -> bool {
    exists|i: int| 0 <= i < cfg.managed_records@.len() && #[trigger] cfg.managed_records@[i]@ == name
}

/// Whether two maps of record IDs agree in the records that are not managed.
pub open spec fn same_unmanaged(
    cfg: Config,
    a: Map<Seq<char>, Seq<char>>,
    b: Map<Seq<char>, Seq<char>>,
) -> bool {
    forall|name: Seq<char>|
        !is_managed(cfg, name) ==> {
            &&& #[trigger] a.contains_key(name) == b.contains_key(name)
            &&& a.contains_key(name) ==> a[name] == b[name]
        }
}

/// Whether the records that were brought to their end are the first managed
/// ones, in their order.
pub open spec fn ends_in_order(cfg: Config, history: History) -> bool {
    &&& history.ends.len() <= cfg.managed_records@.len()
    &&& forall|i: int|
        0 <= i < history.ends.len() ==> (#[trigger] history.ends[i]).fqdn
            == cfg.managed_records@[i]@
}

/// Whether the pass publishes `ip` and stands at the first managed record that
/// the history does not hold.
pub open spec fn pass_fits(cfg: Config, ip: Seq<char>, pass: PassView, history: History) -> bool {
    &&& pass.ip == ip
    &&& pass.index == history.ends.len()
    &&& pass.index < cfg.managed_records@.len()
    &&& pass.any_ok == history.any_published()
}

/// Whether the state says that `ip` was published at the times at which the
/// last managed record came to its end.
pub open spec fn says_published(s: StateView, ip: Seq<char>, history: History) -> bool {
    &&& history.any_published()
    &&& history.last is Some
    &&& s.last_ip == Some(ip)
    &&& s.last_success == Some(history.last->0.succeeded_at)
}

/// Whether the state holds the report on an answer of each configured name server
/// to the question whether it shows `ip`: every one of them stands in it, either
/// as fresh or as stale.
pub open spec fn says_reported(cfg: Config, s: StateView, ip: Seq<char>) -> bool {
    let ns_list = texts(cfg.authoritative_ns@);
    &&& s.ns_convergence_report is Some
    &&& s.ns_convergence_report->0.fresh.len() + s.ns_convergence_report->0.stale.len()
        == cfg.authoritative_ns@.len()
    &&& exists|answers: Seq<NsAnswer>, checked_at: Timestamp|
        {
            &&& answers.len() == cfg.authoritative_ns@.len()
            &&& s.ns_convergence_report->0 == #[trigger] report_view(
                ns_list,
                answers,
                ip,
                checked_at,
            )
        }
}

/// Where a heartbeat can stand that began in the state `before` and publishes
/// `ip`.
pub open spec fn on_course(
    cfg: Config,
    before: StateView,
    ip: Seq<char>,
    s: StateView,
    next: NextView,
    history: History,
) -> bool {
    let all_tried = history.ends.len() == cfg.managed_records@.len();
    &&& same_unmanaged(cfg, before.managed_record_ids, s.managed_record_ids)
    &&& ends_in_order(cfg, history)
    &&& history.ends.len() > 0 ==> history.last is Some
    &&& match next {
        NextView::List { pass, .. } => {
            &&& same_but_ids(before, s)
            &&& pass_fits(cfg, ip, pass, history)
            &&& next == ask_list(cfg, pass)
            &&& !s.managed_record_ids.contains_key(current(cfg, pass))
        },
        NextView::Create { pass, .. } => {
            &&& same_but_ids(before, s)
            &&& pass_fits(cfg, ip, pass, history)
            &&& next == ask_create(cfg, pass)
            &&& !s.managed_record_ids.contains_key(current(cfg, pass))
        },
        NextView::Update { pass, record_id, .. } => {
            &&& same_but_ids(before, s)
            &&& pass_fits(cfg, ip, pass, history)
            &&& next == ask_update(cfg, pass, record_id)
            &&& s.managed_record_ids.contains_key(current(cfg, pass))
            &&& s.managed_record_ids[current(cfg, pass)] == record_id
        },
        NextView::CheckNs(check) => {
            &&& all_tried
            &&& says_published(s, ip, history)
            &&& s.last_publish_ts == Some(history.last->0.published_at)
            &&& s.ns_convergence_report == before.ns_convergence_report
            &&& s.ns_inconsistency_cycles == before.ns_inconsistency_cycles
            &&& ip.len() > 0
            &&& cfg.managed_records@.len() > 0
            &&& check == NsCheckView {
                ns_list: texts(cfg.authoritative_ns@),
                probe: absolute_name(cfg.managed_records@[0]@),
                expected_ip: ip,
                per_query_secs: cfg.ns_check_timeout_secs,
                overall_secs: overall_timeout_view(
                    cfg.ns_check_timeout_secs,
                    cfg.authoritative_ns@.len(),
                ),
            }
        },
        NextView::Done(Outcome::Unchanged) => {
            &&& s == before
            &&& history == History::empty()
        },
        NextView::Done(Outcome::RateLimited { .. }) => {
            &&& s == before
            &&& history == History::empty()
        },
        NextView::Done(Outcome::NothingPublished) => {
            &&& all_tried
            &&& !history.any_published()
            &&& same_but_ids(before, s)
            &&& cfg.managed_records@.len() > 0 ==> !s.managed_record_ids.contains_key(
                cfg.managed_records@.last()@,
            )
        },
        NextView::Done(Outcome::Published) => {
            &&& all_tried
            &&& says_published(s, ip, history)
            &&& s.last_publish_ts == Some(history.last->0.published_at)
            &&& s.ns_convergence_report == before.ns_convergence_report
            &&& s.ns_inconsistency_cycles == before.ns_inconsistency_cycles
            &&& ip.len() == 0
        },
        NextView::Done(Outcome::Converged { name_servers }) => {
            &&& name_servers == cfg.authoritative_ns@.len()
            &&& all_tried
            &&& says_published(s, ip, history)
            &&& s.last_publish_ts == Some(history.last->0.published_at)
            &&& ip.len() > 0
            &&& says_reported(cfg, s, ip)
            &&& s.ns_convergence_report->0.stale.len() == 0
            &&& s.ns_inconsistency_cycles == 0
        },
        NextView::Done(Outcome::RateLimitCleared { cycle }) => {
            &&& all_tried
            &&& says_published(s, ip, history)
            &&& s.last_publish_ts is None
            &&& ip.len() > 0
            &&& says_reported(cfg, s, ip)
            &&& s.ns_convergence_report->0.stale.len() > 0
            &&& s.ns_inconsistency_cycles == cycle
            &&& cycle == before.ns_inconsistency_cycles + 1
            &&& cycle <= cfg.max_ns_inconsistency_cycles
        },
        NextView::Done(Outcome::PartialAccepted { cycle }) => {
            &&& all_tried
            &&& says_published(s, ip, history)
            &&& s.last_publish_ts == Some(history.last->0.published_at)
            &&& ip.len() > 0
            &&& says_reported(cfg, s, ip)
            &&& s.ns_convergence_report->0.stale.len() > 0
            &&& s.ns_inconsistency_cycles == cycle
            &&& cycle == before.ns_inconsistency_cycles + 1
            &&& cycle > cfg.max_ns_inconsistency_cycles
        },
    }
}

proof fn lemma_any_published_push(
    history: History,
    end: RecordEndView,
    last: Option<Times>,
)
    ensures
        (History { ends: history.ends.push(end), last }).any_published() == (
        history.any_published() || end.result is Ok),
{
    let after = History { ends: history.ends.push(end), last };
    if history.any_published() {
        let i = choose|i: int|
            0 <= i < history.ends.len() && (#[trigger] history.ends[i]).result is Ok;
        assert(after.ends[i].result is Ok);
    }
    if end.result is Ok {
        assert(after.ends[history.ends.len() as int].result is Ok);
    }
    if after.any_published() {
        let i = choose|i: int| 0 <= i < after.ends.len() && (#[trigger] after.ends[i]).result is Ok;
        if i < history.ends.len() {
            assert(history.ends[i].result is Ok);
        }
    }
}

/// The end of a record keeps a heartbeat on course.
proof fn lemma_end_record_on_course(
    cfg: Config,
    before: StateView,
    ip: Seq<char>,
    s: StateView,
    pass: PassView,
    end: RecordEndView,
    history: History,
    published_at: Timestamp,
    succeeded_at: Timestamp,
)
    requires
        same_unmanaged(cfg, before.managed_record_ids, s.managed_record_ids),
        same_but_ids(before, s),
        ends_in_order(cfg, history),
        pass_fits(cfg, ip, pass, history),
        end.fqdn == current(cfg, pass),
    ensures
        ({
            let ok = end.result is Ok;
            let (after, asked) = end_record_view(cfg, s, pass, ok, published_at, succeeded_at);
            let longer = History {
                ends: history.ends.push(end),
                last: Some(Times { published_at, succeeded_at }),
            };
            on_course(cfg, before, ip, after, asked, longer)
        }),
{
    let ok = end.result is Ok;
    let last = Some(Times { published_at, succeeded_at });
    let longer = History { ends: history.ends.push(end), last };
    let (after, asked) = end_record_view(cfg, s, pass, ok, published_at, succeeded_at);
    lemma_any_published_push(history, end, last);
    assert(cfg.managed_records@[pass.index]@ == current(cfg, pass));
    assert(is_managed(cfg, current(cfg, pass)));
    assert(same_unmanaged(cfg, before.managed_record_ids, after.managed_record_ids)) by {
        assert forall|name: Seq<char>| !is_managed(cfg, name) implies {
            &&& #[trigger] before.managed_record_ids.contains_key(name)
                == after.managed_record_ids.contains_key(name)
            &&& before.managed_record_ids.contains_key(name) ==> before.managed_record_ids[name]
                == after.managed_record_ids[name]
        } by {
            assert(name != current(cfg, pass));
        }
    }
    assert(ends_in_order(cfg, longer)) by {
        assert forall|i: int| 0 <= i < longer.ends.len() implies (#[trigger] longer.ends[i]).fqdn
            == cfg.managed_records@[i]@ by {
            if i < history.ends.len() {
                assert(longer.ends[i] == history.ends[i]);
            }
        }
    }
}

/// Every step keeps a heartbeat on course.
pub proof fn lemma_step_on_course(
    cfg: Config,
    before: StateView,
    ip: Seq<char>,
    s: StateView,
    next: NextView,
    history: History,
    event: Event,
)
    requires
        on_course(cfg, before, ip, s, next, history),
        answers(s, next, event),
    ensures
        on_course(
            cfg,
            before,
            ip,
            step(cfg, s, next, event).0,
            step(cfg, s, next, event).1,
            history.extended(cfg, next, event),
        ),
{
    match (next, event) {
        (NextView::List { pass, .. }, Event::Listed { listing, published_at, succeeded_at }) => {
            match list_outcome_view(listing) {
                Err(error) => {
                    let end = RecordEndView { fqdn: current(cfg, pass), result: Err(error) };
                    lemma_end_record_on_course(
                        cfg,
                        before,
                        ip,
                        s,
                        pass,
                        end,
                        history,
                        published_at,
                        succeeded_at,
                    );
                },
                Ok(records) => {
                    let (after, asked) = step(cfg, s, next, event);
                    lemma_insert_managed(cfg, before, s, after, pass);
                },
            }
        },
        (NextView::Create { pass, .. }, Event::Created { reply, published_at, succeeded_at }) => {
            let end = record_end(cfg, next, event)->0;
            match create_outcome_view(reply) {
                Err(error) => {
                    lemma_end_record_on_course(
                        cfg,
                        before,
                        ip,
                        s,
                        pass,
                        end,
                        history,
                        published_at,
                        succeeded_at,
                    );
                },
                Ok(record) => {
                    let known = StateView {
                        managed_record_ids: s.managed_record_ids.insert(
                            current(cfg, pass),
                            record.id@,
                        ),
                        ..s
                    };
                    lemma_insert_managed(cfg, before, s, known, pass);
                    lemma_end_record_on_course(
                        cfg,
                        before,
                        ip,
                        known,
                        pass,
                        end,
                        history,
                        published_at,
                        succeeded_at,
                    );
                },
            }
        },
        (NextView::Update { pass, .. }, Event::Updated { reply, published_at, succeeded_at }) => {
            lemma_end_record_on_course(
                cfg,
                before,
                ip,
                s,
                pass,
                record_end(cfg, next, event)->0,
                history,
                published_at,
                succeeded_at,
            );
        },
        (NextView::CheckNs(check), Event::NsChecked { answers, checked_at }) => {
            lemma_report_complete(check.ns_list, answers, check.expected_ip);
            assert(cfg.authoritative_ns.len() == cfg.authoritative_ns@.len());
            let (after, _) = step(cfg, s, next, event);
            assert(after.ns_convergence_report->0 == report_view(
                check.ns_list,
                answers,
                check.expected_ip,
                checked_at,
            ));
        },
        _ => {},
    }
}

/// Remembering or leaving alone a managed record leaves the others alone.
proof fn lemma_insert_managed(
    cfg: Config,
    before: StateView,
    s: StateView,
    after: StateView,
    pass: PassView,
)
    requires
        0 <= pass.index < cfg.managed_records@.len(),
        same_unmanaged(cfg, before.managed_record_ids, s.managed_record_ids),
        after.managed_record_ids == s.managed_record_ids || exists|id: Seq<char>|
            after.managed_record_ids == #[trigger] s.managed_record_ids.insert(
                current(cfg, pass),
                id,
            ),
    ensures
        same_unmanaged(cfg, before.managed_record_ids, after.managed_record_ids),
{
    assert(cfg.managed_records@[pass.index]@ == current(cfg, pass));
    assert(is_managed(cfg, current(cfg, pass)));
    assert forall|name: Seq<char>| !is_managed(cfg, name) implies {
        &&& #[trigger] before.managed_record_ids.contains_key(name)
            == after.managed_record_ids.contains_key(name)
        &&& before.managed_record_ids.contains_key(name) ==> before.managed_record_ids[name]
            == after.managed_record_ids[name]
    } by {
        assert(name != current(cfg, pass));
    }
}

proof fn lemma_run_on_course(
    cfg: Config,
    before: StateView,
    ip: Seq<char>,
    s: StateView,
    next: NextView,
    history: History,
    events: Seq<Event>,
)
    requires
        on_course(cfg, before, ip, s, next, history),
        is_dialogue(cfg, s, next, events),
    ensures
        ({
            let (after, asked, told) = run(cfg, s, next, history, events);
            on_course(cfg, before, ip, after, asked, told)
        }),
    decreases events.len(),
{
    if events.len() > 0 {
        let (after, asked) = step(cfg, s, next, events.first());
        lemma_step_on_course(cfg, before, ip, s, next, history, events.first());
        lemma_run_on_course(
            cfg,
            before,
            ip,
            after,
            asked,
            history.extended(cfg, next, events.first()),
            events.drop_first(),
        );
    }
}

/// Whatever is answered, a heartbeat stays on course. In particular: the managed
/// records are tried in their order, and each of them once; what is asked names
/// the current record and the address that was found; the record IDs of other
/// names stay as they are; the address and the times change only where a record
/// was published, and then say so.
pub proof fn lemma_heartbeat_on_course(
    cfg: Config,
    s: StateView,
    ip: Seq<char>,
    age_now: Timestamp,
    rate_now: Timestamp,
    events: Seq<Event>,
)
    requires
        is_heartbeat(cfg, s, ip, age_now, rate_now, events),
    ensures
        ({
            let (after, asked, told) = heartbeat(cfg, s, ip, age_now, rate_now, events);
            on_course(cfg, s, ip, after, asked, told)
        }),
{
    let next = plan_view(cfg, s, ip, age_now, rate_now);
    assert(!History::empty().any_published());
    lemma_run_on_course(cfg, s, ip, s, next, History::empty(), events);
}

/// How many more questions a heartbeat can ask at most.
pub open spec fn questions_left(cfg: Config, next: NextView) -> int {
    let count = cfg.managed_records@.len();
    match next {
        NextView::Done(_) => 0,
        NextView::CheckNs(_) => 1,
        NextView::Create { pass, .. } => 2 * (count - pass.index),
        NextView::Update { pass, .. } => 2 * (count - pass.index),
        NextView::List { pass, .. } => 2 * (count - pass.index) + 1,
    }
}

proof fn lemma_run_ends(
    cfg: Config,
    before: StateView,
    ip: Seq<char>,
    s: StateView,
    next: NextView,
    history: History,
    events: Seq<Event>,
)
    requires
        on_course(cfg, before, ip, s, next, history),
        is_dialogue(cfg, s, next, events),
    ensures
        events.len() + questions_left(cfg, run(cfg, s, next, history, events).1) <= questions_left(
            cfg,
            next,
        ),
        questions_left(cfg, next) >= 0,
    decreases events.len(),
{
    if events.len() > 0 {
        let (after, asked) = step(cfg, s, next, events.first());
        let longer = history.extended(cfg, next, events.first());
        lemma_step_on_course(cfg, before, ip, s, next, history, events.first());
        lemma_run_ends(cfg, before, ip, after, asked, longer, events.drop_first());
    }
}

/// A heartbeat comes to its end: it asks at most two questions for each managed
/// record and one of the name servers.
pub proof fn lemma_heartbeat_ends(
    cfg: Config,
    s: StateView,
    ip: Seq<char>,
    age_now: Timestamp,
    rate_now: Timestamp,
    events: Seq<Event>,
)
    requires
        is_heartbeat(cfg, s, ip, age_now, rate_now, events),
    ensures
        events.len() <= 2 * cfg.managed_records@.len() + 1,
        events.len() == 2 * cfg.managed_records@.len() + 1 ==> heartbeat(
            cfg,
            s,
            ip,
            age_now,
            rate_now,
            events,
        ).1 is Done,
{
    let next = plan_view(cfg, s, ip, age_now, rate_now);
    assert(!History::empty().any_published());
    lemma_run_ends(cfg, s, ip, s, next, History::empty(), events);
    let (after, asked, told) = heartbeat(cfg, s, ip, age_now, rate_now, events);
    lemma_heartbeat_on_course(cfg, s, ip, age_now, rate_now, events);
}

/// What became of the current record is what is known of it afterwards: the ID
/// under which it was published, and nothing where it was not.
pub proof fn lemma_record_end_known(
    cfg: Config,
    before: StateView,
    ip: Seq<char>,
    s: StateView,
    next: NextView,
    history: History,
    event: Event,
)
    requires
        on_course(cfg, before, ip, s, next, history),
        answers(s, next, event),
    ensures
        record_end(cfg, next, event) matches Some(end) ==> tells(
            step(cfg, s, next, event).0.managed_record_ids,
            end,
        ),
{
}

/// A record is created exactly where a search for it was answered and found no
/// A record, and it is then created with the address that is published.
pub proof fn lemma_created_where_missing(
    cfg: Config,
    before: StateView,
    ip: Seq<char>,
    s: StateView,
    next: NextView,
    history: History,
    event: Event,
)
    requires
        on_course(cfg, before, ip, s, next, history),
        answers(s, next, event),
    ensures
        step(cfg, s, next, event).1 is Create <==> (event matches Event::Listed { listing, .. }
            && list_outcome_view(listing) matches Ok(records) && records.len() == 0),
        step(cfg, s, next, event).1 matches NextView::Create { pass, request } ==> {
            &&& pass.ip == ip
            &&& request == create_request_view(
                cfg.cloudflare_api_token@,
                cfg.cloudflare_zone_id@,
                current(cfg, pass),
                ip,
                cfg.proxied,
            )
        },
{
}

/// Whether the known record IDs tell what became of a record.
pub open spec fn tells(ids: Map<Seq<char>, Seq<char>>, end: RecordEndView) -> bool {
    match end.result {
        Ok(id) => ids.contains_key(end.fqdn) && ids[end.fqdn] == id,
        Err(_) => !ids.contains_key(end.fqdn),
    }
}

/// Whether no record is managed twice.
pub open spec fn distinct_managed(cfg: Config) -> bool {
    forall|i: int, j: int|
        0 <= i < j < cfg.managed_records@.len() ==> #[trigger] cfg.managed_records@[i]@
            != #[trigger] cfg.managed_records@[j]@
}

/// Whether the known record IDs tell what became of every record so far.
pub open spec fn tells_all(ids: Map<Seq<char>, Seq<char>>, history: History) -> bool {
    forall|i: int| 0 <= i < history.ends.len() ==> tells(ids, #[trigger] history.ends[i])
}

proof fn lemma_step_tells(
    cfg: Config,
    before: StateView,
    ip: Seq<char>,
    s: StateView,
    next: NextView,
    history: History,
    event: Event,
)
    requires
        on_course(cfg, before, ip, s, next, history),
        answers(s, next, event),
        distinct_managed(cfg),
        tells_all(s.managed_record_ids, history),
    ensures
        tells_all(
            step(cfg, s, next, event).0.managed_record_ids,
            history.extended(cfg, next, event),
        ),
{
    lemma_record_end_known(cfg, before, ip, s, next, history, event);
    let ids = step(cfg, s, next, event).0.managed_record_ids;
    let longer = history.extended(cfg, next, event);
    assert forall|i: int| 0 <= i < longer.ends.len() implies tells(
        ids,
        #[trigger] longer.ends[i],
    ) by {
        if i < history.ends.len() {
            assert(longer.ends[i] == history.ends[i]);
            assert(tells(s.managed_record_ids, history.ends[i]));
            assert(history.ends[i].fqdn == cfg.managed_records@[i]@);
            let k = history.ends.len() as int;
            if k < cfg.managed_records@.len() {
                assert(cfg.managed_records@[i]@ != cfg.managed_records@[k]@);
            }
        }
    }
}

proof fn lemma_run_tells(
    cfg: Config,
    before: StateView,
    ip: Seq<char>,
    s: StateView,
    next: NextView,
    history: History,
    events: Seq<Event>,
)
    requires
        on_course(cfg, before, ip, s, next, history),
        is_dialogue(cfg, s, next, events),
        distinct_managed(cfg),
        tells_all(s.managed_record_ids, history),
    ensures
        ({
            let (after, asked, told) = run(cfg, s, next, history, events);
            tells_all(after.managed_record_ids, told)
        }),
    decreases events.len(),
{
    if events.len() > 0 {
        let (after, asked) = step(cfg, s, next, events.first());
        let longer = history.extended(cfg, next, events.first());
        lemma_step_on_course(cfg, before, ip, s, next, history, events.first());
        lemma_step_tells(cfg, before, ip, s, next, history, events.first());
        lemma_run_tells(cfg, before, ip, after, asked, longer, events.drop_first());
    }
}

/// Where no record is managed twice, the known record IDs tell at every point of
/// a heartbeat what became of the records that it has dealt with: the ID of each
/// that was published, and none for each that was not, so that it is searched
/// for when it is next published.
pub proof fn lemma_heartbeat_tells(
    cfg: Config,
    s: StateView,
    ip: Seq<char>,
    age_now: Timestamp,
    rate_now: Timestamp,
    events: Seq<Event>,
)
    requires
        is_heartbeat(cfg, s, ip, age_now, rate_now, events),
        distinct_managed(cfg),
    ensures
        ({
            let (after, asked, told) = heartbeat(cfg, s, ip, age_now, rate_now, events);
            tells_all(after.managed_record_ids, told)
        }),
{
    let next = plan_view(cfg, s, ip, age_now, rate_now);
    assert(!History::empty().any_published());
    lemma_run_tells(cfg, s, ip, s, next, History::empty(), events);
}

/// Whether the outcome is that of a heartbeat in which a record was published.
pub open spec fn publishes(outcome: Outcome) -> bool {
    match outcome {
        Outcome::Unchanged => false,
        Outcome::RateLimited { .. } => false,
        Outcome::NothingPublished => false,
        Outcome::Published => true,
        Outcome::Converged { .. } => true,
        Outcome::RateLimitCleared { .. } => true,
        Outcome::PartialAccepted { .. } => true,
    }
}

/// Whether the heartbeat goes on to publish.
pub open spec fn goes_ahead(next: NextView) -> bool {
    !(next is Done)
}

/// While the address stays, its age asks for nothing, no publication has to be
/// repeated and every managed record is known, a heartbeat asks nothing and
/// changes nothing.
pub proof fn lemma_quiet(
    cfg: Config,
    s: StateView,
    ip: Seq<char>,
    age_now: Timestamp,
    rate_now: Timestamp,
    events: Seq<Event>,
)
    requires
        s.last_ip == Some(ip),
        !force_due_view(s.last_success, cfg.force_republish_secs, age_now),
        !retry_due_view(cfg, s),
        !search_due_view(cfg, s.managed_record_ids),
        is_heartbeat(cfg, s, ip, age_now, rate_now, events),
    ensures
        events.len() == 0,
        heartbeat(cfg, s, ip, age_now, rate_now, events) == (
            s,
            NextView::Done(Outcome::Unchanged),
            History::empty(),
        ),
{
}

/// Whether every record that was brought to its end was published.
pub open spec fn all_published(history: History) -> bool {
    forall|i: int| 0 <= i < history.ends.len() ==> (#[trigger] history.ends[i]).result is Ok
}

/// Whether every record that was brought to its end is known.
spec fn all_known(ids: Map<Seq<char>, Seq<char>>, history: History) -> bool {
    forall|i: int|
        0 <= i < history.ends.len() ==> ids.contains_key((#[trigger] history.ends[i]).fqdn)
}

proof fn lemma_run_known(
    cfg: Config,
    before: StateView,
    ip: Seq<char>,
    s: StateView,
    next: NextView,
    history: History,
    events: Seq<Event>,
)
    requires
        on_course(cfg, before, ip, s, next, history),
        is_dialogue(cfg, s, next, events),
        all_published(history) ==> all_known(s.managed_record_ids, history),
    ensures
        ({
            let (after, asked, told) = run(cfg, s, next, history, events);
            all_published(told) ==> all_known(after.managed_record_ids, told)
        }),
    decreases events.len(),
{
    if events.len() > 0 {
        let event = events.first();
        let (after, asked) = step(cfg, s, next, event);
        let longer = history.extended(cfg, next, event);
        lemma_step_on_course(cfg, before, ip, s, next, history, event);
        if all_published(longer) {
            lemma_record_end_known(cfg, before, ip, s, next, history, event);
            assert forall|i: int| 0 <= i < history.ends.len() implies (
            #[trigger] history.ends[i]).result is Ok by {
                assert(longer.ends[i] == history.ends[i]);
            }
            if record_end(cfg, next, event) is Some {
                assert(longer.ends[history.ends.len() as int].result is Ok);
            }
            assert forall|i: int|
                0 <= i < longer.ends.len() implies after.managed_record_ids.contains_key(
                (#[trigger] longer.ends[i]).fqdn,
            ) by {
                if i < history.ends.len() {
                    assert(s.managed_record_ids.contains_key(history.ends[i].fqdn));
                }
            }
        }
        lemma_run_known(cfg, before, ip, after, asked, longer, events.drop_first());
    }
}

/// After a heartbeat that published an address for every managed record, and
/// that the name servers showed or were given up on, the same address is not
/// published again before its age asks for it.
pub proof fn lemma_no_repetition(
    cfg: Config,
    s: StateView,
    ip: Seq<char>,
    age_now: Timestamp,
    rate_now: Timestamp,
    events: Seq<Event>,
    later_age_now: Timestamp,
    later_rate_now: Timestamp,
)
    requires
        is_heartbeat(cfg, s, ip, age_now, rate_now, events),
        heartbeat(cfg, s, ip, age_now, rate_now, events).1 matches NextView::Done(outcome)
            && publishes(outcome) && !(outcome is RateLimitCleared),
        all_published(heartbeat(cfg, s, ip, age_now, rate_now, events).2),
        ({
            let told = heartbeat(cfg, s, ip, age_now, rate_now, events).2;
            cfg.force_republish_secs == 0 || elapsed(later_age_now, told.last->0.succeeded_at)
                < cfg.force_republish_secs
        }),
    ensures
        ({
            let after = heartbeat(cfg, s, ip, age_now, rate_now, events).0;
            &&& after.last_ip == Some(ip)
            &&& plan_view(cfg, after, ip, later_age_now, later_rate_now) == NextView::Done(
                Outcome::Unchanged,
            )
        }),
{
    let (after, asked, told) = heartbeat(cfg, s, ip, age_now, rate_now, events);
    assert(!History::empty().any_published());
    lemma_heartbeat_on_course(cfg, s, ip, age_now, rate_now, events);
    lemma_run_known(
        cfg,
        s,
        ip,
        s,
        plan_view(cfg, s, ip, age_now, rate_now),
        History::empty(),
        events,
    );
    assert(all_known(after.managed_record_ids, told));
    assert forall|i: int|
        0 <= i < cfg.managed_records@.len() implies after.managed_record_ids.contains_key(
        #[trigger] cfg.managed_records@[i]@,
    ) by {
        assert(told.ends[i].fqdn == cfg.managed_records@[i]@);
    }
}

/// The rate limit: after a heartbeat that published, no heartbeat goes ahead to
/// publish any address before the configured seconds have passed, unless some
/// name server did not show the publication and the limit was lifted for it.
pub proof fn lemma_rate_limit(
    cfg: Config,
    s: StateView,
    ip: Seq<char>,
    age_now: Timestamp,
    rate_now: Timestamp,
    events: Seq<Event>,
    later_ip: Seq<char>,
    later_age_now: Timestamp,
    later_rate_now: Timestamp,
)
    requires
        is_heartbeat(cfg, s, ip, age_now, rate_now, events),
        heartbeat(cfg, s, ip, age_now, rate_now, events).1 matches NextView::Done(outcome)
            && publishes(outcome) && !(outcome is RateLimitCleared),
        ({
            let told = heartbeat(cfg, s, ip, age_now, rate_now, events).2;
            elapsed(later_rate_now, told.last->0.published_at) < cfg.publish_rate_limit_secs
        }),
    ensures
        ({
            let after = heartbeat(cfg, s, ip, age_now, rate_now, events).0;
            !goes_ahead(plan_view(cfg, after, later_ip, later_age_now, later_rate_now))
        }),
{
    lemma_heartbeat_on_course(cfg, s, ip, age_now, rate_now, events);
}

/// Where some name server did not show a publication and that has not happened
/// too often, the rate limit holds back nothing in the next heartbeat: it goes
/// ahead at once, whatever address it finds.
pub proof fn lemma_rate_limit_lifted(
    cfg: Config,
    s: StateView,
    ip: Seq<char>,
    age_now: Timestamp,
    rate_now: Timestamp,
    events: Seq<Event>,
    later_ip: Seq<char>,
    later_age_now: Timestamp,
    later_rate_now: Timestamp,
)
    requires
        is_heartbeat(cfg, s, ip, age_now, rate_now, events),
        heartbeat(cfg, s, ip, age_now, rate_now, events).1 matches NextView::Done(outcome)
            && outcome is RateLimitCleared,
    ensures
        ({
            let after = heartbeat(cfg, s, ip, age_now, rate_now, events).0;
            goes_ahead(plan_view(cfg, after, later_ip, later_age_now, later_rate_now))
        }),
{
    lemma_heartbeat_on_course(cfg, s, ip, age_now, rate_now, events);
}

/// Whether the heartbeat ended before it tried any record.
spec fn ended_early(next: NextView) -> bool {
    next matches NextView::Done(outcome) && (outcome is Unchanged || outcome is RateLimited)
}

proof fn lemma_run_goes_through(
    cfg: Config,
    s: StateView,
    next: NextView,
    history: History,
    events: Seq<Event>,
)
    requires
        is_dialogue(cfg, s, next, events),
        !ended_early(next),
    ensures
        !ended_early(run(cfg, s, next, history, events).1),
    decreases events.len(),
{
    if events.len() > 0 {
        let (after, asked) = step(cfg, s, next, events.first());
        lemma_run_goes_through(
            cfg,
            after,
            asked,
            history.extended(cfg, next, events.first()),
            events.drop_first(),
        );
    }
}

/// A heartbeat that goes ahead tries every managed record before it ends.
pub proof fn lemma_all_tried(
    cfg: Config,
    s: StateView,
    ip: Seq<char>,
    age_now: Timestamp,
    rate_now: Timestamp,
    events: Seq<Event>,
)
    requires
        goes_ahead(plan_view(cfg, s, ip, age_now, rate_now)),
        is_heartbeat(cfg, s, ip, age_now, rate_now, events),
        heartbeat(cfg, s, ip, age_now, rate_now, events).1 is Done,
    ensures
        ({
            let told = heartbeat(cfg, s, ip, age_now, rate_now, events).2;
            &&& told.ends.len() == cfg.managed_records@.len()
            &&& ends_in_order(cfg, told)
        }),
{
    lemma_heartbeat_on_course(cfg, s, ip, age_now, rate_now, events);
    lemma_run_goes_through(
        cfg,
        s,
        plan_view(cfg, s, ip, age_now, rate_now),
        History::empty(),
        events,
    );
}

/// The retry: where some name server did not show a publication and that has not
/// happened too often, the next heartbeat publishes the same address again,
/// beginning with the first managed record, and tries every managed record
/// before it ends.
pub proof fn lemma_stale_is_retried(
    cfg: Config,
    s: StateView,
    ip: Seq<char>,
    age_now: Timestamp,
    rate_now: Timestamp,
    events: Seq<Event>,
    later_age_now: Timestamp,
    later_rate_now: Timestamp,
    later_events: Seq<Event>,
)
    requires
        is_heartbeat(cfg, s, ip, age_now, rate_now, events),
        heartbeat(cfg, s, ip, age_now, rate_now, events).1 matches NextView::Done(outcome)
            && outcome is RateLimitCleared,
        is_heartbeat(
            cfg,
            heartbeat(cfg, s, ip, age_now, rate_now, events).0,
            ip,
            later_age_now,
            later_rate_now,
            later_events,
        ),
    ensures
        ({
            let after = heartbeat(cfg, s, ip, age_now, rate_now, events).0;
            let planned = plan_view(cfg, after, ip, later_age_now, later_rate_now);
            let (_, asked, told) = heartbeat(
                cfg,
                after,
                ip,
                later_age_now,
                later_rate_now,
                later_events,
            );
            &&& goes_ahead(planned)
            &&& planned == begin_record_view(
                cfg,
                after.managed_record_ids,
                PassView { ip, index: 0, any_ok: false },
            )
            &&& asked is Done ==> told.ends.len() == cfg.managed_records@.len() && ends_in_order(
                cfg,
                told,
            )
        }),
{
    let after = heartbeat(cfg, s, ip, age_now, rate_now, events).0;
    lemma_heartbeat_on_course(cfg, s, ip, age_now, rate_now, events);
    if heartbeat(cfg, after, ip, later_age_now, later_rate_now, later_events).1 is Done {
        lemma_all_tried(cfg, after, ip, later_age_now, later_rate_now, later_events);
    }
}

/// The rate limit is lifted at most as often in a row as is configured: the
/// count of publications that some name server did not show grows by one each
/// time, and starts again only where all of them show a publication.
pub proof fn lemma_inconsistency_count(
    cfg: Config,
    s: StateView,
    ip: Seq<char>,
    age_now: Timestamp,
    rate_now: Timestamp,
    events: Seq<Event>,
)
    requires
        is_heartbeat(cfg, s, ip, age_now, rate_now, events),
        heartbeat(cfg, s, ip, age_now, rate_now, events).1 is Done,
    ensures
        ({
            let (after, asked, told) = heartbeat(cfg, s, ip, age_now, rate_now, events);
            match asked->Done_0 {
                Outcome::RateLimitCleared { cycle } => {
                    &&& after.ns_inconsistency_cycles == s.ns_inconsistency_cycles + 1 == cycle
                    &&& cycle <= cfg.max_ns_inconsistency_cycles
                },
                Outcome::PartialAccepted { cycle } => {
                    &&& after.ns_inconsistency_cycles == s.ns_inconsistency_cycles + 1 == cycle
                    &&& cycle > cfg.max_ns_inconsistency_cycles
                },
                Outcome::Converged { .. } => after.ns_inconsistency_cycles == 0,
                _ => after.ns_inconsistency_cycles == s.ns_inconsistency_cycles,
            }
        }),
{
    lemma_heartbeat_on_course(cfg, s, ip, age_now, rate_now, events);
}

/// A pass in which nothing could be published is made up for: every later
/// heartbeat goes ahead that the rate limit does not hold back, whatever address
/// it finds.
pub proof fn lemma_failure_is_retried(
    cfg: Config,
    s: StateView,
    ip: Seq<char>,
    age_now: Timestamp,
    rate_now: Timestamp,
    events: Seq<Event>,
    later_ip: Seq<char>,
    later_age_now: Timestamp,
    later_rate_now: Timestamp,
)
    requires
        is_heartbeat(cfg, s, ip, age_now, rate_now, events),
        heartbeat(cfg, s, ip, age_now, rate_now, events).1 == NextView::Done(
            Outcome::NothingPublished,
        ),
    ensures
        ({
            let after = heartbeat(cfg, s, ip, age_now, rate_now, events).0;
            goes_ahead(plan_view(cfg, after, later_ip, later_age_now, later_rate_now)) <==> (
            cfg.managed_records@.len() > 0 && !rate_limited_view(
                s.last_publish_ts,
                cfg.publish_rate_limit_secs,
                later_rate_now,
            ))
        }),
{
    lemma_heartbeat_on_course(cfg, s, ip, age_now, rate_now, events);
    let after = heartbeat(cfg, s, ip, age_now, rate_now, events).0;
    if cfg.managed_records@.len() > 0 {
        let last = cfg.managed_records@.len() - 1;
        assert(!after.managed_record_ids.contains_key(cfg.managed_records@[last]@));
    }
}

proof fn lemma_run_unknown(
    cfg: Config,
    before: StateView,
    ip: Seq<char>,
    s: StateView,
    next: NextView,
    history: History,
    events: Seq<Event>,
    i: int,
)
    requires
        on_course(cfg, before, ip, s, next, history),
        is_dialogue(cfg, s, next, events),
        first_of_its_name(cfg, i),
        history.ends.len() < i ==> !s.managed_record_ids.contains_key(cfg.managed_records@[i]@),
    ensures
        ({
            let (after, asked, told) = run(cfg, s, next, history, events);
            told.ends.len() < i ==> !after.managed_record_ids.contains_key(
                cfg.managed_records@[i]@,
            )
        }),
    decreases events.len(),
{
    if events.len() > 0 {
        let (after, asked) = step(cfg, s, next, events.first());
        let longer = history.extended(cfg, next, events.first());
        lemma_step_on_course(cfg, before, ip, s, next, history, events.first());
        if longer.ends.len() < i {
            assert(cfg.managed_records@[history.ends.len() as int]@ != cfg.managed_records@[i]@);
        }
        lemma_run_unknown(cfg, before, ip, after, asked, longer, events.drop_first(), i);
    }
}

/// Whether no managed record before the one at `i` has its name.
pub open spec fn first_of_its_name(cfg: Config, i: int) -> bool {
    &&& 0 <= i < cfg.managed_records@.len()
    &&& forall|j: int|
        0 <= j < i ==> #[trigger] cfg.managed_records@[j]@ != cfg.managed_records@[i]@
}

/// Whether the heartbeat begins the managed record at `i` with a search for it:
/// at once where it is the first one, and otherwise with whatever answer brings
/// the record before it to its end.
pub open spec fn searches(
    cfg: Config,
    s: StateView,
    ip: Seq<char>,
    age_now: Timestamp,
    rate_now: Timestamp,
    events: Seq<Event>,
    i: int,
) -> bool {
    let (after, asked, told) = heartbeat(cfg, s, ip, age_now, rate_now, events);
    &&& i == 0 ==> plan_view(cfg, s, ip, age_now, rate_now) == ask_list(
        cfg,
        PassView { ip, index: 0, any_ok: false },
    )
    &&& told.ends.len() + 1 == i ==> forall|event: Event|
        #![trigger step(cfg, after, asked, event)]
        answers(after, asked, event) && record_end(cfg, asked, event) is Some ==> step(
            cfg,
            after,
            asked,
            event,
        ).1 == ask_list(
            cfg,
            PassView {
                ip,
                index: i,
                any_ok: told.extended(cfg, asked, event).any_published(),
            },
        )
}

/// A managed record that is not known makes every heartbeat go ahead that the
/// rate limit does not hold back, whatever address it finds, and the heartbeat
/// begins that record with a search for it.
pub proof fn lemma_unknown_is_searched(
    cfg: Config,
    s: StateView,
    ip: Seq<char>,
    age_now: Timestamp,
    rate_now: Timestamp,
    events: Seq<Event>,
    i: int,
)
    requires
        first_of_its_name(cfg, i),
        !s.managed_record_ids.contains_key(cfg.managed_records@[i]@),
        !rate_limited_view(s.last_publish_ts, cfg.publish_rate_limit_secs, rate_now),
        is_heartbeat(cfg, s, ip, age_now, rate_now, events),
    ensures
        goes_ahead(plan_view(cfg, s, ip, age_now, rate_now)),
        searches(cfg, s, ip, age_now, rate_now, events, i),
{
    let next = plan_view(cfg, s, ip, age_now, rate_now);
    let (after, asked, told) = heartbeat(cfg, s, ip, age_now, rate_now, events);
    assert(search_due_view(cfg, s.managed_record_ids));
    assert(!History::empty().any_published());
    lemma_heartbeat_on_course(cfg, s, ip, age_now, rate_now, events);
    lemma_run_unknown(cfg, s, ip, s, next, History::empty(), events, i);
    if told.ends.len() + 1 == i {
        assert(cfg.managed_records@[i - 1]@ != cfg.managed_records@[i]@);
        assert forall|event: Event|
            #![trigger step(cfg, after, asked, event)]
            answers(after, asked, event) && record_end(cfg, asked, event) is Some implies step(
            cfg,
            after,
            asked,
            event,
        ).1 == ask_list(
            cfg,
            PassView {
                ip,
                index: i,
                any_ok: told.extended(cfg, asked, event).any_published(),
            },
        ) by {
            lemma_step_on_course(cfg, s, ip, after, asked, told, event);
        }
    }
}

/// A record that could not be published is found anew: where no record is
/// managed twice, every later heartbeat on the same address goes ahead that the
/// rate limit does not hold back, and it begins the record with a search for it.
pub proof fn lemma_failed_record_is_searched(
    cfg: Config,
    s: StateView,
    ip: Seq<char>,
    age_now: Timestamp,
    rate_now: Timestamp,
    events: Seq<Event>,
    i: int,
    later_age_now: Timestamp,
    later_rate_now: Timestamp,
    later_events: Seq<Event>,
)
    requires
        is_heartbeat(cfg, s, ip, age_now, rate_now, events),
        heartbeat(cfg, s, ip, age_now, rate_now, events).1 is Done,
        distinct_managed(cfg),
        ({
            let (after, _, told) = heartbeat(cfg, s, ip, age_now, rate_now, events);
            &&& 0 <= i < told.ends.len()
            &&& told.ends[i].result is Err
            &&& !rate_limited_view(
                after.last_publish_ts,
                cfg.publish_rate_limit_secs,
                later_rate_now,
            )
            &&& is_heartbeat(cfg, after, ip, later_age_now, later_rate_now, later_events)
        }),
    ensures
        ({
            let after = heartbeat(cfg, s, ip, age_now, rate_now, events).0;
            &&& goes_ahead(plan_view(cfg, after, ip, later_age_now, later_rate_now))
            &&& searches(cfg, after, ip, later_age_now, later_rate_now, later_events, i)
        }),
{
    let (after, _, told) = heartbeat(cfg, s, ip, age_now, rate_now, events);
    lemma_heartbeat_on_course(cfg, s, ip, age_now, rate_now, events);
    lemma_heartbeat_tells(cfg, s, ip, age_now, rate_now, events);
    assert(tells(after.managed_record_ids, told.ends[i]));
    lemma_unknown_is_searched(
        cfg,
        after,
        ip,
        later_age_now,
        later_rate_now,
        later_events,
        i,
    );
}

/// Where nothing is remembered, the first address that is found is published.
pub proof fn lemma_first_heartbeat(
    cfg: Config,
    ip: Seq<char>,
    age_now: Timestamp,
    rate_now: Timestamp,
)
    requires
        cfg.managed_records@.len() > 0,
    ensures
        plan_view(cfg, StateView::initial(), ip, age_now, rate_now) == ask_list(
            cfg,
            PassView { ip, index: 0, any_ok: false },
        ),
{
}

/// With an interval of 0 the age of a publication never asks for another one:
/// a heartbeat goes ahead only for a new address, for a publication that some
/// name server did not show, or for a record that is not known.
pub proof fn lemma_force_disabled(
    cfg: Config,
    s: StateView,
    ip: Seq<char>,
    age_now: Timestamp,
    rate_now: Timestamp,
)
    requires
        cfg.force_republish_secs == 0,
    ensures
        goes_ahead(plan_view(cfg, s, ip, age_now, rate_now)) ==> s.last_ip != Some(ip)
            || retry_due_view(cfg, s) || search_due_view(cfg, s.managed_record_ids),
{
}

/// With any other interval the records are published again once it has passed,
/// although the address stays and unless the rate limit holds it back.
pub proof fn lemma_forced_by_age(
    cfg: Config,
    s: StateView,
    ip: Seq<char>,
    age_now: Timestamp,
    rate_now: Timestamp,
)
    requires
        cfg.force_republish_secs > 0,
        cfg.managed_records@.len() > 0,
        s.last_success matches Some(ts) ==> elapsed(age_now, ts) >= cfg.force_republish_secs,
        !rate_limited_view(s.last_publish_ts, cfg.publish_rate_limit_secs, rate_now),
    ensures
        goes_ahead(plan_view(cfg, s, ip, age_now, rate_now)),
{
}

/// What the parts of a state say of each other: a rate limit that counts goes
/// back to a publication, a publication has an address, and the count of
/// publications that some name server did not show agrees with the last report.
pub open spec fn coherent(s: StateView) -> bool {
    &&& s.last_publish_ts is Some ==> s.last_success is Some
    &&& s.last_success is Some ==> s.last_ip is Some
    &&& s.ns_inconsistency_cycles > 0 <==> (s.ns_convergence_report matches Some(report)
        && report.stale.len() > 0)
}

/// The state in which nothing is remembered is coherent, and a heartbeat keeps a
/// state coherent at every point, whatever is answered.
pub proof fn lemma_coherent(
    cfg: Config,
    s: StateView,
    ip: Seq<char>,
    age_now: Timestamp,
    rate_now: Timestamp,
    events: Seq<Event>,
)
    requires
        is_heartbeat(cfg, s, ip, age_now, rate_now, events),
    ensures
        coherent(StateView::initial()),
        coherent(s) ==> coherent(heartbeat(cfg, s, ip, age_now, rate_now, events).0),
{
    lemma_heartbeat_on_course(cfg, s, ip, age_now, rate_now, events);
}

} // verus!
