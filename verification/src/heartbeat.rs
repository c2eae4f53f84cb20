//! One heartbeat: whether to publish, the pass over the managed records, and
//! the check of the name servers.
//!
//! A heartbeat is a dialogue. Each function takes the answer to what was asked
//! last, brings the state up to date and says what to ask next.

use vstd::prelude::*;
use vstd::string::*;
use crate::clock::{elapsed, Timestamp};
use crate::cloudflare::{
    create_outcome, create_outcome_view, create_request, create_request_view, list_outcome,
    list_outcome_view, list_request, list_request_view, update_outcome, update_outcome_view,
    update_request, update_request_view, CfRecord, CfReply, CfRequest, CfRequestView,
};
use crate::config::Config;
use crate::detect::{
    bucket_count, bucketize, collect_race, first_answer, Bucket, PeerResponse, ValidationBuckets,
};
use crate::error::{Error, ErrorView};
use crate::nameserver::{
    absolute_name, ns_report, overall_timeout_secs, overall_timeout_view, probe_name, report_view,
    NsAnswer,
};
use crate::record_ids::RecordIds;
use crate::state::{State, StateView};
use crate::text::{copy_texts, same_text, texts};

verus! {

/// The public address, and how the providers agree on it.
#[derive(Debug)]
pub struct Detection {
    pub trigger_ip: String,
    pub peers: Vec<PeerResponse>,
    pub buckets: ValidationBuckets,
}

/// The error where no provider reported an address.
pub open spec fn no_address(providers: Seq<String>) -> ErrorView {
    if providers.len() == 0 {
        ErrorView::NoIpProviders
    } else {
        ErrorView::NoProviderResponded
    }
}

/// First step: the public address, given what each provider reported. The state
/// stays as it is.
pub fn detect(cfg: &Config, state: &State, answers: Vec<Option<String>>) -> (r: Result<
    Detection,
    Error,
>)
    requires
        answers@.len() == cfg.ip_providers@.len() <= u32::MAX,
    ensures
        match first_answer(answers@) {
            Some(ip) => {
                &&& r is Ok
                &&& r->Ok_0.trigger_ip@ == ip
                &&& r->Ok_0.peers@.len() == answers@.len()
                &&& forall|i: int|
                    0 <= i < answers@.len() ==> {
                        &&& (#[trigger] r->Ok_0.peers@[i]).provider@ == cfg.ip_providers@[i]@
                        &&& r->Ok_0.peers@[i].ip == answers@[i]
                    }
                &&& r->Ok_0.buckets.confirm == bucket_count(
                    state@.last_ip,
                    ip,
                    r->Ok_0.peers@,
                    Bucket::Confirm,
                )
                &&& r->Ok_0.buckets.outdated == bucket_count(
                    state@.last_ip,
                    ip,
                    r->Ok_0.peers@,
                    Bucket::Outdated,
                )
                &&& r->Ok_0.buckets.conflict == bucket_count(
                    state@.last_ip,
                    ip,
                    r->Ok_0.peers@,
                    Bucket::Conflict,
                )
                &&& r->Ok_0.buckets.unreachable == bucket_count(
                    state@.last_ip,
                    ip,
                    r->Ok_0.peers@,
                    Bucket::Unreachable,
                )
            },
            None => r is Err && r->Err_0@ == no_address(cfg.ip_providers@),
        },
{
    match collect_race(cfg.ip_providers.as_slice(), answers) {
        Err(error) => Err(error),
        Ok((trigger_ip, peers)) => {
            let buckets = bucketize(&state.last_ip, trigger_ip.as_str(), peers.as_slice());
            Ok(Detection { trigger_ip, peers, buckets })
        },
    }
}

/// Whether the address differs from the one that was published last.
pub open spec fn ip_changed_view(last_ip: Option<Seq<char>>, ip: Seq<char>) -> bool {
    last_ip != Some(ip)
}

/// Whether the records have to be published again because of their age: never
/// where the interval is 0, and otherwise where they were never published or
/// the interval has passed.
pub open spec fn force_due_view(
    last_success: Option<Timestamp>,
    force_republish_secs: u64,
    now: Timestamp,
) -> bool {
    force_republish_secs > 0 && match last_success {
        None => true,
        Some(ts) => elapsed(now, ts) >= force_republish_secs,
    }
}

/// Whether the last publication is too recent for another one.
pub open spec fn rate_limited_view(
    last_publish_ts: Option<Timestamp>,
    publish_rate_limit_secs: u64,
    now: Timestamp,
) -> bool {
    match last_publish_ts {
        None => false,
        Some(ts) => elapsed(now, ts) < publish_rate_limit_secs,
    }
}

/// Whether the last publication has to be repeated because some name server did
/// not show it: its check lifted the rate limit, and that has not happened more
/// often in a row than is configured.
pub open spec fn retry_due_view(cfg: Config, s: StateView) -> bool {
    &&& s.last_publish_ts is None
    &&& 0 < s.ns_inconsistency_cycles <= cfg.max_ns_inconsistency_cycles
}

/// Whether some managed record has no known ID and has to be searched for.
pub open spec fn search_due_view(cfg: Config, ids: Map<Seq<char>, Seq<char>>) -> bool {
    exists|i: int|
        0 <= i < cfg.managed_records@.len() && !ids.contains_key(
            #[trigger] cfg.managed_records@[i]@,
        )
}

/// Whether there is anything to publish: a new address, one whose age asks for
/// it, one that some name server did not show, or a record without a known ID.
pub open spec fn due_view(cfg: Config, s: StateView, ip: Seq<char>, age_now: Timestamp) -> bool {
    ||| ip_changed_view(s.last_ip, ip)
    ||| force_due_view(s.last_success, cfg.force_republish_secs, age_now)
    ||| retry_due_view(cfg, s)
    ||| search_due_view(cfg, s.managed_record_ids)
}

/// Whether the address differs from the one that was published last.
pub fn ip_changed(state: &State, ip: &str) -> (r: bool)
    ensures
        r == ip_changed_view(state@.last_ip, ip@),
        r <==> (state.last_ip is None || state.last_ip->0@ != ip@),
{
    match &state.last_ip {
        Some(last) => !same_text(last.as_str(), ip),
        None => true,
    }
}

/// Whether the records have to be published again because of their age.
pub fn force_due(cfg: &Config, state: &State, now: Timestamp) -> (r: bool)
    ensures
        r == force_due_view(state@.last_success, cfg.force_republish_secs, now),
        r <==> cfg.force_republish_secs > 0 && (state.last_success is None || elapsed(
            now,
            state.last_success->0,
        ) >= cfg.force_republish_secs),
{
    if cfg.force_republish_secs == 0 {
        return false;
    }
    match state.last_success {
        None => true,
        Some(ts) => now.seconds_since(&ts) as i128 >= cfg.force_republish_secs as i128,
    }
}

/// Whether the last publication has to be repeated because some name server did
/// not show it.
pub fn retry_due(cfg: &Config, state: &State) -> (r: bool)
    ensures
        r == retry_due_view(*cfg, state@),
        r <==> state.last_publish_ts is None && state.ns_inconsistency_cycles > 0
            && state.ns_inconsistency_cycles <= cfg.max_ns_inconsistency_cycles,
{
    state.last_publish_ts.is_none() && 0 < state.ns_inconsistency_cycles
        && state.ns_inconsistency_cycles <= cfg.max_ns_inconsistency_cycles
}

/// Whether some managed record has no known ID and has to be searched for.
pub fn search_due(cfg: &Config, state: &State) -> (r: bool)
    ensures
        r == search_due_view(*cfg, state@.managed_record_ids),
        !r <==> forall|i: int|
            0 <= i < cfg.managed_records@.len() ==> state.managed_record_ids@.contains_key(
                #[trigger] cfg.managed_records@[i]@,
            ),
{
    let count: usize = cfg.managed_records.len();
    for i in 0..count
        invariant
            count == cfg.managed_records@.len(),
            forall|j: int|
                0 <= j < i ==> state@.managed_record_ids.contains_key(
                    #[trigger] cfg.managed_records@[j]@,
                ),
    {
        if state.managed_record_ids.get(cfg.managed_records[i].as_str()).is_none() {
            assert(!state@.managed_record_ids.contains_key(cfg.managed_records@[i as int]@));
            return true;
        }
    }
    false
}

/// Where a pass over the managed records stands.
#[derive(Debug)]
pub struct Pass {
    /// The address that is published.
    pub ip: String,
    /// The place of the current record among the managed ones.
    pub index: usize,
    /// Whether any record before it was published.
    pub any_ok: bool,
}

/// The mathematical content of a [`Pass`].
#[verifier::ext_equal]
pub struct PassView {
    pub ip: Seq<char>,
    pub index: int,
    pub any_ok: bool,
}

impl View for Pass {
    type V = PassView;

    open spec fn view(&self) -> PassView {
        PassView { ip: self.ip@, index: self.index as int, any_ok: self.any_ok }
    }
}

/// The check of the name servers after a pass.
#[derive(Debug)]
pub struct NsCheck {
    /// The name servers to ask.
    pub ns_list: Vec<String>,
    /// The name to ask for, with the dot at the root.
    pub probe: String,
    /// The address that was published.
    pub expected_ip: String,
    /// Seconds that one question is given.
    pub per_query_secs: u64,
    /// Seconds that the whole check is given, where a duration can hold them.
    pub overall_secs: Option<u64>,
}

/// The mathematical content of an [`NsCheck`].
#[verifier::ext_equal]
pub struct NsCheckView {
    pub ns_list: Seq<Seq<char>>,
    pub probe: Seq<char>,
    pub expected_ip: Seq<char>,
    pub per_query_secs: u64,
    pub overall_secs: Option<u64>,
}

impl View for NsCheck {
    type V = NsCheckView;

    open spec fn view(&self) -> NsCheckView {
        NsCheckView {
            ns_list: texts(self.ns_list@),
            probe: self.probe@,
            expected_ip: self.expected_ip@,
            per_query_secs: self.per_query_secs,
            overall_secs: self.overall_secs,
        }
    }
}

/// How a heartbeat that found an address ended.
#[derive(Clone, Copy, Debug, PartialEq, Eq, Structural)]
pub enum Outcome {
    /// The address is the published one, and nothing asks to publish it again.
    Unchanged,
    /// The last publication is too recent; the next heartbeat tries again.
    RateLimited { elapsed_secs: i64 },
    /// No record could be published.
    NothingPublished,
    /// Records were published, and there is no address to look for.
    Published,
    /// Records were published, and every name server shows it.
    Converged { name_servers: usize },
    /// Records were published and some name server does not show it; the next
    /// heartbeat publishes them again, without regard to the rate limit.
    RateLimitCleared { cycle: u32 },
    /// Records were published, some name server does not show it, and that has
    /// happened often enough to be accepted.
    PartialAccepted { cycle: u32 },
}

/// What a heartbeat asks next.
#[derive(Debug)]
pub enum Next {
    /// Nothing; the heartbeat is over.
    Done(Outcome),
    /// The records that have the current record's name.
    List { pass: Pass, request: CfRequest },
    /// To create the current record.
    Create { pass: Pass, request: CfRequest },
    /// To update the current record, which has the given ID.
    Update { pass: Pass, record_id: String, request: CfRequest },
    /// What the name servers show.
    CheckNs(NsCheck),
}

/// The mathematical content of a [`Next`].
#[verifier::ext_equal]
pub enum NextView {
    Done(Outcome),
    List { pass: PassView, request: CfRequestView },
    Create { pass: PassView, request: CfRequestView },
    Update { pass: PassView, record_id: Seq<char>, request: CfRequestView },
    CheckNs(NsCheckView),
}

impl View for Next {
    type V = NextView;

    open spec fn view(&self) -> NextView {
        match *self {
            Next::Done(outcome) => NextView::Done(outcome),
            Next::List { pass, request } => NextView::List { pass: pass@, request: request@ },
            Next::Create { pass, request } => NextView::Create { pass: pass@, request: request@ },
            Next::Update { pass, record_id, request } => NextView::Update {
                pass: pass@,
                record_id: record_id@,
                request: request@,
            },
            Next::CheckNs(check) => NextView::CheckNs(check@),
        }
    }
}

/// What became of one managed record.
#[derive(Debug)]
pub struct RecordEnd {
    pub fqdn: String,
    /// The ID of the published record, or why it was not published.
    pub result: Result<String, Error>,
}

/// The mathematical content of a [`RecordEnd`].
#[verifier::ext_equal]
pub struct RecordEndView {
    pub fqdn: Seq<char>,
    pub result: Result<Seq<char>, ErrorView>,
}

impl View for RecordEnd {
    type V = RecordEndView;

    open spec fn view(&self) -> RecordEndView {
        RecordEndView {
            fqdn: self.fqdn@,
            result: match self.result {
                Ok(id) => Ok(id@),
                Err(error) => Err(error@),
            },
        }
    }
}

/// What an answer brought: perhaps the end of one record, and what to ask next.
#[derive(Debug)]
pub struct Progress {
    pub finished: Option<RecordEnd>,
    pub next: Next,
}

impl Progress {
    /// The record that the answer brought to its end.
    pub open spec fn finished_view(self) -> Option<RecordEndView> {
        match self.finished {
            Some(end) => Some(end@),
            None => None,
        }
    }
}

/// The name of the current record.
pub open spec fn current(cfg: Config, pass: PassView) -> Seq<char> {
    cfg.managed_records@[pass.index]@
}

/// Asking to update the current record, which has the given ID.
pub open spec fn ask_update(cfg: Config, pass: PassView, record_id: Seq<char>) -> NextView {
    NextView::Update {
        pass,
        record_id,
        request: update_request_view(
            cfg.cloudflare_api_token@,
            cfg.cloudflare_zone_id@,
            record_id,
            current(cfg, pass),
            pass.ip,
            cfg.proxied,
        ),
    }
}

/// Asking to create the current record.
pub open spec fn ask_create(cfg: Config, pass: PassView) -> NextView {
    NextView::Create {
        pass,
        request: create_request_view(
            cfg.cloudflare_api_token@,
            cfg.cloudflare_zone_id@,
            current(cfg, pass),
            pass.ip,
            cfg.proxied,
        ),
    }
}

/// Asking for the records that have the current record's name.
pub open spec fn ask_list(cfg: Config, pass: PassView) -> NextView {
    NextView::List {
        pass,
        request: list_request_view(
            cfg.cloudflare_api_token@,
            cfg.cloudflare_zone_id@,
            current(cfg, pass),
        ),
    }
}

/// How a record begins: with an update where its ID is known, and otherwise
/// with a search for it.
pub open spec fn begin_record_view(
    cfg: Config,
    ids: Map<Seq<char>, Seq<char>>,
    pass: PassView,
) -> NextView {
    if ids.contains_key(current(cfg, pass)) {
        ask_update(cfg, pass, ids[current(cfg, pass)])
    } else {
        ask_list(cfg, pass)
    }
}

/// How a pass ends: where any record was published, the address and the times
/// are remembered and the name servers are asked for the first managed record.
pub open spec fn end_pass_view(
    cfg: Config,
    s: StateView,
    ip: Seq<char>,
    any_ok: bool,
    published_at: Timestamp,
    succeeded_at: Timestamp,
) -> (StateView, NextView) {
    if !any_ok {
        (s, NextView::Done(Outcome::NothingPublished))
    } else {
        let published = StateView {
            last_publish_ts: Some(published_at),
            last_success: Some(succeeded_at),
            last_ip: Some(ip),
            ..s
        };
        if cfg.managed_records@.len() == 0 || ip.len() == 0 {
            (published, NextView::Done(Outcome::Published))
        } else {
            (
                published,
                NextView::CheckNs(
                    NsCheckView {
                        ns_list: texts(cfg.authoritative_ns@),
                        probe: absolute_name(cfg.managed_records@[0]@),
                        expected_ip: ip,
                        per_query_secs: cfg.ns_check_timeout_secs,
                        overall_secs: overall_timeout_view(
                            cfg.ns_check_timeout_secs,
                            cfg.authoritative_ns@.len(),
                        ),
                    },
                ),
            )
        }
    }
}

/// How the current record ends: its ID is forgotten where it was not published,
/// and the pass goes on to the next record, if there is one.
pub open spec fn end_record_view(
    cfg: Config,
    s: StateView,
    pass: PassView,
    ok: bool,
    published_at: Timestamp,
    succeeded_at: Timestamp,
) -> (StateView, NextView) {
    let after = if ok {
        s
    } else {
        StateView {
            managed_record_ids: s.managed_record_ids.remove(current(cfg, pass)),
            ..s
        }
    };
    let any_ok = pass.any_ok || ok;
    if pass.index + 1 < cfg.managed_records@.len() {
        (
            after,
            begin_record_view(
                cfg,
                after.managed_record_ids,
                PassView { ip: pass.ip, index: pass.index + 1, any_ok },
            ),
        )
    } else {
        end_pass_view(cfg, after, pass.ip, any_ok, published_at, succeeded_at)
    }
}

/// The decision whether to publish `ip`, and the first thing to ask where the
/// answer is yes.
pub open spec fn plan_view(
    cfg: Config,
    s: StateView,
    ip: Seq<char>,
    age_now: Timestamp,
    rate_now: Timestamp,
) -> NextView {
    if !due_view(cfg, s, ip, age_now) {
        NextView::Done(Outcome::Unchanged)
    } else if rate_limited_view(s.last_publish_ts, cfg.publish_rate_limit_secs, rate_now) {
        NextView::Done(
            Outcome::RateLimited { elapsed_secs: elapsed(rate_now, s.last_publish_ts->0) as i64 },
        )
    } else if cfg.managed_records@.len() == 0 {
        NextView::Done(Outcome::NothingPublished)
    } else {
        begin_record_view(cfg, s.managed_record_ids, PassView { ip, index: 0, any_ok: false })
    }
}

/// After a list: the first record that was found is remembered and updated;
/// where none was found, it is created.
pub open spec fn listed_view(
    cfg: Config,
    s: StateView,
    pass: PassView,
    outcome: Result<Seq<CfRecord>, ErrorView>,
    published_at: Timestamp,
    succeeded_at: Timestamp,
) -> (StateView, NextView) {
    match outcome {
        Err(_) => end_record_view(cfg, s, pass, false, published_at, succeeded_at),
        Ok(records) => if records.len() > 0 {
            let id = records[0].id@;
            (
                StateView {
                    managed_record_ids: s.managed_record_ids.insert(current(cfg, pass), id),
                    ..s
                },
                ask_update(cfg, pass, id),
            )
        } else {
            (s, ask_create(cfg, pass))
        },
    }
}

/// After a creation: the new record is remembered.
pub open spec fn created_view(
    cfg: Config,
    s: StateView,
    pass: PassView,
    outcome: Result<CfRecord, ErrorView>,
    published_at: Timestamp,
    succeeded_at: Timestamp,
) -> (StateView, NextView) {
    match outcome {
        Err(_) => end_record_view(cfg, s, pass, false, published_at, succeeded_at),
        Ok(record) => end_record_view(
            cfg,
            StateView {
                managed_record_ids: s.managed_record_ids.insert(current(cfg, pass), record.id@),
                ..s
            },
            pass,
            true,
            published_at,
            succeeded_at,
        ),
    }
}

/// After the check of the name servers. Where they all show the address, the
/// count of publications that some did not show starts again; where not, it
/// grows, and as long as it is within its limit the rate limit is lifted.
pub open spec fn ns_checked_view(
    cfg: Config,
    s: StateView,
    check: NsCheckView,
    answers: Seq<NsAnswer>,
    checked_at: Timestamp,
) -> (StateView, Outcome) {
    let report = report_view(check.ns_list, answers, check.expected_ip, checked_at);
    if report.stale.len() == 0 {
        (
            StateView {
                ns_convergence_report: Some(report),
                ns_inconsistency_cycles: 0,
                ..s
            },
            Outcome::Converged { name_servers: report.fresh.len() as usize },
        )
    } else {
        let cycle = (s.ns_inconsistency_cycles + 1) as u32;
        if cycle <= cfg.max_ns_inconsistency_cycles {
            (
                StateView {
                    ns_convergence_report: Some(report),
                    ns_inconsistency_cycles: cycle,
                    last_publish_ts: None,
                    ..s
                },
                Outcome::RateLimitCleared { cycle },
            )
        } else {
            (
                StateView {
                    ns_convergence_report: Some(report),
                    ns_inconsistency_cycles: cycle,
                    ..s
                },
                Outcome::PartialAccepted { cycle },
            )
        }
    }
}

fn begin_record(cfg: &Config, ids: &RecordIds, pass: Pass) -> (r: Next)
    requires
        pass.index < cfg.managed_records@.len(),
    ensures
        r@ == begin_record_view(*cfg, ids@, pass@),
{
    let fqdn = cfg.managed_records[pass.index].as_str();
    match ids.get(fqdn) {
        Some(record_id) => {
            let request = update_request(
                cfg.cloudflare_api_token.as_str(),
                cfg.cloudflare_zone_id.as_str(),
                record_id.as_str(),
                fqdn,
                pass.ip.as_str(),
                cfg.proxied,
            );
            Next::Update { pass, record_id, request }
        },
        None => {
            let request = list_request(
                cfg.cloudflare_api_token.as_str(),
                cfg.cloudflare_zone_id.as_str(),
                fqdn,
            );
            Next::List { pass, request }
        },
    }
}

fn end_pass(
    cfg: &Config,
    state: &mut State,
    ip: String,
    any_ok: bool,
    published_at: Timestamp,
    succeeded_at: Timestamp,
) -> (r: Next)
    ensures
        (final(state)@, r@) == end_pass_view(
            *cfg,
            old(state)@,
            ip@,
            any_ok,
            published_at,
            succeeded_at,
        ),
{
    if !any_ok {
        return Next::Done(Outcome::NothingPublished);
    }
    state.last_publish_ts = Some(published_at);
    state.last_success = Some(succeeded_at);
    state.last_ip = Some(ip.clone());
    if cfg.managed_records.len() == 0 || ip.as_str().is_empty() {
        return Next::Done(Outcome::Published);
    }
    let check = NsCheck {
        ns_list: copy_texts(&cfg.authoritative_ns),
        probe: probe_name(cfg.managed_records[0].as_str()),
        expected_ip: ip,
        per_query_secs: cfg.ns_check_timeout_secs,
        overall_secs: overall_timeout_secs(cfg.ns_check_timeout_secs, cfg.authoritative_ns.len()),
    };
    Next::CheckNs(check)
}

fn end_record(
    cfg: &Config,
    state: &mut State,
    pass: Pass,
    ok: bool,
    published_at: Timestamp,
    succeeded_at: Timestamp,
) -> (r: Next)
    requires
        pass.index < cfg.managed_records@.len(),
    ensures
        (final(state)@, r@) == end_record_view(
            *cfg,
            old(state)@,
            pass@,
            ok,
            published_at,
            succeeded_at,
        ),
{
    if !ok {
        state.managed_record_ids.remove(cfg.managed_records[pass.index].as_str());
    }
    let any_ok = pass.any_ok || ok;
    let count: usize = cfg.managed_records.len();
    if pass.index + 1 < count {
        let following = Pass { ip: pass.ip, index: pass.index + 1, any_ok };
        begin_record(cfg, &state.managed_record_ids, following)
    } else {
        end_pass(cfg, state, pass.ip, any_ok, published_at, succeeded_at)
    }
}

/// Second step: decides whether to publish the address. `age_now` is the time
/// by which the age of the last publication is told, and `rate_now`, read after
/// it, the time for the rate limit.
pub fn plan_publish(
    cfg: &Config,
    state: &mut State,
    trigger_ip: String,
    age_now: Timestamp,
    rate_now: Timestamp,
) -> (r: Next)
    ensures
        r@ == plan_view(*cfg, old(state)@, trigger_ip@, age_now, rate_now),
        final(state)@ == old(state)@,
        ({
            let new_address = old(state).last_ip is None || old(state).last_ip->0@ != trigger_ip@;
            let limited = old(state).last_publish_ts is Some && elapsed(
                rate_now,
                old(state).last_publish_ts->0,
            ) < cfg.publish_rate_limit_secs;
            new_address && !limited && cfg.managed_records@.len() > 0 ==> match r {
                Next::List { pass, .. } => pass.ip@ == trigger_ip@ && pass.index == 0,
                Next::Update { pass, .. } => pass.ip@ == trigger_ip@ && pass.index == 0,
                _ => false,
            }
        }),
{
    if !ip_changed(state, trigger_ip.as_str()) && !force_due(cfg, state, age_now) && !retry_due(
        cfg,
        state,
    ) && !search_due(cfg, state) {
        state.last_ip = Some(trigger_ip);
        return Next::Done(Outcome::Unchanged);
    }
    if let Some(last) = state.last_publish_ts {
        let elapsed_secs: i64 = rate_now.seconds_since(&last);
        if (elapsed_secs as i128) < cfg.publish_rate_limit_secs as i128 {
            return Next::Done(Outcome::RateLimited { elapsed_secs });
        }
    }
    if cfg.managed_records.len() == 0 {
        return Next::Done(Outcome::NothingPublished);
    }
    begin_record(
        cfg,
        &state.managed_record_ids,
        Pass { ip: trigger_ip, index: 0, any_ok: false },
    )
}

/// The list that was asked for has come. The times are those to remember where
/// this ends a pass in which something was published.
pub fn on_listed(
    cfg: &Config,
    state: &mut State,
    pass: Pass,
    reply: CfReply<Vec<CfRecord>>,
    published_at: Timestamp,
    succeeded_at: Timestamp,
) -> (r: Progress)
    requires
        pass.index < cfg.managed_records@.len(),
    ensures
        (final(state)@, r.next@) == listed_view(
            *cfg,
            old(state)@,
            pass@,
            list_outcome_view(reply),
            published_at,
            succeeded_at,
        ),
        r.finished_view() == (match list_outcome_view(reply) {
            Ok(_) => None,
            Err(error) => Some(
                RecordEndView { fqdn: current(*cfg, pass@), result: Err(error) },
            ),
        }),
{
    let fqdn = cfg.managed_records[pass.index].clone();
    match list_outcome(reply) {
        Err(error) => {
            let next = end_record(cfg, state, pass, false, published_at, succeeded_at);
            Progress { finished: Some(RecordEnd { fqdn, result: Err(error) }), next }
        },
        Ok(records) => {
            if records.len() > 0 {
                let record_id = records[0].id.clone();
                let request = update_request(
                    cfg.cloudflare_api_token.as_str(),
                    cfg.cloudflare_zone_id.as_str(),
                    record_id.as_str(),
                    fqdn.as_str(),
                    pass.ip.as_str(),
                    cfg.proxied,
                );
                state.managed_record_ids.insert(fqdn, record_id.clone());
                Progress { finished: None, next: Next::Update { pass, record_id, request } }
            } else {
                let request = create_request(
                    cfg.cloudflare_api_token.as_str(),
                    cfg.cloudflare_zone_id.as_str(),
                    fqdn.as_str(),
                    pass.ip.as_str(),
                    cfg.proxied,
                );
                Progress { finished: None, next: Next::Create { pass, request } }
            }
        },
    }
}

/// The creation that was asked for has been answered.
pub fn on_created(
    cfg: &Config,
    state: &mut State,
    pass: Pass,
    reply: CfReply<CfRecord>,
    published_at: Timestamp,
    succeeded_at: Timestamp,
) -> (r: Progress)
    requires
        pass.index < cfg.managed_records@.len(),
    ensures
        (final(state)@, r.next@) == created_view(
            *cfg,
            old(state)@,
            pass@,
            create_outcome_view(reply),
            published_at,
            succeeded_at,
        ),
        r.finished_view() == Some(
            RecordEndView {
                fqdn: current(*cfg, pass@),
                result: match create_outcome_view(reply) {
                    Ok(record) => Ok(record.id@),
                    Err(error) => Err(error),
                },
            },
        ),
{
    let fqdn = cfg.managed_records[pass.index].clone();
    match create_outcome(reply) {
        Err(error) => {
            let next = end_record(cfg, state, pass, false, published_at, succeeded_at);
            Progress { finished: Some(RecordEnd { fqdn, result: Err(error) }), next }
        },
        Ok(record_id) => {
            state.managed_record_ids.insert(fqdn.clone(), record_id.clone());
            let next = end_record(cfg, state, pass, true, published_at, succeeded_at);
            Progress { finished: Some(RecordEnd { fqdn, result: Ok(record_id) }), next }
        },
    }
}

/// The update that was asked for has been answered.
pub fn on_updated(
    cfg: &Config,
    state: &mut State,
    pass: Pass,
    record_id: String,
    reply: CfReply<CfRecord>,
    published_at: Timestamp,
    succeeded_at: Timestamp,
) -> (r: Progress)
    requires
        pass.index < cfg.managed_records@.len(),
    ensures
        (final(state)@, r.next@) == end_record_view(
            *cfg,
            old(state)@,
            pass@,
            update_outcome_view(reply) is Ok,
            published_at,
            succeeded_at,
        ),
        r.finished_view() == Some(
            RecordEndView {
                fqdn: current(*cfg, pass@),
                result: match update_outcome_view(reply) {
                    Ok(_) => Ok(record_id@),
                    Err(error) => Err(error),
                },
            },
        ),
{
    let fqdn = cfg.managed_records[pass.index].clone();
    match update_outcome(reply) {
        Err(error) => {
            let next = end_record(cfg, state, pass, false, published_at, succeeded_at);
            Progress { finished: Some(RecordEnd { fqdn, result: Err(error) }), next }
        },
        Ok(()) => {
            let next = end_record(cfg, state, pass, true, published_at, succeeded_at);
            Progress { finished: Some(RecordEnd { fqdn, result: Ok(record_id) }), next }
        },
    }
}

/// The name servers have been asked; this ends the heartbeat.
pub fn on_ns_checked(
    cfg: &Config,
    state: &mut State,
    check: &NsCheck,
    answers: &[NsAnswer],
    checked_at: Timestamp,
) -> (r: Outcome)
    requires
        answers@.len() == check.ns_list@.len(),
        report_view(check@.ns_list, answers@, check@.expected_ip, checked_at).stale.len() > 0
            ==> old(state).ns_inconsistency_cycles < u32::MAX,
    ensures
        (final(state)@, r) == ns_checked_view(*cfg, old(state)@, check@, answers@, checked_at),
{
    let report = ns_report(
        check.ns_list.as_slice(),
        answers,
        check.expected_ip.as_str(),
        checked_at,
    );
    let fresh: usize = report.fresh.len();
    let stale: usize = report.stale.len();
    state.ns_convergence_report = Some(report);
    if stale == 0 {
        state.ns_inconsistency_cycles = 0;
        return Outcome::Converged { name_servers: fresh };
    }
    let cycle: u32 = state.ns_inconsistency_cycles + 1;
    state.ns_inconsistency_cycles = cycle;
    if cycle <= cfg.max_ns_inconsistency_cycles {
        state.last_publish_ts = None;
        Outcome::RateLimitCleared { cycle }
    } else {
        Outcome::PartialAccepted { cycle }
    }
}

} // verus!
