//! What a heartbeat decides and remembers, step by step, stated on the values
//! that go in and come out.

use vstd::prelude::*;
use crate::clock::{elapsed, Timestamp};
use crate::cloudflare::{
    create_outcome_view, list_outcome_view, CfEnvelope, CfRecord, CfReply,
};
use crate::config::Config;
use crate::heartbeat::{
    created_view, current, end_record_view, force_due_view, ip_changed_view, listed_view,
    no_address, ns_checked_view, plan_view, rate_limited_view, retry_due_view, search_due_view,
    Next, NextView, NsCheck, NsCheckView, Outcome, Pass, PassView, Progress, RecordEnd,
};
use crate::error::ErrorView;
use crate::http::{HttpStatus, Method};
use crate::laws::{
    answers, heartbeat, is_heartbeat, lemma_heartbeat_on_course, record_end, step, Event,
};
use crate::meaning::{
    lemma_first_kept, lemma_none_kept, lemma_search_fails, lemma_search_is_complete, lemma_shows,
    lemma_write_succeeds,
};
use crate::nameserver::{
    absolute_name, lemma_converged, lemma_report_complete, overall_timeout_view, returned, shows,
    NsAnswer, NsStaleView,
};
use crate::state::{State, StateView};
use crate::text::texts;

verus! {

/// A state is seen with everything that is remembered.
pub proof fn lemma_state_is_seen(state: State)
    ensures
        state@.managed_record_ids == state.managed_record_ids@,
        state@.last_ip is Some <==> state.last_ip is Some,
        state.last_ip is Some ==> state@.last_ip == Some(state.last_ip->0@),
        state@.last_success == state.last_success,
        state@.last_publish_ts == state.last_publish_ts,
        state@.ns_convergence_report is Some <==> state.ns_convergence_report is Some,
        state.ns_convergence_report is Some ==> state@.ns_convergence_report == Some(
            state.ns_convergence_report->0@,
        ),
        state@.ns_inconsistency_cycles == state.ns_inconsistency_cycles,
{
}

/// At first nothing is remembered.
pub proof fn lemma_nothing_remembered()
    ensures
        StateView::initial().managed_record_ids == Map::<Seq<char>, Seq<char>>::empty(),
        StateView::initial().last_ip is None,
        StateView::initial().last_success is None,
        StateView::initial().last_publish_ts is None,
        StateView::initial().ns_convergence_report is None,
        StateView::initial().ns_inconsistency_cycles == 0,
{
}

/// What is asked next is seen with everything that it holds.
pub proof fn lemma_next_is_seen(next: Next, pass: Pass, check: NsCheck)
    ensures
        pass@.ip == pass.ip@,
        pass@.index == pass.index,
        pass@.any_ok == pass.any_ok,
        check@.ns_list == texts(check.ns_list@),
        check@.probe == check.probe@,
        check@.expected_ip == check.expected_ip@,
        check@.per_query_secs == check.per_query_secs,
        check@.overall_secs == check.overall_secs,
        next matches Next::Done(outcome) ==> next@ == NextView::Done(outcome),
        next matches Next::List { pass, request } ==> next@ == (NextView::List {
            pass: pass@,
            request: request@,
        }),
        next matches Next::Create { pass, request } ==> next@ == (NextView::Create {
            pass: pass@,
            request: request@,
        }),
        next matches Next::Update { pass, record_id, request } ==> next@ == (NextView::Update {
            pass: pass@,
            record_id: record_id@,
            request: request@,
        }),
        next matches Next::CheckNs(check) ==> next@ == NextView::CheckNs(check@),
{
}

/// The end of a record is seen with its name and what became of it.
pub proof fn lemma_end_is_seen(progress: Progress, end: RecordEnd)
    ensures
        progress.finished is None <==> progress.finished_view() is None,
        progress.finished is Some ==> progress.finished_view() == Some(progress.finished->0@),
        end@.fqdn == end.fqdn@,
        end.result is Ok ==> end@.result == Ok::<Seq<char>, ErrorView>(end.result->Ok_0@),
        end.result is Err ==> end@.result == Err::<Seq<char>, ErrorView>(end.result->Err_0@),
{
}

/// A pass stands at the managed record that it counts to, and a configuration
/// without providers is told apart from providers that report nothing.
pub proof fn lemma_places(cfg: Config, pass: PassView, providers: Seq<String>)
    ensures
        current(cfg, pass) == cfg.managed_records@[pass.index]@,
        providers.len() == 0 ==> no_address(providers) is NoIpProviders,
        providers.len() > 0 ==> no_address(providers) is NoProviderResponded,
{
}

/// A new address is published: where it is not the one that was published last,
/// a record is managed and the rate limit does not hold it back, the heartbeat
/// goes ahead and begins the pass with that address at the first record.
pub proof fn lemma_new_address_is_published(
    cfg: Config,
    s: StateView,
    ip: Seq<char>,
    age_now: Timestamp,
    rate_now: Timestamp,
)
    requires
        s.last_ip != Some(ip),
        cfg.managed_records@.len() > 0,
        s.last_publish_ts matches Some(ts) ==> elapsed(rate_now, ts) >= cfg.publish_rate_limit_secs,
    ensures
        match plan_view(cfg, s, ip, age_now, rate_now) {
            NextView::List { pass, .. } => {
                &&& pass.ip == ip
                &&& pass.index == 0
                &&& !pass.any_ok
                &&& !s.managed_record_ids.contains_key(cfg.managed_records@[0]@)
            },
            NextView::Update { pass, record_id, .. } => {
                &&& pass.ip == ip
                &&& pass.index == 0
                &&& !pass.any_ok
                &&& s.managed_record_ids.contains_key(cfg.managed_records@[0]@)
                &&& record_id == s.managed_record_ids[cfg.managed_records@[0]@]
            },
            _ => false,
        },
{
}

/// The address that was published last is published again in three cases: its
/// publication is as old as is configured, some name server did not show it and
/// the retries are not used up, or a managed record has no known ID. The rate
/// limit holds back each of them.
pub proof fn lemma_known_address_is_published_again(
    cfg: Config,
    s: StateView,
    ip: Seq<char>,
    age_now: Timestamp,
    rate_now: Timestamp,
)
    requires
        s.last_ip == Some(ip),
        cfg.managed_records@.len() > 0,
        s.last_publish_ts matches Some(ts) ==> elapsed(rate_now, ts) >= cfg.publish_rate_limit_secs,
    ensures
        ({
            let old_enough = cfg.force_republish_secs > 0 && (s.last_success is None || elapsed(
                age_now,
                s.last_success->0,
            ) >= cfg.force_republish_secs);
            let not_shown = s.last_publish_ts is None && s.ns_inconsistency_cycles > 0
                && s.ns_inconsistency_cycles <= cfg.max_ns_inconsistency_cycles;
            let unknown = exists|i: int|
                0 <= i < cfg.managed_records@.len() && !s.managed_record_ids.contains_key(
                    #[trigger] cfg.managed_records@[i]@,
                );
            let planned = plan_view(cfg, s, ip, age_now, rate_now);
            &&& planned is Done <==> !old_enough && !not_shown && !unknown
            &&& planned is Done ==> planned == NextView::Done(Outcome::Unchanged)
            &&& planned matches NextView::List { pass, .. } ==> pass == PassView {
                ip,
                index: 0,
                any_ok: false,
            }
            &&& planned matches NextView::Update { pass, .. } ==> pass == PassView {
                ip,
                index: 0,
                any_ok: false,
            }
        }),
{
}

/// The rate limit holds back whatever would be published before it has passed,
/// and says how long ago the last publication was.
pub proof fn lemma_too_recent(
    cfg: Config,
    s: StateView,
    ip: Seq<char>,
    age_now: Timestamp,
    rate_now: Timestamp,
)
    requires
        s.last_publish_ts is Some,
        elapsed(rate_now, s.last_publish_ts->0) < cfg.publish_rate_limit_secs,
    ensures
        s.last_ip != Some(ip) ==> plan_view(cfg, s, ip, age_now, rate_now) == NextView::Done(
            Outcome::RateLimited { elapsed_secs: elapsed(rate_now, s.last_publish_ts->0) as i64 },
        ),
        plan_view(cfg, s, ip, age_now, rate_now) == NextView::Done(Outcome::Unchanged) || plan_view(
            cfg,
            s,
            ip,
            age_now,
            rate_now,
        ) == NextView::Done(
            Outcome::RateLimited { elapsed_secs: elapsed(rate_now, s.last_publish_ts->0) as i64 },
        ),
{
}

/// A heartbeat ends without a question in three ways only: nothing asks to
/// publish, the rate limit holds it back, or no record is managed.
pub proof fn lemma_ends_without_a_question(
    cfg: Config,
    s: StateView,
    ip: Seq<char>,
    age_now: Timestamp,
    rate_now: Timestamp,
)
    ensures
        ({
            let planned = plan_view(cfg, s, ip, age_now, rate_now);
            let quiet = {
                &&& s.last_ip == Some(ip)
                &&& cfg.force_republish_secs == 0 || (s.last_success is Some && elapsed(
                    age_now,
                    s.last_success->0,
                ) < cfg.force_republish_secs)
                &&& s.last_publish_ts is Some || s.ns_inconsistency_cycles == 0
                    || s.ns_inconsistency_cycles > cfg.max_ns_inconsistency_cycles
                &&& forall|i: int|
                    0 <= i < cfg.managed_records@.len() ==> s.managed_record_ids.contains_key(
                        #[trigger] cfg.managed_records@[i]@,
                    )
            };
            let limited = s.last_publish_ts is Some && elapsed(rate_now, s.last_publish_ts->0)
                < cfg.publish_rate_limit_secs;
            &&& planned == NextView::Done(Outcome::Unchanged) <==> quiet
            &&& planned == NextView::Done(
                Outcome::RateLimited {
                    elapsed_secs: (elapsed(rate_now, s.last_publish_ts->0) as i64),
                },
            ) <==> !quiet && limited
            &&& planned == NextView::Done(Outcome::NothingPublished) <==> !quiet && !limited
                && cfg.managed_records@.len() == 0
            &&& (planned is List || planned is Update) <==> !quiet && !limited
                && cfg.managed_records@.len() > 0
        }),
{
}

/// Each reason to publish, and the limit, by what it says.
pub proof fn lemma_reasons(
    cfg: Config,
    s: StateView,
    last_ip: Option<Seq<char>>,
    ip: Seq<char>,
    last: Option<Timestamp>,
    interval: u64,
    now: Timestamp,
)
    ensures
        ip_changed_view(last_ip, ip) <==> (last_ip is None || last_ip->0 != ip),
        interval == 0 ==> !force_due_view(last, interval, now),
        interval > 0 && last is None ==> force_due_view(last, interval, now),
        interval > 0 && last is Some ==> (force_due_view(last, interval, now) <==> elapsed(
            now,
            last->0,
        ) >= interval),
        last is None ==> !rate_limited_view(last, interval, now),
        last is Some ==> (rate_limited_view(last, interval, now) <==> elapsed(now, last->0)
            < interval),
        retry_due_view(cfg, s) <==> s.last_publish_ts is None && s.ns_inconsistency_cycles > 0
            && s.ns_inconsistency_cycles <= cfg.max_ns_inconsistency_cycles,
        !search_due_view(cfg, s.managed_record_ids) <==> forall|i: int|
            0 <= i < cfg.managed_records@.len() ==> s.managed_record_ids.contains_key(
                #[trigger] cfg.managed_records@[i]@,
            ),
{
}

/// Where there is nothing to keep in sync, nothing is published.
pub proof fn lemma_nothing_managed(
    cfg: Config,
    s: StateView,
    ip: Seq<char>,
    age_now: Timestamp,
    rate_now: Timestamp,
)
    requires
        cfg.managed_records@.len() == 0,
        s.last_ip != Some(ip),
        s.last_publish_ts matches Some(ts) ==> elapsed(rate_now, ts) >= cfg.publish_rate_limit_secs,
    ensures
        plan_view(cfg, s, ip, age_now, rate_now) == NextView::Done(Outcome::NothingPublished),
{
}

/// The record that is found is the one that is remembered and updated: the first
/// A record of a granted listing, whatever else it says.
pub proof fn lemma_found_record_is_updated(
    cfg: Config,
    s: StateView,
    pass: PassView,
    status: HttpStatus,
    body: String,
    envelope: CfEnvelope<Vec<CfRecord>>,
    i: int,
    published_at: Timestamp,
    succeeded_at: Timestamp,
)
    requires
        !(400 <= status.spec_code() < 600),
        envelope.success,
        envelope.result is Some,
        0 <= i < envelope.result->0@.len(),
        envelope.result->0@[i].rec_type@ == "A"@,
        forall|j: int|
            0 <= j < i ==> (#[trigger] envelope.result->0@[j]).rec_type@ != "A"@,
    ensures
        ({
            let listing = CfReply::Answer { status, body, parsed: Some(envelope) };
            let (after, next) = listed_view(
                cfg,
                s,
                pass,
                list_outcome_view(listing),
                published_at,
                succeeded_at,
            );
            let id = envelope.result->0@[i].id@;
            &&& next matches NextView::Update { pass: same, record_id, .. } && same == pass
                && record_id == id
            &&& after.managed_record_ids == s.managed_record_ids.insert(
                cfg.managed_records@[pass.index]@,
                id,
            )
            &&& after == StateView { managed_record_ids: after.managed_record_ids, ..s }
        }),
{
    lemma_search_is_complete(status, body, envelope);
    lemma_first_kept(envelope.result->0@, i);
}

/// A record is created exactly where a granted listing holds no A record; the
/// state then stays as it is.
pub proof fn lemma_missing_record_is_created(
    cfg: Config,
    s: StateView,
    pass: PassView,
    listing: CfReply<Vec<CfRecord>>,
    published_at: Timestamp,
    succeeded_at: Timestamp,
)
    ensures
        ({
            let (after, next) = listed_view(
                cfg,
                s,
                pass,
                list_outcome_view(listing),
                published_at,
                succeeded_at,
            );
            &&& next is Create <==> (listing matches CfReply::Answer {
                status,
                parsed: Some(envelope),
                ..
            } && !(400 <= status.spec_code() < 600) && envelope.success && envelope.result is Some
                && forall|i: int|
                0 <= i < envelope.result->0@.len() ==> (
                #[trigger] envelope.result->0@[i]).rec_type@ != "A"@)
            &&& next matches NextView::Create { pass: same, .. } ==> same == pass && after == s
        }),
{
    lemma_search_fails(listing);
    if let CfReply::Answer { status, body, parsed: Some(envelope) } = listing {
        if !(400 <= status.spec_code() < 600) && envelope.success && envelope.result is Some {
            let listed = envelope.result->0@;
            lemma_search_is_complete(status, body, envelope);
            if forall|i: int| 0 <= i < listed.len() ==> (#[trigger] listed[i]).rec_type@ != "A"@ {
                lemma_none_kept(listed);
            } else {
                let i = choose|i: int|
                    0 <= i < listed.len() && (#[trigger] listed[i]).rec_type@ == "A"@;
                let kept = list_outcome_view(listing)->Ok_0;
                assert(kept.contains(listed[i]));
            }
        }
    }
}

/// How one record comes to its end. A record that was not published is
/// forgotten, and one that was stays known. The next record is begun with the
/// same address, by its ID where that is known and by a search where it is not.
/// After the last one, an address of which any record was published is
/// remembered with its times and looked for on every configured name server
/// under the name of the first record; and nothing else is changed.
pub proof fn lemma_record_comes_to_its_end(
    cfg: Config,
    s: StateView,
    pass: PassView,
    ok: bool,
    published_at: Timestamp,
    succeeded_at: Timestamp,
)
    requires
        0 <= pass.index < cfg.managed_records@.len(),
    ensures
        ({
            let (after, next) = end_record_view(cfg, s, pass, ok, published_at, succeeded_at);
            let name = cfg.managed_records@[pass.index]@;
            let more = pass.index + 1 < cfg.managed_records@.len();
            let following = cfg.managed_records@[pass.index + 1]@;
            let any_ok = pass.any_ok || ok;
            &&& ok ==> after.managed_record_ids == s.managed_record_ids
            &&& !ok ==> after.managed_record_ids == s.managed_record_ids.remove(name)
            &&& after.ns_convergence_report == s.ns_convergence_report
            &&& after.ns_inconsistency_cycles == s.ns_inconsistency_cycles
            &&& more || !any_ok ==> {
                &&& after.last_ip == s.last_ip
                &&& after.last_success == s.last_success
                &&& after.last_publish_ts == s.last_publish_ts
            }
            &&& !more && any_ok ==> {
                &&& after.last_ip == Some(pass.ip)
                &&& after.last_success == Some(succeeded_at)
                &&& after.last_publish_ts == Some(published_at)
            }
            &&& match next {
                NextView::List { pass: later, .. } => {
                    &&& more
                    &&& later.ip == pass.ip
                    &&& later.index == pass.index + 1
                    &&& later.any_ok == any_ok
                    &&& !after.managed_record_ids.contains_key(following)
                },
                NextView::Update { pass: later, record_id, .. } => {
                    &&& more
                    &&& later.ip == pass.ip
                    &&& later.index == pass.index + 1
                    &&& later.any_ok == any_ok
                    &&& after.managed_record_ids.contains_key(following)
                    &&& record_id == after.managed_record_ids[following]
                },
                NextView::CheckNs(check) => {
                    &&& !more
                    &&& any_ok
                    &&& pass.ip.len() > 0
                    &&& check.ns_list == texts(cfg.authoritative_ns@)
                    &&& check.probe == absolute_name(cfg.managed_records@[0]@)
                    &&& check.expected_ip == pass.ip
                    &&& check.per_query_secs == cfg.ns_check_timeout_secs
                    &&& check.overall_secs == overall_timeout_view(
                        cfg.ns_check_timeout_secs,
                        cfg.authoritative_ns@.len(),
                    )
                },
                NextView::Done(outcome) => {
                    &&& !more
                    &&& !any_ok ==> outcome == Outcome::NothingPublished
                    &&& any_ok ==> outcome == Outcome::Published && pass.ip.len() == 0
                },
                NextView::Create { .. } => false,
            }
        }),
{
}

/// A search that fails ends its record, and so does a creation, whatever came of
/// it: the record that was created is known by the ID that the API gave it.
pub proof fn lemma_search_and_creation_end_the_record(
    cfg: Config,
    s: StateView,
    pass: PassView,
    listing: CfReply<Vec<CfRecord>>,
    reply: CfReply<CfRecord>,
    published_at: Timestamp,
    succeeded_at: Timestamp,
)
    ensures
        list_outcome_view(listing) is Err ==> listed_view(
            cfg,
            s,
            pass,
            list_outcome_view(listing),
            published_at,
            succeeded_at,
        ) == end_record_view(cfg, s, pass, false, published_at, succeeded_at),
        create_outcome_view(reply) is Err ==> created_view(
            cfg,
            s,
            pass,
            create_outcome_view(reply),
            published_at,
            succeeded_at,
        ) == end_record_view(cfg, s, pass, false, published_at, succeeded_at),
        reply matches CfReply::Answer { status, parsed: Some(envelope), .. } ==> (200
            <= status.spec_code() < 300 && envelope.success && envelope.result is Some
            ==> created_view(
            cfg,
            s,
            pass,
            create_outcome_view(reply),
            published_at,
            succeeded_at,
        ) == end_record_view(
            cfg,
            StateView {
                managed_record_ids: s.managed_record_ids.insert(
                    cfg.managed_records@[pass.index]@,
                    envelope.result->0.id@,
                ),
                ..s
            },
            pass,
            true,
            published_at,
            succeeded_at,
        )),
{
    lemma_write_succeeds(reply);
}

/// What the answers of the name servers mean. They have converged exactly where
/// each of them answered with a list of addresses in which the published one
/// stands; then the count starts again. Otherwise it grows by one, and the rate
/// limit is lifted as long as the count is within its limit.
pub proof fn lemma_convergence(
    cfg: Config,
    s: StateView,
    check: NsCheckView,
    given: Seq<NsAnswer>,
    checked_at: Timestamp,
)
    requires
        given.len() == check.ns_list.len(),
    ensures
        ({
            let (after, outcome) = ns_checked_view(cfg, s, check, given, checked_at);
            let all_show = forall|k: int|
                0 <= k < given.len() ==> ((#[trigger] given[k]) matches NsAnswer::Addresses(ips)
                    && texts(ips@).contains(check.expected_ip));
            let count = s.ns_inconsistency_cycles + 1;
            let counts = !all_show && count <= u32::MAX;
            &&& outcome is Converged <==> all_show
            &&& all_show ==> {
                &&& outcome == Outcome::Converged { name_servers: check.ns_list.len() as usize }
                &&& after.ns_inconsistency_cycles == 0
                &&& after.last_publish_ts == s.last_publish_ts
            }
            &&& counts && count <= cfg.max_ns_inconsistency_cycles ==> {
                &&& outcome == Outcome::RateLimitCleared { cycle: count as u32 }
                &&& after.ns_inconsistency_cycles == count
                &&& after.last_publish_ts is None
            }
            &&& counts && count > cfg.max_ns_inconsistency_cycles ==> {
                &&& outcome == Outcome::PartialAccepted { cycle: count as u32 }
                &&& after.ns_inconsistency_cycles == count
                &&& after.last_publish_ts == s.last_publish_ts
            }
            &&& after.managed_record_ids == s.managed_record_ids
            &&& after.last_ip == s.last_ip
            &&& after.last_success == s.last_success
        }),
{
    lemma_converged(check.ns_list, given, check.expected_ip);
    lemma_report_complete(check.ns_list, given, check.expected_ip);
    let all_show = forall|k: int|
        0 <= k < given.len() ==> ((#[trigger] given[k]) matches NsAnswer::Addresses(ips) && texts(
            ips@,
        ).contains(check.expected_ip));
    assert forall|k: int| 0 <= k < given.len() implies (shows(
        #[trigger] given[k],
        check.expected_ip,
    ) <==> (given[k] matches NsAnswer::Addresses(ips) && texts(ips@).contains(check.expected_ip)))
    by {
        lemma_shows(given[k], check.expected_ip);
    }
    if all_show {
        assert forall|k: int| 0 <= k < given.len() implies shows(
            #[trigger] given[k],
            check.expected_ip,
        ) by {}
    } else {
        let k = choose|k: int|
            0 <= k < given.len() && !((#[trigger] given[k]) matches NsAnswer::Addresses(ips)
                && texts(ips@).contains(check.expected_ip));
        assert(!shows(given[k], check.expected_ip));
    }
}

/// The report that is kept tells every name server: as fresh where the published
/// address stands in its answer, and otherwise as stale, with what it returned.
pub proof fn lemma_kept_report(
    cfg: Config,
    s: StateView,
    check: NsCheckView,
    given: Seq<NsAnswer>,
    checked_at: Timestamp,
    k: int,
)
    requires
        given.len() == check.ns_list.len(),
        0 <= k < given.len(),
    ensures
        ns_checked_view(
            cfg,
            s,
            check,
            given,
            checked_at,
        ).0.ns_convergence_report matches Some(report) && {
            let shown = given[k] matches NsAnswer::Addresses(ips) && texts(ips@).contains(
                check.expected_ip,
            );
            &&& report.checked_at == checked_at
            &&& report.fresh.len() + report.stale.len() == check.ns_list.len()
            &&& shown ==> report.fresh.contains(check.ns_list[k])
            &&& !shown ==> report.stale.contains(
                NsStaleView { ns: check.ns_list[k], returned_ip: returned(given[k]) },
            )
        },
{
    lemma_shows(given[k], check.expected_ip);
    lemma_report_complete(check.ns_list, given, check.expected_ip);
}

/// Whatever a heartbeat asks the API is authorised by the configured token, and
/// whatever it writes is an A record of the current managed name that points to
/// the address that was found, with the configured proxy mode.
pub proof fn lemma_heartbeat_writes(
    cfg: Config,
    s: StateView,
    ip: Seq<char>,
    age_now: Timestamp,
    rate_now: Timestamp,
    events: Seq<Event>,
)
    requires
        is_heartbeat(cfg, s, ip, age_now, rate_now, events),
    ensures
        match heartbeat(cfg, s, ip, age_now, rate_now, events).1 {
            NextView::Update { pass, record_id, request } => {
                &&& request.method == Method::Put
                &&& request.token == cfg.cloudflare_api_token@
                &&& request.url == "https://api.cloudflare.com/client/v4"@ + "/zones/"@
                    + cfg.cloudflare_zone_id@ + "/dns_records"@ + "/"@ + record_id
                &&& request.body matches Some(b) && {
                    &&& b.rec_type == "A"@
                    &&& b.name == cfg.managed_records@[pass.index]@
                    &&& b.content == ip
                    &&& b.ttl == 1
                    &&& b.proxied == cfg.proxied
                }
            },
            NextView::Create { pass, request } => {
                &&& request.method == Method::Post
                &&& request.token == cfg.cloudflare_api_token@
                &&& request.url == "https://api.cloudflare.com/client/v4"@ + "/zones/"@
                    + cfg.cloudflare_zone_id@ + "/dns_records"@
                &&& request.body matches Some(b) && {
                    &&& b.rec_type == "A"@
                    &&& b.name == cfg.managed_records@[pass.index]@
                    &&& b.content == ip
                    &&& b.ttl == 1
                    &&& b.proxied == cfg.proxied
                }
            },
            NextView::List { pass, request } => {
                &&& request.method == Method::Get
                &&& request.token == cfg.cloudflare_api_token@
                &&& request.url == "https://api.cloudflare.com/client/v4"@ + "/zones/"@
                    + cfg.cloudflare_zone_id@ + "/dns_records"@
                &&& request.body is None
                &&& request.query.len() == 2
                &&& request.query[0] == ("type"@, "A"@)
                &&& request.query[1] == ("name.exact"@, cfg.managed_records@[pass.index]@)
            },
            _ => true,
        },
{
    lemma_heartbeat_on_course(cfg, s, ip, age_now, rate_now, events);
}

/// What a heartbeat leaves behind: the address and the time of the last record
/// where any record was published, and nothing but known IDs where none was.
pub proof fn lemma_heartbeat_remembers(
    cfg: Config,
    s: StateView,
    ip: Seq<char>,
    age_now: Timestamp,
    rate_now: Timestamp,
    events: Seq<Event>,
)
    requires
        is_heartbeat(cfg, s, ip, age_now, rate_now, events),
        heartbeat(cfg, s, ip, age_now, rate_now, events).1 is Done,
    ensures
        ({
            let (after, _, told) = heartbeat(cfg, s, ip, age_now, rate_now, events);
            let published = exists|i: int|
                0 <= i < told.ends.len() && (#[trigger] told.ends[i]).result is Ok;
            &&& published ==> {
                &&& after.last_ip == Some(ip)
                &&& told.last is Some
                &&& after.last_success == Some(told.last->0.succeeded_at)
                &&& after.last_publish_ts is None || after.last_publish_ts == Some(
                    told.last->0.published_at,
                )
            }
            &&& !published ==> {
                &&& after.last_ip == s.last_ip
                &&& after.last_success == s.last_success
                &&& after.last_publish_ts == s.last_publish_ts
                &&& after.ns_convergence_report == s.ns_convergence_report
                &&& after.ns_inconsistency_cycles == s.ns_inconsistency_cycles
            }
        }),
{
    lemma_heartbeat_on_course(cfg, s, ip, age_now, rate_now, events);
}

/// A heartbeat ends as converged only where the last answers it got were those
/// of name servers that all show the address that it published.
pub proof fn lemma_converged_only_where_shown(
    cfg: Config,
    s: StateView,
    next: NextView,
    event: Event,
)
    requires
        !(next is Done),
        answers(s, next, event),
        step(cfg, s, next, event).1 matches NextView::Done(outcome) && outcome is Converged,
    ensures
        next matches NextView::CheckNs(check) && (event matches Event::NsChecked {
            answers: given,
            ..
        } && given.len() == check.ns_list.len() && forall|k: int|
            0 <= k < given.len() ==> ((#[trigger] given[k]) matches NsAnswer::Addresses(ips)
                && texts(ips@).contains(check.expected_ip))),
{
    if let NextView::CheckNs(check) = next {
        if let Event::NsChecked { answers: given, checked_at } = event {
            lemma_converged(check.ns_list, given, check.expected_ip);
            assert forall|k: int| 0 <= k < given.len() implies ((
            #[trigger] given[k]) matches NsAnswer::Addresses(ips) && texts(ips@).contains(
                check.expected_ip,
            )) by {
                assert(shows(given[k], check.expected_ip));
                lemma_shows(given[k], check.expected_ip);
            }
        }
    }
}

/// A record counts as published exactly where its update or its creation was
/// answered with a success, an envelope that says so and a record.
pub proof fn lemma_published_only_where_granted(cfg: Config, next: NextView, event: Event)
    requires
        record_end(cfg, next, event) is Some,
    ensures
        record_end(cfg, next, event)->0.result is Ok <==> {
            let granted = |reply: CfReply<CfRecord>|
                reply matches CfReply::Answer { status, parsed: Some(envelope), .. } && 200
                    <= status.spec_code() < 300 && envelope.success && envelope.result is Some;
            match event {
                Event::Created { reply, .. } => granted(reply),
                Event::Updated { reply, .. } => granted(reply),
                _ => false,
            }
        },
{
    match event {
        Event::Created { reply, .. } => {
            lemma_write_succeeds(reply);
        },
        Event::Updated { reply, .. } => {
            lemma_write_succeeds(reply);
        },
        _ => {},
    }
}

} // verus!
