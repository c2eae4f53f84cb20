//! What the operations are for, stated on the values that go in and come out.

use vstd::prelude::*;
use vstd::string::*;
use crate::clock::{elapsed, is_timestamp, Timestamp};
use crate::cloudflare::{
    create_outcome_view, create_request_view, list_outcome_view, list_request_view,
    read_request_view, reasons, token_outcome_view, update_outcome_view, update_request_view,
    zone_name_view, zone_outcome_view, zone_request_view, CfEnvelope, CfError, CfRecord,
    CfRecordWrite, CfReply, CfRequest, CF_API_BASE,
};
use crate::config::{CLIENT_TIMEOUT_SECS, CONFIG_VARIABLE, USER_AGENT};
use crate::detect::{
    bucket_count, first_answer, provider_outcome_view, provider_url_view, Bucket, PeerResponse,
    ProviderReply, POLL_INTERVAL_MILLIS, PROVIDER_ACCEPT,
};
use crate::error::{seen, Error, ErrorView};
use crate::health::REQUEST_LIMIT;
use crate::http::{status_display, HttpStatus, Method};
use crate::json::string_members;
use crate::nameserver::{
    absolute_name, overall_timeout_view, report_view, returned, shows, NsAnswer, NsReport,
    NsStaleEntry, NsStaleView,
};
use crate::record_ids::{distinct_names, has_name};
use crate::text::{decimal, is_white_space, opt_text, texts, trimmed};

verus! {

/// White space is what has the Unicode property `White_Space`, by its code.
pub proof fn lemma_white_space(c: char)
    ensures
        is_white_space(c) <==> {
            ||| 9 <= c as u32 <= 13
            ||| c as u32 == 32
            ||| c as u32 == 133
            ||| c as u32 == 160
            ||| c as u32 == 5760
            ||| 8192 <= c as u32 <= 8202
            ||| c as u32 == 8232
            ||| c as u32 == 8233
            ||| c as u32 == 8239
            ||| c as u32 == 8287
            ||| c as u32 == 12288
        },
{
}

/// Trimming takes away white space at the two ends and nothing else: the text is
/// white space, what is left, and white space again.
pub proof fn lemma_trimmed_is_the_middle(s: Seq<char>)
    ensures
        exists|before: Seq<char>, after: Seq<char>|
            {
                &&& s == #[trigger] (before + trimmed(s) + after)
                &&& forall|i: int| 0 <= i < before.len() ==> is_white_space(#[trigger] before[i])
                &&& forall|i: int| 0 <= i < after.len() ==> is_white_space(#[trigger] after[i])
            },
        trimmed(s).len() > 0 ==> !is_white_space(trimmed(s)[0]) && !is_white_space(
            trimmed(s)[trimmed(s).len() - 1],
        ),
    decreases s.len(),
{
    let none = Seq::<char>::empty();
    if s.len() == 0 {
        assert(s =~= none + trimmed(s) + none);
    } else if is_white_space(s.first()) {
        let rest = s.drop_first();
        lemma_trimmed_is_the_middle(rest);
        let (before, after) = choose|before: Seq<char>, after: Seq<char>|
            {
                &&& rest == #[trigger] (before + trimmed(rest) + after)
                &&& forall|i: int| 0 <= i < before.len() ==> is_white_space(#[trigger] before[i])
                &&& forall|i: int| 0 <= i < after.len() ==> is_white_space(#[trigger] after[i])
            };
        let longer = seq![s.first()] + before;
        assert(s =~= seq![s.first()] + rest);
        assert(s =~= longer + trimmed(s) + after);
    } else if is_white_space(s.last()) {
        let rest = s.drop_last();
        lemma_trimmed_is_the_middle(rest);
        let (before, after) = choose|before: Seq<char>, after: Seq<char>|
            {
                &&& rest == #[trigger] (before + trimmed(rest) + after)
                &&& forall|i: int| 0 <= i < before.len() ==> is_white_space(#[trigger] before[i])
                &&& forall|i: int| 0 <= i < after.len() ==> is_white_space(#[trigger] after[i])
            };
        let longer = after.push(s.last());
        assert(s =~= rest.push(s.last()));
        assert(s =~= before + trimmed(s) + longer);
    } else {
        assert(s =~= none + trimmed(s) + none);
    }
}

/// A number below ten is written with its digit; any other one with the number
/// of its tens and the digit of its ones.
pub proof fn lemma_decimal(n: nat)
    ensures
        decimal(n).len() > 0,
        '0' as int <= decimal(n).last() as int <= '9' as int,
        decimal(n).last() as int - '0' as int == n % 10,
        n < 10 ==> decimal(n).len() == 1,
        n >= 10 ==> decimal(n).drop_last() == decimal(n / 10),
{
    if n >= 10 {
        assert(decimal(n).drop_last() =~= decimal(n / 10));
    }
}

/// The contents of a list of strings are those of its strings, in their order.
pub proof fn lemma_texts(list: Seq<String>)
    ensures
        texts(list).len() == list.len(),
        forall|i: int| 0 <= i < list.len() ==> #[trigger] texts(list)[i] == list[i]@,
{
}

/// The content of an optional string is there where the string is.
pub proof fn lemma_opt_text(text: Option<String>)
    ensures
        text is None <==> opt_text(text) is None,
        text is Some ==> opt_text(text) == Some(text->0@),
{
}

/// A second of the calendar and a part of it are a point in time; the part may
/// exceed the second only at the end of a minute, and not by a second.
pub proof fn lemma_timestamps(secs: i64, nanos: u32)
    ensures
        nanos < 1_000_000_000 && -8334601228800 <= secs <= 8210266876799 ==> is_timestamp(
            secs,
            nanos,
        ),
        1_000_000_000 <= nanos < 2_000_000_000 && -8334601228800 <= secs <= 8210266876799 ==> (
        is_timestamp(secs, nanos) <==> (secs + 1) % 60 == 0),
        nanos >= 2_000_000_000 || secs < -8334601228800 || secs > 8210266876799 ==> !is_timestamp(
            secs,
            nanos,
        ),
{
}

/// Leap seconds apart, the seconds between two points in time are the largest
/// whole number of them that fits into the time between, and as many backward as
/// forward.
pub proof fn lemma_elapsed_fits(now: Timestamp, then: Timestamp)
    requires
        now.spec_nanos() < 1_000_000_000,
        then.spec_nanos() < 1_000_000_000,
    ensures
        ({
            let between = (now.spec_secs() - then.spec_secs()) * 1_000_000_000 + now.spec_nanos()
                - then.spec_nanos();
            &&& between >= 0 ==> elapsed(now, then) * 1_000_000_000 <= between < (elapsed(now, then)
                + 1) * 1_000_000_000
            &&& between < 0 ==> elapsed(now, then) == -elapsed(then, now)
        }),
{
}

/// Backward and forward the seconds are as many, leap seconds or not; a leap
/// second in which one of the points lies is counted where the other one is
/// later in the day.
pub proof fn lemma_elapsed_with_leap_seconds(now: Timestamp, then: Timestamp)
    ensures
        elapsed(now, then) == -elapsed(then, now),
        ({
            let between = (now.spec_secs() - then.spec_secs()) * 1_000_000_000 + now.spec_nanos()
                - then.spec_nanos();
            let later_in_the_day = now.spec_secs() as int % 86_400 > then.spec_secs() as int
                % 86_400;
            let counted = if later_in_the_day && then.spec_nanos() >= 1_000_000_000 {
                between + 1_000_000_000
            } else {
                between
            };
            now.spec_secs() as int % 86_400 >= then.spec_secs() as int % 86_400 && counted >= 0
                ==> elapsed(now, then) * 1_000_000_000 <= counted < (elapsed(now, then) + 1)
                * 1_000_000_000
        }),
        ({
            let between = (now.spec_secs() - then.spec_secs()) * 1_000_000_000 + now.spec_nanos()
                - then.spec_nanos();
            let earlier_in_the_day = (now.spec_secs() as int) % 86_400 < then.spec_secs() as int
                % 86_400;
            let counted = if now.spec_nanos() >= 1_000_000_000 {
                between - 1_000_000_000
            } else {
                between
            };
            earlier_in_the_day && counted >= 0 ==> elapsed(now, then) * 1_000_000_000 <= counted < (
            elapsed(now, then) + 1) * 1_000_000_000
        }),
{
}

/// A status is a success from 200 to 299, and a fault from 400 to 599.
pub proof fn lemma_status_ranges(status: HttpStatus)
    ensures
        status.success() <==> status.spec_code() / 100 == 2,
        status.fault() <==> status.spec_code() / 100 == 4 || status.spec_code() / 100 == 5,
{
}

/// An error keeps what it was made of.
pub proof fn lemma_error_keeps(e: Error)
    ensures
        match e {
            Error::NoManagedRecords => e@ is NoManagedRecords,
            Error::NoIpProviders => e@ is NoIpProviders,
            Error::NoProviderResponded => e@ is NoProviderResponded,
            Error::ProviderStatus { url, status } => e@ == (ErrorView::ProviderStatus {
                url: url@,
                status,
            }),
            Error::Step(step) => e@ == ErrorView::Step(step@),
            Error::Refused { op, reasons } => e@ == (ErrorView::Refused {
                op: op@,
                reasons: reasons@,
            }),
            Error::EmptyResult { op } => e@ == (ErrorView::EmptyResult { op: op@ }),
            Error::WriteStatus { method, status, body } => e@ == (ErrorView::WriteStatus {
                method,
                status,
                body: body@,
            }),
            Error::TokenRejected { status, body } => e@ == (ErrorView::TokenRejected {
                status,
                body: body@,
            }),
            Error::ZoneInaccessible { zone_id, status, body } => e@ == (
            ErrorView::ZoneInaccessible { zone_id: zone_id@, status, body: body@ }),
            Error::Preflight { cause } => e@ == (ErrorView::Preflight { cause: cause@ }),
            Error::NoNameServerAddress { host } => e@ == (ErrorView::NoNameServerAddress {
                host: host@,
            }),
        },
{
}

/// The texts that tell failures of the configuration and of the detection.
pub proof fn lemma_detection_messages(url: Seq<char>, status: HttpStatus, step: Seq<char>)
    ensures
        ErrorView::NoManagedRecords.message() == "managed_records must contain at least one FQDN"@,
        ErrorView::NoIpProviders.message() == "no ip providers configured"@,
        ErrorView::NoProviderResponded.message() == "no ip provider responded within race deadline"@,
        (ErrorView::ProviderStatus { url, status }).message() == url + " -> HTTP "@
            + status_display(status.spec_code()),
        ErrorView::Step(step).message() == step,
{
}

/// The texts that tell failures of the API and of the name servers.
pub proof fn lemma_api_messages(
    op: Seq<char>,
    listed: Seq<char>,
    status: HttpStatus,
    body: Seq<char>,
    zone_id: Seq<char>,
    cause: Seq<char>,
    host: Seq<char>,
)
    ensures
        (ErrorView::Refused { op, reasons: listed }).message() == op + " failed: "@ + listed,
        (ErrorView::EmptyResult { op }).message() == op + ": empty result"@,
        (ErrorView::WriteStatus { method: Method::Get, status, body }).message() == "CF "@ + "GET"@
            + " HTTP "@ + status_display(status.spec_code()) + ": "@ + body,
        (ErrorView::WriteStatus { method: Method::Put, status, body }).message() == "CF "@ + "PUT"@
            + " HTTP "@ + status_display(status.spec_code()) + ": "@ + body,
        (ErrorView::WriteStatus { method: Method::Post, status, body }).message() == "CF "@
            + "POST"@ + " HTTP "@ + status_display(status.spec_code()) + ": "@ + body,
        (ErrorView::TokenRejected { status, body }).message()
            == "cloudflare_api_token rejected by CF (HTTP "@ + status_display(status.spec_code())
            + "): "@ + body + ". check scope: needs DNS:Edit for the target zone."@,
        (ErrorView::ZoneInaccessible { zone_id, status, body }).message() == "cloudflare_zone_id "@
            + zone_id + " not accessible (HTTP "@ + status_display(status.spec_code()) + "): "@
            + body,
        (ErrorView::Preflight { cause }).message() == "CF credential pre-flight failed: "@ + cause,
        (ErrorView::NoNameServerAddress { host }).message() == "NS "@ + host
            + " did not resolve to any address"@,
{
}

/// A result is seen as it is, its error by what it is made of.
pub proof fn lemma_seen<T>(r: Result<T, Error>)
    ensures
        r is Ok ==> seen(r) == Ok::<T, ErrorView>(r->Ok_0),
        r is Err ==> seen(r) == Err::<T, ErrorView>(r->Err_0@),
{
}

/// The fixed numbers and names of the updater.
pub proof fn lemma_fixed_values()
    ensures
        CF_API_BASE@ == "https://api.cloudflare.com/client/v4"@,
        POLL_INTERVAL_MILLIS == 25,
        PROVIDER_ACCEPT@ == "text/plain"@,
        CLIENT_TIMEOUT_SECS == 15,
        USER_AGENT@ == "cloudflare-subdomain-updater/0.2"@,
        CONFIG_VARIABLE@ == "IONOS_UPDATER_CONFIG"@,
        REQUEST_LIMIT == 1024,
{
}

/// A provider that is given with its scheme is asked as it is given, and any
/// other one over HTTPS.
pub proof fn lemma_provider_is_asked(provider: Seq<char>)
    ensures
        provider_url_view("http://"@ + provider) == "http://"@ + provider,
        provider_url_view("https://"@ + provider) == "https://"@ + provider,
        provider_url_view(provider) == provider || provider_url_view(provider) == "https://"@
            + provider,
        provider_url_view(provider) == provider <==> "http://"@.is_prefix_of(provider)
            || "https://"@.is_prefix_of(provider),
{
    let plain = "http://"@;
    let secure = "https://"@;
    reveal_strlit("http://");
    reveal_strlit("https://");
    assert((plain + provider).subrange(0, plain.len() as int) =~= plain);
    assert((secure + provider).subrange(0, secure.len() as int) =~= secure);
    if provider_url_view(provider) == provider {
        assert((secure + provider).len() == provider.len() + 8);
    }
}

/// A provider that answers with a success reports the whole body but for the
/// white space around it.
pub proof fn lemma_reported_address(url: Seq<char>, status: HttpStatus, body: String)
    requires
        200 <= status.spec_code() < 300,
    ensures
        provider_outcome_view(url, ProviderReply::Answer { status, body }) matches Ok(ip) && {
            &&& exists|before: Seq<char>, after: Seq<char>|
                {
                    &&& body@ == #[trigger] (before + ip + after)
                    &&& forall|i: int|
                        0 <= i < before.len() ==> is_white_space(#[trigger] before[i])
                    &&& forall|i: int| 0 <= i < after.len() ==> is_white_space(#[trigger] after[i])
                }
            &&& ip.len() > 0 ==> !is_white_space(ip[0]) && !is_white_space(ip[ip.len() - 1])
        },
{
    lemma_trimmed_is_the_middle(body@);
    let (before, after) = choose|before: Seq<char>, after: Seq<char>|
        {
            &&& body@ == #[trigger] (before + trimmed(body@) + after)
            &&& forall|i: int| 0 <= i < before.len() ==> is_white_space(#[trigger] before[i])
            &&& forall|i: int| 0 <= i < after.len() ==> is_white_space(#[trigger] after[i])
        };
    let ip = provider_outcome_view(url, ProviderReply::Answer { status, body })->Ok_0;
    assert(ip == trimmed(body@));
    assert(body@ == before + ip + after);
}

/// A provider that cannot be asked, or answers with another status, reports
/// nothing, and the error says which.
pub proof fn lemma_nothing_reported(url: Seq<char>, reply: ProviderReply)
    ensures
        reply is SendFailed ==> provider_outcome_view(url, reply) == Err::<Seq<char>, ErrorView>(
            ErrorView::Step("GET "@ + url),
        ),
        reply is BodyFailed ==> provider_outcome_view(url, reply) == Err::<Seq<char>, ErrorView>(
            ErrorView::Step("body "@ + url),
        ),
        reply matches ProviderReply::Answer { status, body } ==> (!(200 <= status.spec_code() < 300)
            ==> provider_outcome_view(url, reply) == Err::<Seq<char>, ErrorView>(
            ErrorView::ProviderStatus { url, status },
        )),
{
}

/// One more report adds one to one count: that of the reports of the chosen
/// address, of the address published last where that is another one, of any
/// other address, or of none. Without reports nothing is counted.
pub proof fn lemma_report_is_counted(
    last_ip: Option<Seq<char>>,
    trigger_ip: Seq<char>,
    peers: Seq<PeerResponse>,
    peer: PeerResponse,
    bucket: Bucket,
)
    ensures
        bucket_count(last_ip, trigger_ip, Seq::<PeerResponse>::empty(), bucket) == 0,
        ({
            let before = bucket_count(last_ip, trigger_ip, peers, bucket);
            let after = bucket_count(last_ip, trigger_ip, peers.push(peer), bucket);
            let counts = match bucket {
                Bucket::Confirm => peer.ip is Some && peer.ip->0@ == trigger_ip,
                Bucket::Outdated => peer.ip is Some && peer.ip->0@ != trigger_ip && last_ip == Some(
                    peer.ip->0@,
                ),
                Bucket::Conflict => peer.ip is Some && peer.ip->0@ != trigger_ip && last_ip != Some(
                    peer.ip->0@,
                ),
                Bucket::Unreachable => peer.ip is None,
            };
            after == before + (if counts {
                1nat
            } else {
                0nat
            })
        }),
{
    reveal(Seq::filter);
    crate::detect::lemma_bucket_push(last_ip, trigger_ip, peers, peer, bucket);
}

/// The address is that of the first provider in the configured order that
/// reports one.
pub proof fn lemma_first_report_counts(answers: Seq<Option<String>>, i: int)
    requires
        0 <= i < answers.len(),
        answers[i] is Some,
        forall|j: int| 0 <= j < i ==> #[trigger] answers[j] is None,
    ensures
        first_answer(answers) == Some(answers[i]->0@),
    decreases answers.len(),
{
    if i > 0 {
        let rest = answers.drop_first();
        assert(answers[0] is None);
        assert forall|j: int| 0 <= j < i - 1 implies #[trigger] rest[j] is None by {
            assert(answers[j + 1] is None);
        }
        lemma_first_report_counts(rest, i - 1);
    }
}

/// Where no provider reports an address there is none.
pub proof fn lemma_no_report(answers: Seq<Option<String>>)
    requires
        forall|j: int| 0 <= j < answers.len() ==> #[trigger] answers[j] is None,
    ensures
        first_answer(answers) is None,
    decreases answers.len(),
{
    if answers.len() > 0 {
        let rest = answers.drop_first();
        assert(answers[0] is None);
        assert forall|j: int| 0 <= j < rest.len() implies #[trigger] rest[j] is None by {
            assert(answers[j + 1] is None);
        }
        lemma_no_report(rest);
    }
}

/// The reasons of a refusal are all told, in their order: each with its code in
/// brackets and its message, and a semicolon before every one but the first.
pub proof fn lemma_reasons_are_told(errors: Seq<CfError>, error: CfError)
    ensures
        reasons(Seq::<CfError>::empty()) == Seq::<char>::empty(),
        errors.len() == 0 ==> reasons(errors.push(error)) == "["@ + decimal(error.code as nat)
            + "] "@ + error.message@,
        errors.len() > 0 ==> reasons(errors.push(error)) == reasons(errors) + "; "@ + ("["@
            + decimal(error.code as nat) + "] "@ + error.message@),
{
    assert(errors.push(error).drop_last() =~= errors);
}

/// An envelope gives its result where it reports success and holds one.
pub proof fn lemma_envelope<T>(envelope: CfEnvelope<T>, op: Seq<char>)
    ensures
        envelope.success && envelope.result is Some ==> envelope.outcome(op) == Ok::<T, ErrorView>(
            envelope.result->0,
        ),
        envelope.success && envelope.result is None ==> envelope.outcome(op) == Err::<
            T,
            ErrorView,
        >(ErrorView::EmptyResult { op }),
        !envelope.success ==> envelope.outcome(op) == Err::<T, ErrorView>(
            ErrorView::Refused { op, reasons: reasons(envelope.errors@) },
        ),
{
}

/// A request is seen with everything that is sent.
pub proof fn lemma_request_is_seen(r: CfRequest)
    ensures
        r@.method == r.method,
        r@.url == r.url@,
        r@.token == r.token@,
        r@.query.len() == r.query@.len(),
        forall|i: int|
            0 <= i < r.query@.len() ==> (#[trigger] r@.query[i]).0 == r.query@[i].0@ && r@.query[i].1
                == r.query@[i].1@,
        r@.body is Some <==> r.body is Some,
        r.body is Some ==> {
            &&& r@.body->0.rec_type == r.body->0.rec_type@
            &&& r@.body->0.name == r.body->0.name@
            &&& r@.body->0.content == r.body->0.content@
            &&& r@.body->0.ttl == r.body->0.ttl
            &&& r@.body->0.proxied == r.body->0.proxied
        },
{
}

/// A record is seen with everything that is written.
pub proof fn lemma_write_is_seen(w: CfRecordWrite)
    ensures
        w@.rec_type == w.rec_type@,
        w@.name == w.name@,
        w@.content == w.content@,
        w@.ttl == w.ttl,
        w@.proxied == w.proxied,
{
}

/// An update puts the address, the name and the configured proxy mode into the
/// very record that it names, with the lifetime that means "automatic".
pub proof fn lemma_update_request(
    token: Seq<char>,
    zone_id: Seq<char>,
    record_id: Seq<char>,
    fqdn: Seq<char>,
    ip: Seq<char>,
    proxied: bool,
)
    ensures
        ({
            let r = update_request_view(token, zone_id, record_id, fqdn, ip, proxied);
            &&& r.method == Method::Put
            &&& r.url == "https://api.cloudflare.com/client/v4"@ + "/zones/"@ + zone_id
                + "/dns_records"@ + "/"@ + record_id
            &&& r.token == token
            &&& r.query.len() == 0
            &&& r.body matches Some(b) && {
                &&& b.rec_type == "A"@
                &&& b.name == fqdn
                &&& b.content == ip
                &&& b.ttl == 1
                &&& b.proxied == proxied
            }
        }),
{
}

/// A creation adds a record with the address, the name and the configured proxy
/// mode to the zone, with the lifetime that means "automatic".
pub proof fn lemma_create_request(
    token: Seq<char>,
    zone_id: Seq<char>,
    fqdn: Seq<char>,
    ip: Seq<char>,
    proxied: bool,
)
    ensures
        ({
            let r = create_request_view(token, zone_id, fqdn, ip, proxied);
            &&& r.method == Method::Post
            &&& r.url == "https://api.cloudflare.com/client/v4"@ + "/zones/"@ + zone_id
                + "/dns_records"@
            &&& r.token == token
            &&& r.query.len() == 0
            &&& r.body matches Some(b) && {
                &&& b.rec_type == "A"@
                &&& b.name == fqdn
                &&& b.content == ip
                &&& b.ttl == 1
                &&& b.proxied == proxied
            }
        }),
{
}

/// A search asks for the A records of the zone with exactly the name.
pub proof fn lemma_list_request(token: Seq<char>, zone_id: Seq<char>, fqdn: Seq<char>)
    ensures
        ({
            let r = list_request_view(token, zone_id, fqdn);
            &&& r.method == Method::Get
            &&& r.url == "https://api.cloudflare.com/client/v4"@ + "/zones/"@ + zone_id
                + "/dns_records"@
            &&& r.token == token
            &&& r.query.len() == 2
            &&& r.query[0].0 == "type"@
            &&& r.query[0].1 == "A"@
            &&& r.query[1].0 == "name.exact"@
            &&& r.query[1].1 == fqdn
            &&& r.body is None
        }),
{
}

/// The checks at startup read their address with the token and send nothing.
pub proof fn lemma_read_request(token: Seq<char>, url: Seq<char>, zone_id: Seq<char>)
    ensures
        ({
            let r = read_request_view(token, url);
            &&& r.method == Method::Get
            &&& r.url == url
            &&& r.token == token
            &&& r.query.len() == 0
            &&& r.body is None
        }),
        ({
            let r = zone_request_view(token, zone_id);
            &&& r.method == Method::Get
            &&& r.url == "https://api.cloudflare.com/client/v4"@ + "/zones/"@ + zone_id
            &&& r.token == token
            &&& r.query.len() == 0
            &&& r.body is None
        }),
{
}

/// A granted listing gives every A record in it, whatever else the record says,
/// and no other one, in the order in which they are listed.
pub proof fn lemma_search_is_complete(
    status: HttpStatus,
    body: String,
    envelope: CfEnvelope<Vec<CfRecord>>,
)
    requires
        !(400 <= status.spec_code() < 600),
        envelope.success,
        envelope.result is Some,
    ensures
        list_outcome_view(
            CfReply::Answer { status, body, parsed: Some(envelope) },
        ) matches Ok(kept) && {
            let listed = envelope.result->0@;
            &&& forall|i: int|
                0 <= i < listed.len() && (#[trigger] listed[i]).rec_type@ == "A"@ ==> kept.contains(
                    listed[i],
                )
            &&& forall|k: int|
                0 <= k < kept.len() ==> (#[trigger] kept[k]).rec_type@ == "A"@ && listed.contains(
                    kept[k],
                )
            &&& kept == listed.filter(|record: CfRecord| record.rec_type@ == "A"@)
        },
{
    let listed = envelope.result->0@;
    let wanted = |record: CfRecord| record.rec_type@ == "A"@;
    assert(wanted =~= |record: CfRecord| crate::cloudflare::is_a_record(record));
    let kept = listed.filter(wanted);
    assert forall|i: int| 0 <= i < listed.len() && (
    #[trigger] listed[i]).rec_type@ == "A"@ implies kept.contains(listed[i]) by {
        listed.lemma_filter_contains(wanted, i);
    }
    assert forall|k: int| 0 <= k < kept.len() implies (#[trigger] kept[k]).rec_type@ == "A"@
        && listed.contains(kept[k]) by {
        listed.lemma_filter_pred(wanted, k);
        lemma_kept_is_listed(listed, wanted, k);
    }
}

proof fn lemma_kept_is_listed(listed: Seq<CfRecord>, wanted: spec_fn(CfRecord) -> bool, k: int)
    requires
        0 <= k < listed.filter(wanted).len(),
    ensures
        listed.contains(listed.filter(wanted)[k]),
    decreases listed.len(),
{
    reveal(Seq::filter);
    let rest = listed.drop_last();
    let kept = rest.filter(wanted);
    if k < kept.len() {
        lemma_kept_is_listed(rest, wanted, k);
        let j = choose|j: int| 0 <= j < rest.len() && rest[j] == kept[k];
        assert(listed[j] == kept[k]);
    } else {
        assert(listed[listed.len() - 1] == listed.filter(wanted)[k]);
    }
}

/// The first record that a search gives is the first A record of the listing.
pub proof fn lemma_first_kept(listed: Seq<CfRecord>, i: int)
    requires
        0 <= i < listed.len(),
        listed[i].rec_type@ == "A"@,
        forall|j: int| 0 <= j < i ==> (#[trigger] listed[j]).rec_type@ != "A"@,
    ensures
        listed.filter(|record: CfRecord| record.rec_type@ == "A"@).len() > 0,
        listed.filter(|record: CfRecord| record.rec_type@ == "A"@)[0] == listed[i],
    decreases listed.len(),
{
    reveal(Seq::filter);
    let wanted = |record: CfRecord| record.rec_type@ == "A"@;
    let rest = listed.drop_last();
    if i < rest.len() {
        lemma_first_kept(rest, i);
    } else {
        lemma_none_kept(rest);
    }
}

/// A search gives nothing where no A record is listed.
pub proof fn lemma_none_kept(listed: Seq<CfRecord>)
    requires
        forall|j: int| 0 <= j < listed.len() ==> (#[trigger] listed[j]).rec_type@ != "A"@,
    ensures
        listed.filter(|record: CfRecord| record.rec_type@ == "A"@).len() == 0,
    decreases listed.len(),
{
    reveal(Seq::filter);
    if listed.len() > 0 {
        let rest = listed.drop_last();
        assert forall|j: int| 0 <= j < rest.len() implies (#[trigger] rest[j]).rec_type@ != "A"@ by {
            assert(listed[j].rec_type@ != "A"@);
        }
        lemma_none_kept(rest);
    }
}

/// A search that was not granted is a failure, never a search that found nothing.
pub proof fn lemma_search_fails(reply: CfReply<Vec<CfRecord>>)
    ensures
        list_outcome_view(reply) is Ok <==> (reply matches CfReply::Answer {
            status,
            parsed: Some(envelope),
            ..
        } && !(400 <= status.spec_code() < 600) && envelope.success && envelope.result is Some),
        reply is SendFailed ==> list_outcome_view(reply) == Err::<Seq<CfRecord>, ErrorView>(
            ErrorView::Step("CF GET /dns_records"@),
        ),
        reply matches CfReply::BodyFailed { status } ==> list_outcome_view(reply) == Err::<
            Seq<CfRecord>,
            ErrorView,
        >(
            if 400 <= status.spec_code() < 600 {
                ErrorView::Step("CF list status"@)
            } else {
                ErrorView::Step("parse CF list"@)
            },
        ),
        reply matches CfReply::Answer { status, parsed, .. } ==> {
            &&& 400 <= status.spec_code() < 600 ==> list_outcome_view(reply) == Err::<
                Seq<CfRecord>,
                ErrorView,
            >(ErrorView::Step("CF list status"@))
            &&& !(400 <= status.spec_code() < 600) && parsed is None ==> list_outcome_view(reply)
                == Err::<Seq<CfRecord>, ErrorView>(ErrorView::Step("parse CF list"@))
            &&& !(400 <= status.spec_code() < 600) && parsed is Some && !parsed->0.success
                ==> list_outcome_view(reply) == Err::<Seq<CfRecord>, ErrorView>(
                ErrorView::Refused { op: "CF list"@, reasons: reasons(parsed->0.errors@) },
            )
            &&& !(400 <= status.spec_code() < 600) && parsed is Some && parsed->0.success
                && parsed->0.result is None ==> list_outcome_view(reply) == Err::<
                Seq<CfRecord>,
                ErrorView,
            >(ErrorView::EmptyResult { op: "CF list"@ })
        },
{
}

/// A write is carried out exactly where the API answers with a success, an
/// envelope that says so and the record; the record is the one that it returned.
pub proof fn lemma_write_succeeds(reply: CfReply<CfRecord>)
    ensures
        update_outcome_view(reply) is Ok <==> (reply matches CfReply::Answer {
            status,
            parsed: Some(envelope),
            ..
        } && 200 <= status.spec_code() < 300 && envelope.success && envelope.result is Some),
        create_outcome_view(reply) is Ok <==> update_outcome_view(reply) is Ok,
        create_outcome_view(reply) matches Ok(record) ==> (reply matches CfReply::Answer {
            parsed: Some(envelope),
            ..
        } && envelope.result == Some(record)),
        update_outcome_view(reply) matches Ok(record) ==> (reply matches CfReply::Answer {
            parsed: Some(envelope),
            ..
        } && envelope.result == Some(record)),
{
}

/// A write that was not carried out is told by the step that failed, by the
/// status and the body of the response, or by the reasons of the API.
pub proof fn lemma_write_fails(reply: CfReply<CfRecord>)
    ensures
        reply is SendFailed ==> {
            &&& update_outcome_view(reply) == Err::<CfRecord, ErrorView>(
                ErrorView::Step("CF PUT /dns_records/{id}"@),
            )
            &&& create_outcome_view(reply) == Err::<CfRecord, ErrorView>(
                ErrorView::Step("CF POST /dns_records"@),
            )
        },
        reply is BodyFailed ==> {
            &&& update_outcome_view(reply) == Err::<CfRecord, ErrorView>(
                ErrorView::Step("read PUT body"@),
            )
            &&& create_outcome_view(reply) == Err::<CfRecord, ErrorView>(
                ErrorView::Step("read POST body"@),
            )
        },
        reply matches CfReply::Answer { status, body, parsed } ==> {
            let fine = 200 <= status.spec_code() < 300;
            &&& !fine ==> update_outcome_view(reply) == Err::<CfRecord, ErrorView>(
                ErrorView::WriteStatus { method: Method::Put, status, body: body@ },
            )
            &&& !fine ==> create_outcome_view(reply) == Err::<CfRecord, ErrorView>(
                ErrorView::WriteStatus { method: Method::Post, status, body: body@ },
            )
            &&& fine && parsed is None ==> update_outcome_view(reply) == Err::<CfRecord, ErrorView>(
                ErrorView::Step("parse CF PUT"@),
            )
            &&& fine && parsed is None ==> create_outcome_view(reply) == Err::<CfRecord, ErrorView>(
                ErrorView::Step("parse CF POST"@),
            )
            &&& fine && parsed is Some && !parsed->0.success ==> {
                &&& update_outcome_view(reply) == Err::<CfRecord, ErrorView>(
                    ErrorView::Refused { op: "CF update"@, reasons: reasons(parsed->0.errors@) },
                )
                &&& create_outcome_view(reply) == Err::<CfRecord, ErrorView>(
                    ErrorView::Refused { op: "CF create"@, reasons: reasons(parsed->0.errors@) },
                )
            }
            &&& fine && parsed is Some && parsed->0.success && parsed->0.result is None ==> {
                &&& update_outcome_view(reply) == Err::<CfRecord, ErrorView>(
                    ErrorView::EmptyResult { op: "CF update"@ },
                )
                &&& create_outcome_view(reply) == Err::<CfRecord, ErrorView>(
                    ErrorView::EmptyResult { op: "CF create"@ },
                )
            }
        },
{
}

/// The credentials pass exactly where both answers are successes whose envelopes
/// say so and hold a result. Anything else is an error that tells what was wrong.
pub proof fn lemma_credentials(zone_id: Seq<char>, reply: CfReply<serde_json::Value>)
    ensures
        token_outcome_view(reply) is Ok <==> (reply matches CfReply::Answer {
            status,
            parsed: Some(envelope),
            ..
        } && 200 <= status.spec_code() < 300 && envelope.success && envelope.result is Some),
        zone_outcome_view(zone_id, reply) is Ok <==> token_outcome_view(reply) is Ok,
        zone_outcome_view(zone_id, reply) matches Ok(zone) ==> (reply matches CfReply::Answer {
            parsed: Some(envelope),
            ..
        } && envelope.result == Some(zone)),
        reply is SendFailed ==> {
            &&& token_outcome_view(reply) == Err::<serde_json::Value, ErrorView>(
                ErrorView::Step("CF GET /user/tokens/verify"@),
            )
            &&& zone_outcome_view(zone_id, reply) == Err::<serde_json::Value, ErrorView>(
                ErrorView::Step("CF GET /zones/{id}"@),
            )
        },
        reply matches CfReply::BodyFailed { status } ==> {
            let fine = 200 <= status.spec_code() < 300;
            &&& token_outcome_view(reply) == Err::<serde_json::Value, ErrorView>(
                if fine {
                    ErrorView::Step("parse token verify"@)
                } else {
                    ErrorView::TokenRejected { status, body: Seq::empty() }
                },
            )
            &&& zone_outcome_view(zone_id, reply) == Err::<serde_json::Value, ErrorView>(
                if fine {
                    ErrorView::Step("parse zone lookup"@)
                } else {
                    ErrorView::ZoneInaccessible { zone_id, status, body: Seq::empty() }
                },
            )
        },
        reply matches CfReply::Answer { status, body, parsed } ==> {
            let fine = 200 <= status.spec_code() < 300;
            &&& !fine ==> {
                &&& token_outcome_view(reply) == Err::<serde_json::Value, ErrorView>(
                    ErrorView::TokenRejected { status, body: body@ },
                )
                &&& zone_outcome_view(zone_id, reply) == Err::<serde_json::Value, ErrorView>(
                    ErrorView::ZoneInaccessible { zone_id, status, body: body@ },
                )
            }
            &&& fine && parsed is None ==> {
                &&& token_outcome_view(reply) == Err::<serde_json::Value, ErrorView>(
                    ErrorView::Step("parse token verify"@),
                )
                &&& zone_outcome_view(zone_id, reply) == Err::<serde_json::Value, ErrorView>(
                    ErrorView::Step("parse zone lookup"@),
                )
            }
            &&& fine && parsed is Some && !parsed->0.success ==> {
                &&& token_outcome_view(reply) == Err::<serde_json::Value, ErrorView>(
                    ErrorView::Refused {
                        op: "CF token verify"@,
                        reasons: reasons(parsed->0.errors@),
                    },
                )
                &&& zone_outcome_view(zone_id, reply) == Err::<serde_json::Value, ErrorView>(
                    ErrorView::Refused {
                        op: "CF zone lookup"@,
                        reasons: reasons(parsed->0.errors@),
                    },
                )
            }
            &&& fine && parsed is Some && parsed->0.success && parsed->0.result is None ==> {
                &&& token_outcome_view(reply) == Err::<serde_json::Value, ErrorView>(
                    ErrorView::EmptyResult { op: "CF token verify"@ },
                )
                &&& zone_outcome_view(zone_id, reply) == Err::<serde_json::Value, ErrorView>(
                    ErrorView::EmptyResult { op: "CF zone lookup"@ },
                )
            }
        },
{
}

/// A zone has the name that its description gives.
pub proof fn lemma_zone_name(zone: serde_json::Value)
    ensures
        string_members(zone).contains_key("name"@) ==> zone_name_view(zone)
            == string_members(zone)["name"@],
        !string_members(zone).contains_key("name"@) ==> zone_name_view(zone) == "<unknown>"@,
{
}

/// A name server shows an address exactly where it answered with a list of
/// addresses in which that very address stands.
pub proof fn lemma_shows(answer: NsAnswer, expected_ip: Seq<char>)
    ensures
        shows(answer, expected_ip) <==> (answer matches NsAnswer::Addresses(ips) && texts(
            ips@,
        ).contains(expected_ip)),
{
    if let NsAnswer::Addresses(ips) = answer {
        if shows(answer, expected_ip) {
            let i = choose|i: int| 0 <= i < ips@.len() && #[trigger] ips@[i]@ == expected_ip;
            assert(texts(ips@)[i] == expected_ip);
        }
        if texts(ips@).contains(expected_ip) {
            let i = choose|i: int| 0 <= i < texts(ips@).len() && texts(ips@)[i] == expected_ip;
            assert(ips@[i]@ == expected_ip);
        }
    }
}

/// Of a name server the first address is noted, or why there is none.
pub proof fn lemma_returned(answer: NsAnswer)
    ensures
        answer matches NsAnswer::Addresses(ips) ==> (ips@.len() > 0 ==> returned(answer)
            == ips@[0]@),
        answer matches NsAnswer::Addresses(ips) ==> (ips@.len() == 0 ==> returned(answer)
            == "<no records>"@),
        answer is Failed ==> returned(answer) == "<query failed>"@,
        answer is TimedOut ==> returned(answer) == "<timeout>"@,
{
}

/// One more answer adds its name server to the report: as fresh where the
/// expected address stands in the answer, and as stale where it does not.
/// Without answers the report is empty.
pub proof fn lemma_answer_is_reported(
    ns_list: Seq<Seq<char>>,
    answers: Seq<NsAnswer>,
    answer: NsAnswer,
    expected_ip: Seq<char>,
    checked_at: Timestamp,
)
    ensures
        ({
            let before = report_view(ns_list, answers, expected_ip, checked_at);
            let after = report_view(ns_list, answers.push(answer), expected_ip, checked_at);
            let none = report_view(ns_list, Seq::<NsAnswer>::empty(), expected_ip, checked_at);
            let ns = ns_list[answers.len() as int];
            let shown = match answer {
                NsAnswer::Addresses(ips) => texts(ips@).contains(expected_ip),
                NsAnswer::Failed => false,
                NsAnswer::TimedOut => false,
            };
            &&& none.fresh.len() == 0
            &&& none.stale.len() == 0
            &&& after.checked_at == checked_at
            &&& shown ==> after.fresh == before.fresh.push(ns) && after.stale == before.stale
            &&& !shown ==> after.fresh == before.fresh && after.stale == before.stale.push(
                NsStaleView { ns, returned_ip: returned(answer) },
            )
        }),
{
    assert(answers.push(answer).drop_last() =~= answers);
    lemma_shows(answer, expected_ip);
}

/// A name server whose addresses all differ from the expected one, or that gave
/// none, is reported as stale; one that gave it is reported as fresh.
pub proof fn lemma_stale_is_reported(
    ns_list: Seq<Seq<char>>,
    answers: Seq<NsAnswer>,
    expected_ip: Seq<char>,
    checked_at: Timestamp,
    k: int,
)
    requires
        0 <= k < answers.len() == ns_list.len(),
    ensures
        ({
            let report = report_view(ns_list, answers, expected_ip, checked_at);
            let shown = match answers[k] {
                NsAnswer::Addresses(ips) => texts(ips@).contains(expected_ip),
                NsAnswer::Failed => false,
                NsAnswer::TimedOut => false,
            };
            &&& shown ==> report.fresh.contains(ns_list[k])
            &&& !shown ==> report.stale.contains(
                NsStaleView { ns: ns_list[k], returned_ip: returned(answers[k]) },
            )
            &&& report.fresh.len() + report.stale.len() == ns_list.len()
        }),
{
    lemma_shows(answers[k], expected_ip);
    crate::nameserver::lemma_report_complete(ns_list, answers, expected_ip);
}

/// A report is seen with everything that it holds.
pub proof fn lemma_report_is_seen(r: NsReport, e: NsStaleEntry)
    ensures
        e@.ns == e.ns@,
        e@.returned_ip == e.returned_ip@,
        r@.checked_at == r.checked_at,
        r@.fresh.len() == r.fresh@.len(),
        r@.stale.len() == r.stale@.len(),
        forall|i: int| 0 <= i < r.fresh@.len() ==> #[trigger] r@.fresh[i] == r.fresh@[i]@,
        forall|i: int|
            0 <= i < r.stale@.len() ==> (#[trigger] r@.stale[i]).ns == r.stale@[i].ns@
                && r@.stale[i].returned_ip == r.stale@[i].returned_ip@,
{
}

/// A record is looked up under its name with one dot at the root.
pub proof fn lemma_absolute_name(domain: Seq<char>)
    ensures
        absolute_name(domain.push('.')) == domain.push('.'),
        domain.len() == 0 || domain[domain.len() - 1] != '.' ==> absolute_name(domain)
            == domain.push('.'),
{
    reveal_strlit(".");
    assert(domain + "."@ =~= domain.push('.'));
}

/// A check is given one second more than the questions to its name servers, and
/// to one where it has none, would take one after another.
pub proof fn lemma_overall_timeout(per_query_secs: u64, ns_count: nat)
    ensures
        overall_timeout_view(per_query_secs, 0) == overall_timeout_view(per_query_secs, 1),
        ns_count > 0 && per_query_secs * ns_count < u64::MAX ==> (overall_timeout_view(
            per_query_secs,
            ns_count,
        ) matches Some(secs) && secs - 1 == per_query_secs * ns_count),
        ns_count > 0 && per_query_secs * ns_count >= u64::MAX ==> overall_timeout_view(
            per_query_secs,
            ns_count,
        ) is None,
{
}

/// An entry has its name, and two entries with one name are not distinct.
pub proof fn lemma_names(entries: Seq<(String, String)>, name: Seq<char>, i: int, j: int)
    ensures
        0 <= i < entries.len() ==> has_name(entries, entries[i].0@),
        has_name(entries, name) ==> exists|k: int|
            0 <= k < entries.len() && (#[trigger] entries[k]).0@ == name,
        0 <= i < j < entries.len() && distinct_names(entries) ==> entries[i].0@ != entries[j].0@,
        distinct_names(Seq::<(String, String)>::empty()),
{
    if 0 <= i < j < entries.len() && distinct_names(entries) {
        assert(entries[i].0@ != entries[j].0@);
    }
    if has_name(entries, name) {
        let k = choose|k: int| 0 <= k < entries.len() && #[trigger] entries[k].0@ == name;
        assert(entries[k].0@ == name);
    }
}

} // verus!
