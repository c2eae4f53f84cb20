//! Finding the public address: providers are asked at once, the first one in
//! the configured order that reports an address sets it, and the others are
//! counted by how they agree.

use vstd::prelude::*;
use vstd::string::*;
use crate::error::{Error, ErrorView};
use crate::http::HttpStatus;
use crate::text::{has_prefix, opt_text, same_text, trim, trimmed};

verus! {

/// The kind of answer that a provider is asked for.
pub const PROVIDER_ACCEPT: &'static str = "text/plain";

/// How long the race sleeps between two looks at the providers, in milliseconds.
pub const POLL_INTERVAL_MILLIS: u64 = 25;

/// What a provider reported.
#[derive(Debug)]
pub struct PeerResponse {
    pub provider: String,
    pub ip: Option<String>,
}

/// How the providers agree with the address that was chosen.
#[derive(Clone, Copy, Debug, PartialEq, Eq, Structural)]
pub struct ValidationBuckets {
    /// Reported the chosen address.
    pub confirm: u32,
    /// Reported the address that was published last.
    pub outdated: u32,
    /// Reported some other address.
    pub conflict: u32,
    /// Reported nothing.
    pub unreachable: u32,
}

/// Where a provider's report is counted.
pub enum Bucket {
    Confirm,
    Outdated,
    Conflict,
    Unreachable,
}

/// Where a report is counted, given the address published last and the chosen one.
pub open spec fn bucket_of(
    last_ip: Option<Seq<char>>,
    trigger_ip: Seq<char>,
    peer: PeerResponse,
) -> Bucket {
    match opt_text(peer.ip) {
        None => Bucket::Unreachable,
        Some(ip) => if ip == trigger_ip {
            Bucket::Confirm
        } else if last_ip == Some(ip) {
            Bucket::Outdated
        } else {
            Bucket::Conflict
        },
    }
}

/// How many reports are counted in `bucket`.
pub open spec fn bucket_count(
    last_ip: Option<Seq<char>>,
    trigger_ip: Seq<char>,
    peers: Seq<PeerResponse>,
    bucket: Bucket,
) -> nat {
    peers.filter(|peer: PeerResponse| bucket_of(last_ip, trigger_ip, peer) == bucket).len()
}

/// The count after one more report.
pub(crate) proof fn lemma_bucket_push(
    last_ip: Option<Seq<char>>,
    trigger_ip: Seq<char>,
    peers: Seq<PeerResponse>,
    peer: PeerResponse,
    bucket: Bucket,
)
    ensures
        bucket_count(last_ip, trigger_ip, peers.push(peer), bucket) == bucket_count(
            last_ip,
            trigger_ip,
            peers,
            bucket,
        ) + (if bucket_of(last_ip, trigger_ip, peer) == bucket {
            1nat
        } else {
            0nat
        }),
{
    peers.lemma_filter_push(
        peer,
        |peer: PeerResponse| bucket_of(last_ip, trigger_ip, peer) == bucket,
    );
}

proof fn lemma_bucket_none(
    last_ip: Option<Seq<char>>,
    trigger_ip: Seq<char>,
    peers: Seq<PeerResponse>,
    bucket: Bucket,
)
    requires
        peers.len() == 0,
    ensures
        bucket_count(last_ip, trigger_ip, peers, bucket) == 0,
{
    reveal(Seq::filter);
}

/// Every report is counted once.
pub proof fn lemma_buckets_partition(
    last_ip: Option<Seq<char>>,
    trigger_ip: Seq<char>,
    peers: Seq<PeerResponse>,
)
    ensures
        bucket_count(last_ip, trigger_ip, peers, Bucket::Confirm) + bucket_count(
            last_ip,
            trigger_ip,
            peers,
            Bucket::Outdated,
        ) + bucket_count(last_ip, trigger_ip, peers, Bucket::Conflict) + bucket_count(
            last_ip,
            trigger_ip,
            peers,
            Bucket::Unreachable,
        ) == peers.len(),
    decreases peers.len(),
{
    if peers.len() == 0 {
        lemma_bucket_none(last_ip, trigger_ip, peers, Bucket::Confirm);
        lemma_bucket_none(last_ip, trigger_ip, peers, Bucket::Outdated);
        lemma_bucket_none(last_ip, trigger_ip, peers, Bucket::Conflict);
        lemma_bucket_none(last_ip, trigger_ip, peers, Bucket::Unreachable);
    } else {
        let rest = peers.drop_last();
        assert(rest.push(peers.last()) =~= peers);
        lemma_buckets_partition(last_ip, trigger_ip, rest);
        lemma_bucket_push(last_ip, trigger_ip, rest, peers.last(), Bucket::Confirm);
        lemma_bucket_push(last_ip, trigger_ip, rest, peers.last(), Bucket::Outdated);
        lemma_bucket_push(last_ip, trigger_ip, rest, peers.last(), Bucket::Conflict);
        lemma_bucket_push(last_ip, trigger_ip, rest, peers.last(), Bucket::Unreachable);
    }
}

/// Counts how the providers agree with the chosen address.
pub fn bucketize(last_ip: &Option<String>, trigger_ip: &str, peers: &[PeerResponse]) -> (b:
    ValidationBuckets)
    requires
        peers@.len() <= u32::MAX,
    ensures
        b.confirm == bucket_count(opt_text(*last_ip), trigger_ip@, peers@, Bucket::Confirm),
        b.outdated == bucket_count(opt_text(*last_ip), trigger_ip@, peers@, Bucket::Outdated),
        b.conflict == bucket_count(opt_text(*last_ip), trigger_ip@, peers@, Bucket::Conflict),
        b.unreachable == bucket_count(opt_text(*last_ip), trigger_ip@, peers@, Bucket::Unreachable),
        b.confirm + b.outdated + b.conflict + b.unreachable == peers@.len(),
{
    let mut b = ValidationBuckets { confirm: 0, outdated: 0, conflict: 0, unreachable: 0 };
    let ghost last = opt_text(*last_ip);
    proof {
        let none = peers@.take(0);
        lemma_bucket_none(last, trigger_ip@, none, Bucket::Confirm);
        lemma_bucket_none(last, trigger_ip@, none, Bucket::Outdated);
        lemma_bucket_none(last, trigger_ip@, none, Bucket::Conflict);
        lemma_bucket_none(last, trigger_ip@, none, Bucket::Unreachable);
    }
    let n: usize = peers.len();
    for i in 0..n
        invariant
            n == peers@.len() <= u32::MAX,
            last == opt_text(*last_ip),
            b.confirm == bucket_count(last, trigger_ip@, peers@.take(i as int), Bucket::Confirm),
            b.outdated == bucket_count(last, trigger_ip@, peers@.take(i as int), Bucket::Outdated),
            b.conflict == bucket_count(last, trigger_ip@, peers@.take(i as int), Bucket::Conflict),
            b.unreachable == bucket_count(
                last,
                trigger_ip@,
                peers@.take(i as int),
                Bucket::Unreachable,
            ),
            b.confirm + b.outdated + b.conflict + b.unreachable == i,
    {
        let peer = &peers[i];
        proof {
            let seen_so_far = peers@.take(i as int);
            assert(seen_so_far.push(*peer) =~= peers@.take(i + 1));
            lemma_bucket_push(last, trigger_ip@, seen_so_far, *peer, Bucket::Confirm);
            lemma_bucket_push(last, trigger_ip@, seen_so_far, *peer, Bucket::Outdated);
            lemma_bucket_push(last, trigger_ip@, seen_so_far, *peer, Bucket::Conflict);
            lemma_bucket_push(last, trigger_ip@, seen_so_far, *peer, Bucket::Unreachable);
        }
        match &peer.ip {
            Some(ip) => {
                let known = match last_ip {
                    Some(published) => same_text(published.as_str(), ip.as_str()),
                    None => false,
                };
                if same_text(ip.as_str(), trigger_ip) {
                    b.confirm = b.confirm + 1;
                } else if known {
                    b.outdated = b.outdated + 1;
                } else {
                    b.conflict = b.conflict + 1;
                }
            },
            None => {
                b.unreachable = b.unreachable + 1;
            },
        }
    }
    assert(peers@.take(n as int) =~= peers@);
    b
}

/// The address at which a provider is asked: a provider that names no scheme is
/// asked over HTTPS.
pub open spec fn provider_url_view(provider: Seq<char>) -> Seq<char> {
    if "http://"@.is_prefix_of(provider) || "https://"@.is_prefix_of(provider) {
        provider
    } else {
        "https://"@ + provider
    }
}

/// The address at which a provider is asked.
pub fn provider_url(provider: &str) -> (r: String)
    ensures
        r@ == provider_url_view(provider@),
{
    if has_prefix(provider, "http://") || has_prefix(provider, "https://") {
        provider.to_owned()
    } else {
        "https://".to_owned().concat(provider)
    }
}

/// An address at which a provider is asked is itself a provider that is asked
/// there.
pub proof fn lemma_provider_url_stable(provider: Seq<char>)
    ensures
        provider_url_view(provider_url_view(provider)) == provider_url_view(provider),
{
    let scheme = "https://"@;
    assert((scheme + provider).subrange(0, scheme.len() as int) =~= scheme);
}

/// What came back from a provider.
#[derive(Debug)]
pub enum ProviderReply {
    /// The request could not be sent, or no response came.
    SendFailed,
    /// A response came, and its body could not be read.
    BodyFailed,
    /// A response came.
    Answer { status: HttpStatus, body: String },
}

/// What a provider's reply means: the body without the white space around it,
/// where the status is a success.
pub open spec fn provider_outcome_view(url: Seq<char>, reply: ProviderReply) -> Result<
    Seq<char>,
    ErrorView,
> {
    match reply {
        ProviderReply::SendFailed => Err(ErrorView::Step("GET "@ + url)),
        ProviderReply::BodyFailed => Err(ErrorView::Step("body "@ + url)),
        ProviderReply::Answer { status, body } => if !status.success() {
            Err(ErrorView::ProviderStatus { url, status })
        } else {
            Ok(trimmed(body@))
        },
    }
}

/// The address that a provider, asked at `url`, reported.
pub fn provider_outcome(url: &str, reply: ProviderReply) -> (r: Result<String, Error>)
    ensures
        match provider_outcome_view(url@, reply) {
            Ok(ip) => r is Ok && r->Ok_0@ == ip,
            Err(error) => r is Err && r->Err_0@ == error,
        },
        r is Ok <==> (reply matches ProviderReply::Answer { status, .. } && 200
            <= status.spec_code() < 300),
        r matches Ok(ip) ==> (reply matches ProviderReply::Answer { body, .. } && ip@ == trimmed(
            body@,
        )),
{
    match reply {
        ProviderReply::SendFailed => Err(Error::Step("GET ".to_owned().concat(url))),
        ProviderReply::BodyFailed => Err(Error::Step("body ".to_owned().concat(url))),
        ProviderReply::Answer { status, body } => if !status.is_success() {
            Err(Error::ProviderStatus { url: url.to_owned(), status })
        } else {
            Ok(trim(body.as_str()).to_owned())
        },
    }
}

/// How the question to one provider ended.
#[derive(Debug)]
pub enum ProviderEnd {
    /// The provider's reply was dealt with in time.
    Replied(Result<String, Error>),
    /// The time for one provider ran out.
    TimedOut,
    /// The task that asked did not come to its end.
    Aborted,
}

/// What a provider counts for in the race: the address it reported, if any.
pub fn race_entry(end: ProviderEnd) -> (r: Option<String>)
    ensures
        r == (match end {
            ProviderEnd::Replied(Ok(ip)) => Some(ip),
            _ => None,
        }),
{
    match end {
        ProviderEnd::Replied(Ok(ip)) => Some(ip),
        ProviderEnd::Replied(Err(_)) => None,
        ProviderEnd::TimedOut => None,
        ProviderEnd::Aborted => None,
    }
}

/// What the race does next.
#[derive(Clone, Copy, Debug, PartialEq, Eq, Structural)]
pub enum RaceStep {
    /// Wait, and look again.
    Sleep { millis: u64 },
    /// Await the providers, in their order.
    Collect,
}

/// Looks at the providers once: the race goes on to collect as soon as any of
/// them is done or the deadline has passed.
pub fn poll_race(finished: &[bool], deadline_passed: bool) -> (r: RaceStep)
    ensures
        r == (if finished@.contains(true) || deadline_passed {
            RaceStep::Collect
        } else {
            RaceStep::Sleep { millis: POLL_INTERVAL_MILLIS }
        }),
{
    let n: usize = finished.len();
    for i in 0..n
        invariant
            n == finished@.len(),
            forall|j: int| 0 <= j < i ==> !finished@[j],
    {
        if finished[i] {
            assert(finished@[i as int]);
            return RaceStep::Collect;
        }
    }
    if deadline_passed {
        RaceStep::Collect
    } else {
        RaceStep::Sleep { millis: POLL_INTERVAL_MILLIS }
    }
}

/// The addresses at which the providers are asked, in their order.
pub fn race_urls(providers: &[String]) -> (r: Result<Vec<String>, Error>)
    ensures
        providers@.len() == 0 ==> r is Err && r->Err_0@ == ErrorView::NoIpProviders,
        providers@.len() > 0 ==> {
            &&& r is Ok
            &&& r->Ok_0@.len() == providers@.len()
            &&& forall|i: int|
                0 <= i < providers@.len() ==> (#[trigger] r->Ok_0@[i])@ == provider_url_view(
                    providers@[i]@,
                )
        },
{
    let n: usize = providers.len();
    if n == 0 {
        return Err(Error::NoIpProviders);
    }
    let mut urls: Vec<String> = Vec::new();
    for i in 0..n
        invariant
            n == providers@.len(),
            urls@.len() == i,
            forall|j: int|
                0 <= j < i ==> (#[trigger] urls@[j])@ == provider_url_view(providers@[j]@),
    {
        urls.push(provider_url(providers[i].as_str()));
    }
    Ok(urls)
}

/// The first address among the providers' answers, in their order.
pub open spec fn first_answer(answers: Seq<Option<String>>) -> Option<Seq<char>>
    decreases answers.len(),
{
    if answers.len() == 0 {
        None
    } else {
        match opt_text(answers.first()) {
            Some(ip) => Some(ip),
            None => first_answer(answers.drop_first()),
        }
    }
}

/// The chosen address, and what every provider reported.
pub fn collect_race(providers: &[String], answers: Vec<Option<String>>) -> (r: Result<
    (String, Vec<PeerResponse>),
    Error,
>)
    requires
        providers@.len() == answers@.len(),
    ensures
        match first_answer(answers@) {
            Some(ip) => {
                &&& r is Ok
                &&& r->Ok_0.0@ == ip
                &&& r->Ok_0.1@.len() == providers@.len()
                &&& forall|i: int|
                    0 <= i < providers@.len() ==> {
                        &&& (#[trigger] r->Ok_0.1@[i]).provider@ == providers@[i]@
                        &&& r->Ok_0.1@[i].ip == answers@[i]
                    }
            },
            None => r is Err && r->Err_0@ == if providers@.len() == 0 {
                ErrorView::NoIpProviders
            } else {
                ErrorView::NoProviderResponded
            },
        },
{
    if providers.len() == 0 {
        return Err(Error::NoIpProviders);
    }
    let ghost all = answers@;
    let mut trigger: Option<String> = None;
    let mut responses: Vec<PeerResponse> = Vec::new();
    assert(all.skip(0) =~= all);
    for answer in it: answers
        invariant
            it.seq() == all,
            providers@.len() == all.len(),
            responses@.len() == it.index(),
            forall|j: int|
                0 <= j < it.index() ==> {
                    &&& (#[trigger] responses@[j]).provider@ == providers@[j]@
                    &&& responses@[j].ip == all[j]
                },
            match trigger {
                Some(ip) => first_answer(all) == Some(ip@),
                None => first_answer(all) == first_answer(all.skip(it.index() as int)),
            },
    {
        let ghost i = it.index() as int;
        let place: usize = responses.len();
        assert(all.skip(i).first() == all[i]);
        assert(all.skip(i).drop_first() =~= all.skip(i + 1));
        if trigger.is_none() {
            if let Some(ip) = &answer {
                trigger = Some(ip.clone());
            }
        }
        responses.push(PeerResponse { provider: providers[place].clone(), ip: answer });
    }
    match trigger {
        Some(ip) => Ok((ip, responses)),
        None => {
            assert(all.skip(all.len() as int).len() == 0);
            Err(Error::NoProviderResponded)
        },
    }
}

/// The chosen address is the first that a provider reported: some provider
/// reported it, and none before that one reported any.
pub proof fn lemma_first_answer(answers: Seq<Option<String>>)
    ensures
        first_answer(answers) is None <==> forall|i: int|
            0 <= i < answers.len() ==> #[trigger] answers[i] is None,
        first_answer(answers) matches Some(ip) ==> exists|i: int|
            {
                &&& 0 <= i < answers.len()
                &&& opt_text(#[trigger] answers[i]) == Some(ip)
                &&& forall|j: int| 0 <= j < i ==> #[trigger] answers[j] is None
            },
    decreases answers.len(),
{
    if answers.len() > 0 {
        let rest = answers.drop_first();
        lemma_first_answer(rest);
        match opt_text(answers.first()) {
            Some(ip) => {
                assert(answers[0] is Some);
            },
            None => {
                if first_answer(rest) is None {
                    assert forall|i: int| 0 <= i < answers.len() implies #[trigger] answers[i] is None by {
                        if i > 0 {
                            assert(rest[i - 1] is None);
                        }
                    }
                } else {
                    let ip = first_answer(rest)->0;
                    let i = choose|i: int|
                        {
                            &&& 0 <= i < rest.len()
                            &&& opt_text(#[trigger] rest[i]) == Some(ip)
                            &&& forall|j: int| 0 <= j < i ==> #[trigger] rest[j] is None
                        };
                    assert(opt_text(answers[i + 1]) == Some(ip));
                    assert forall|j: int| 0 <= j < i + 1 implies #[trigger] answers[j] is None by {
                        if j > 0 {
                            assert(rest[j - 1] is None);
                        }
                    }
                }
            },
        }
    }
}

/// The chosen address is always confirmed by at least one provider: the one
/// that set it.
pub proof fn lemma_trigger_confirmed(
    last_ip: Option<Seq<char>>,
    answers: Seq<Option<String>>,
    peers: Seq<PeerResponse>,
)
    requires
        first_answer(answers) is Some,
        peers.len() == answers.len(),
        forall|i: int| 0 <= i < peers.len() ==> (#[trigger] peers[i]).ip == answers[i],
    ensures
        bucket_count(last_ip, first_answer(answers)->0, peers, Bucket::Confirm) >= 1,
{
    let ip = first_answer(answers)->0;
    lemma_first_answer(answers);
    let i = choose|i: int| 0 <= i < answers.len() && opt_text(#[trigger] answers[i]) == Some(ip);
    assert(peers[i].ip == answers[i]);
    let confirms = |peer: PeerResponse| bucket_of(last_ip, ip, peer) == Bucket::Confirm;
    peers.lemma_filter_contains(confirms, i);
}

} // verus!
