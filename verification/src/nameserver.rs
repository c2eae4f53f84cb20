//! Whether the authoritative name servers show what was published.

use vstd::prelude::*;
use vstd::string::*;
use crate::clock::Timestamp;
use crate::error::{Error, ErrorView};
use crate::text::{same_text, texts};

verus! {

/// A name server that does not show the published address.
#[derive(Debug)]
pub struct NsStaleEntry {
    pub ns: String,
    /// The address it shows instead, or why there is none.
    pub returned_ip: String,
}

/// The mathematical content of an [`NsStaleEntry`].
#[verifier::ext_equal]
pub struct NsStaleView {
    pub ns: Seq<char>,
    pub returned_ip: Seq<char>,
}

impl View for NsStaleEntry {
    type V = NsStaleView;

    open spec fn view(&self) -> NsStaleView {
        NsStaleView { ns: self.ns@, returned_ip: self.returned_ip@ }
    }
}

/// What the name servers showed.
#[derive(Debug)]
pub struct NsReport {
    /// The name servers that show the published address.
    pub fresh: Vec<String>,
    /// Those that do not.
    pub stale: Vec<NsStaleEntry>,
    pub checked_at: Timestamp,
}

/// The mathematical content of an [`NsReport`].
#[verifier::ext_equal]
pub struct NsReportView {
    pub fresh: Seq<Seq<char>>,
    pub stale: Seq<NsStaleView>,
    pub checked_at: Timestamp,
}

impl View for NsReport {
    type V = NsReportView;

    open spec fn view(&self) -> NsReportView {
        NsReportView {
            fresh: texts(self.fresh@),
            stale: self.stale@.map_values(|entry: NsStaleEntry| entry@),
            checked_at: self.checked_at,
        }
    }
}

/// What came of the question to one name server.
#[derive(Debug)]
pub enum NsAnswer {
    /// The addresses it returned, in their order.
    Addresses(Vec<String>),
    /// It could not be asked, or did not answer.
    Failed,
    /// It did not answer in time.
    TimedOut,
}

/// Whether the answer holds the expected address.
pub open spec fn shows(answer: NsAnswer, expected_ip: Seq<char>) -> bool {
    match answer {
        NsAnswer::Addresses(ips) => exists|i: int|
            0 <= i < ips@.len() && #[trigger] ips@[i]@ == expected_ip,
        NsAnswer::Failed => false,
        NsAnswer::TimedOut => false,
    }
}

/// What is noted as the name server's answer.
pub open spec fn returned(answer: NsAnswer) -> Seq<char> {
    match answer {
        NsAnswer::Addresses(ips) => if ips@.len() > 0 {
            ips@[0]@
        } else {
            "<no records>"@
        },
        NsAnswer::Failed => "<query failed>"@,
        NsAnswer::TimedOut => "<timeout>"@,
    }
}

/// Judges the answer of one name server: whether it shows the expected address,
/// and what is noted of it.
pub fn judge(answer: &NsAnswer, expected_ip: &str) -> (r: (bool, String))
    ensures
        r.0 == shows(*answer, expected_ip@),
        r.0 <==> (answer matches NsAnswer::Addresses(ips) && exists|i: int|
            0 <= i < ips@.len() && (#[trigger] ips@[i])@ == expected_ip@),
        r.1@ == returned(*answer),
{
    match answer {
        NsAnswer::Addresses(ips) => {
            let mut found = false;
            let n: usize = ips.len();
            for i in 0..n
                invariant
                    n == ips@.len(),
                    found <==> exists|j: int| 0 <= j < i && #[trigger] ips@[j]@ == expected_ip@,
            {
                if same_text(ips[i].as_str(), expected_ip) {
                    assert(ips@[i as int]@ == expected_ip@);
                    found = true;
                }
            }
            let first = if n > 0 {
                ips[0].clone()
            } else {
                "<no records>".to_owned()
            };
            (found, first)
        },
        NsAnswer::Failed => (false, "<query failed>".to_owned()),
        NsAnswer::TimedOut => (false, "<timeout>".to_owned()),
    }
}

/// The name servers that show the expected address, in their order.
pub open spec fn fresh_names(
    ns_list: Seq<Seq<char>>,
    answers: Seq<NsAnswer>,
    expected_ip: Seq<char>,
) -> Seq<Seq<char>>
    decreases answers.len(),
{
    if answers.len() == 0 {
        Seq::empty()
    } else {
        let k = answers.len() - 1;
        let before = fresh_names(ns_list, answers.drop_last(), expected_ip);
        if shows(answers[k], expected_ip) {
            before.push(ns_list[k])
        } else {
            before
        }
    }
}

/// The name servers that do not, in their order, with what is noted of them.
pub open spec fn stale_entries(
    ns_list: Seq<Seq<char>>,
    answers: Seq<NsAnswer>,
    expected_ip: Seq<char>,
) -> Seq<NsStaleView>
    decreases answers.len(),
{
    if answers.len() == 0 {
        Seq::empty()
    } else {
        let k = answers.len() - 1;
        let before = stale_entries(ns_list, answers.drop_last(), expected_ip);
        if shows(answers[k], expected_ip) {
            before
        } else {
            before.push(NsStaleView { ns: ns_list[k], returned_ip: returned(answers[k]) })
        }
    }
}

/// The report on the answers, given one for each name server.
pub open spec fn report_view(
    ns_list: Seq<Seq<char>>,
    answers: Seq<NsAnswer>,
    expected_ip: Seq<char>,
    checked_at: Timestamp,
) -> NsReportView {
    NsReportView {
        fresh: fresh_names(ns_list, answers, expected_ip),
        stale: stale_entries(ns_list, answers, expected_ip),
        checked_at,
    }
}

/// Draws up the report on the answers, given one for each name server.
pub fn ns_report(
    ns_list: &[String],
    answers: &[NsAnswer],
    expected_ip: &str,
    checked_at: Timestamp,
) -> (r: NsReport)
    requires
        answers@.len() == ns_list@.len(),
    ensures
        r@ == report_view(texts(ns_list@), answers@, expected_ip@, checked_at),
{
    let mut fresh: Vec<String> = Vec::new();
    let mut stale: Vec<NsStaleEntry> = Vec::new();
    let n: usize = answers.len();
    for i in 0..n
        invariant
            n == answers@.len() == ns_list@.len(),
            texts(fresh@) == fresh_names(
                texts(ns_list@),
                answers@.take(i as int),
                expected_ip@,
            ),
            stale@.map_values(|entry: NsStaleEntry| entry@) == stale_entries(
                texts(ns_list@),
                answers@.take(i as int),
                expected_ip@,
            ),
    {
        let ghost fresh_before = texts(fresh@);
        let ghost stale_before = stale@.map_values(|entry: NsStaleEntry| entry@);
        assert(answers@.take(i + 1).drop_last() =~= answers@.take(i as int));
        let (matches, noted) = judge(&answers[i], expected_ip);
        let ns = ns_list[i].clone();
        if matches {
            fresh.push(ns);
            assert(texts(fresh@) =~= fresh_before.push(ns@));
        } else {
            let entry = NsStaleEntry { ns, returned_ip: noted };
            stale.push(entry);
            assert(stale@.map_values(|entry: NsStaleEntry| entry@) =~= stale_before.push(entry@));
        }
    }
    assert(answers@.take(n as int) =~= answers@);
    NsReport { fresh, stale, checked_at }
}

/// Every name server stands in the report, either as fresh or as stale.
pub proof fn lemma_report_complete(
    ns_list: Seq<Seq<char>>,
    answers: Seq<NsAnswer>,
    expected_ip: Seq<char>,
)
    ensures
        fresh_names(ns_list, answers, expected_ip).len() + stale_entries(
            ns_list,
            answers,
            expected_ip,
        ).len() == answers.len(),
        forall|k: int|
            0 <= k < answers.len() && shows(#[trigger] answers[k], expected_ip) ==> fresh_names(
                ns_list,
                answers,
                expected_ip,
            ).contains(ns_list[k]),
        forall|k: int|
            0 <= k < answers.len() && !shows(#[trigger] answers[k], expected_ip) ==> stale_entries(
                ns_list,
                answers,
                expected_ip,
            ).contains(NsStaleView { ns: ns_list[k], returned_ip: returned(answers[k]) }),
    decreases answers.len(),
{
    if answers.len() > 0 {
        let shorter = answers.drop_last();
        let last = answers.len() - 1;
        lemma_report_complete(ns_list, shorter, expected_ip);
        let fresh = fresh_names(ns_list, answers, expected_ip);
        let stale = stale_entries(ns_list, answers, expected_ip);
        let fresh0 = fresh_names(ns_list, shorter, expected_ip);
        let stale0 = stale_entries(ns_list, shorter, expected_ip);
        assert forall|k: int|
            0 <= k < answers.len() && shows(
                #[trigger] answers[k],
                expected_ip,
            ) implies fresh.contains(ns_list[k]) by {
            if k == last {
                assert(fresh[fresh.len() - 1] == ns_list[k]);
            } else {
                assert(shows(shorter[k], expected_ip));
                let p = choose|p: int| 0 <= p < fresh0.len() && fresh0[p] == ns_list[k];
                assert(fresh[p] == ns_list[k]);
            }
        }
        assert forall|k: int|
            0 <= k < answers.len() && !shows(
                #[trigger] answers[k],
                expected_ip,
            ) implies stale.contains(
            NsStaleView { ns: ns_list[k], returned_ip: returned(answers[k]) },
        ) by {
            let entry = NsStaleView { ns: ns_list[k], returned_ip: returned(answers[k]) };
            if k == last {
                assert(stale[stale.len() - 1] == entry);
            } else {
                assert(!shows(shorter[k], expected_ip));
                let p = choose|p: int| 0 <= p < stale0.len() && stale0[p] == entry;
                assert(stale[p] == entry);
            }
        }
    }
}

/// The report shows convergence exactly where every name server shows the
/// expected address.
pub proof fn lemma_converged(ns_list: Seq<Seq<char>>, answers: Seq<NsAnswer>, expected_ip: Seq<char>)
    ensures
        stale_entries(ns_list, answers, expected_ip).len() == 0 <==> forall|k: int|
            0 <= k < answers.len() ==> shows(#[trigger] answers[k], expected_ip),
    decreases answers.len(),
{
    if answers.len() > 0 {
        let shorter = answers.drop_last();
        let last = answers.len() - 1;
        lemma_converged(ns_list, shorter, expected_ip);
        if stale_entries(ns_list, answers, expected_ip).len() == 0 {
            assert forall|k: int| 0 <= k < answers.len() implies shows(
                #[trigger] answers[k],
                expected_ip,
            ) by {
                if k < last {
                    assert(shows(shorter[k], expected_ip));
                }
            }
        } else {
            if forall|k: int|
                0 <= k < answers.len() ==> shows(#[trigger] answers[k], expected_ip) {
                assert(shows(answers[last], expected_ip));
                assert forall|k: int| 0 <= k < shorter.len() implies shows(
                    #[trigger] shorter[k],
                    expected_ip,
                ) by {
                    assert(shorter[k] == answers[k]);
                }
            }
        }
    }
}

/// The name under which a record is looked up, with the dot at the root.
pub open spec fn absolute_name(domain: Seq<char>) -> Seq<char> {
    if domain.len() > 0 && domain.last() == '.' {
        domain
    } else {
        domain + "."@
    }
}

/// The name under which a record is looked up.
pub fn probe_name(domain: &str) -> (r: String)
    ensures
        r@ == absolute_name(domain@),
{
    let n: usize = domain.unicode_len();
    if n > 0 && domain.get_char(n - 1) == '.' {
        domain.to_owned()
    } else {
        domain.to_owned().concat(".")
    }
}

/// The dot at the root is added once.
pub proof fn lemma_absolute_name_stable(domain: Seq<char>)
    ensures
        absolute_name(absolute_name(domain)) == absolute_name(domain),
        absolute_name(domain).last() == '.',
{
    reveal_strlit(".");
}

/// Where a name server's own address is looked up.
pub fn ns_lookup_target(host: &str) -> (r: String)
    ensures
        r@ == host@ + ":53"@,
{
    host.to_owned().concat(":53")
}

/// Whether the lookup of a name server found any address.
pub fn check_ns_addresses(host: &str, found: usize) -> (r: Result<(), Error>)
    ensures
        r is Ok <==> found > 0,
        r matches Err(error) ==> error@ == (ErrorView::NoNameServerAddress { host: host@ }),
{
    if found == 0 {
        Err(Error::NoNameServerAddress { host: host.to_owned() })
    } else {
        Ok(())
    }
}

/// The seconds that a whole check is given: the time for one question, as often
/// as there are name servers and at least once, and one second more. There is no
/// such number where it exceeds what a duration can hold.
pub open spec fn overall_timeout_view(per_query_secs: u64, ns_count: nat) -> Option<u64> {
    let times = if ns_count == 0 {
        1
    } else {
        ns_count
    };
    let secs = per_query_secs * times + 1;
    if secs <= u64::MAX {
        Some(secs as u64)
    } else {
        None
    }
}

/// The seconds that a whole check is given.
pub fn overall_timeout_secs(per_query_secs: u64, ns_count: usize) -> (r: Option<u64>)
    ensures
        r == overall_timeout_view(per_query_secs, ns_count as nat),
{
    let times: u64 = if ns_count == 0 {
        1
    } else {
        ns_count as u64
    };
    match per_query_secs.checked_mul(times) {
        None => None,
        Some(secs) => secs.checked_add(1),
    }
}

} // verus!
