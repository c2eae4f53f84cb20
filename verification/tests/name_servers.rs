use cloudflare_subdomain_updater::clock::Timestamp;
use cloudflare_subdomain_updater::error::Error;
use cloudflare_subdomain_updater::nameserver::{
    check_ns_addresses, judge, ns_lookup_target, ns_report, overall_timeout_secs, probe_name,
    NsAnswer,
};

fn texts(list: &[&str]) -> Vec<String> {
    list.iter().map(|s| s.to_string()).collect()
}

fn now() -> Timestamp {
    Timestamp::new(1_700_000_000, 5).unwrap()
}

#[test]
fn answers_are_judged() {
    let ip = "1.2.3.4";
    assert_eq!(judge(&NsAnswer::Addresses(texts(&[ip])), ip), (true, ip.to_string()));
    assert_eq!(
        judge(&NsAnswer::Addresses(texts(&["9.9.9.9", ip])), ip),
        (true, "9.9.9.9".to_string())
    );
    assert_eq!(
        judge(&NsAnswer::Addresses(texts(&["9.9.9.9", "8.8.8.8"])), ip),
        (false, "9.9.9.9".to_string())
    );
    assert_eq!(judge(&NsAnswer::Addresses(vec![]), ip), (false, "<no records>".to_string()));
    assert_eq!(judge(&NsAnswer::Failed, ip), (false, "<query failed>".to_string()));
    assert_eq!(judge(&NsAnswer::TimedOut, ip), (false, "<timeout>".to_string()));
}

#[test]
fn report_sorts_fresh_from_stale() {
    let servers = texts(&["a", "b", "c", "d"]);
    let answers = vec![
        NsAnswer::TimedOut,
        NsAnswer::Addresses(texts(&["1.2.3.4"])),
        NsAnswer::Addresses(texts(&["5.6.7.8"])),
        NsAnswer::Addresses(texts(&["5.6.7.8", "1.2.3.4"])),
    ];
    let report = ns_report(&servers, &answers, "1.2.3.4", now());
    assert_eq!(report.fresh, texts(&["b", "d"]));
    let stale: Vec<(String, String)> =
        report.stale.into_iter().map(|e| (e.ns, e.returned_ip)).collect();
    assert_eq!(
        stale,
        vec![
            ("a".to_string(), "<timeout>".to_string()),
            ("c".to_string(), "5.6.7.8".to_string())
        ]
    );
    assert_eq!(report.checked_at, now());
}

#[test]
fn report_without_name_servers_is_converged() {
    let report = ns_report(&[], &[], "1.2.3.4", now());
    assert!(report.fresh.is_empty());
    assert!(report.stale.is_empty());
}

#[test]
fn report_converges_exactly_where_all_show_the_address() {
    let servers = texts(&["a", "b"]);
    let both = vec![
        NsAnswer::Addresses(texts(&["1.2.3.4"])),
        NsAnswer::Addresses(texts(&["1.2.3.4"])),
    ];
    let report = ns_report(&servers, &both, "1.2.3.4", now());
    assert_eq!((report.fresh.len(), report.stale.len()), (2, 0));
    let one = vec![NsAnswer::Addresses(texts(&["1.2.3.4"])), NsAnswer::Failed];
    let report = ns_report(&servers, &one, "1.2.3.4", now());
    assert_eq!((report.fresh.len(), report.stale.len()), (1, 1));
}

#[test]
fn probe_names_end_at_the_root() {
    assert_eq!(probe_name("pi.example.org"), "pi.example.org.");
    assert_eq!(probe_name("pi.example.org."), "pi.example.org.");
    assert_eq!(probe_name(""), ".");
    assert_eq!(probe_name("."), ".");
    assert_eq!(probe_name(&probe_name("x")), probe_name("x"));
}

#[test]
fn name_server_lookup() {
    assert_eq!(ns_lookup_target("karl.ns.cloudflare.com"), "karl.ns.cloudflare.com:53");
    assert!(check_ns_addresses("h", 1).is_ok());
    let e = check_ns_addresses("karl", 0).unwrap_err();
    assert!(matches!(e, Error::NoNameServerAddress { .. }));
    assert_eq!(e.message(), "NS karl did not resolve to any address");
}

#[test]
fn overall_timeouts() {
    assert_eq!(overall_timeout_secs(5, 2), Some(11));
    assert_eq!(overall_timeout_secs(5, 0), Some(6));
    assert_eq!(overall_timeout_secs(0, 7), Some(1));
    assert_eq!(overall_timeout_secs(u64::MAX, 1), None);
    assert_eq!(overall_timeout_secs(u64::MAX - 1, 1), Some(u64::MAX));
    assert_eq!(overall_timeout_secs(u64::MAX / 2, 3), None);
    assert_eq!(overall_timeout_secs(7, 4_294_967_296), Some(30_064_771_073));
    assert_eq!(overall_timeout_secs(7, 4_294_967_298), Some(30_064_771_087));
}
