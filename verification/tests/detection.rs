use cloudflare_subdomain_updater::detect::{
    bucketize, collect_race, poll_race, provider_outcome, provider_url, race_entry, race_urls,
    PeerResponse, ProviderEnd, ProviderReply, RaceStep, ValidationBuckets,
};
use cloudflare_subdomain_updater::error::Error;
use cloudflare_subdomain_updater::http::HttpStatus;

fn texts(list: &[&str]) -> Vec<String> {
    list.iter().map(|s| s.to_string()).collect()
}

fn peer(provider: &str, ip: Option<&str>) -> PeerResponse {
    PeerResponse { provider: provider.to_string(), ip: ip.map(|s| s.to_string()) }
}

fn status(code: u16) -> HttpStatus {
    HttpStatus::new(code).unwrap()
}

#[test]
fn buckets_count_each_report_once() {
    let peers = vec![
        peer("a", Some("1.1.1.1")),
        peer("b", Some("2.2.2.2")),
        peer("c", Some("3.3.3.3")),
        peer("d", None),
        peer("e", Some("1.1.1.1")),
    ];
    let b = bucketize(&Some("2.2.2.2".to_string()), "1.1.1.1", &peers);
    assert_eq!(
        b,
        ValidationBuckets { confirm: 2, outdated: 1, conflict: 1, unreachable: 1 }
    );
}

#[test]
fn buckets_prefer_confirmation_over_outdated() {
    let peers = vec![peer("a", Some("1.1.1.1")), peer("b", Some("1.1.1.1"))];
    let b = bucketize(&Some("1.1.1.1".to_string()), "1.1.1.1", &peers);
    assert_eq!(
        b,
        ValidationBuckets { confirm: 2, outdated: 0, conflict: 0, unreachable: 0 }
    );
}

#[test]
fn buckets_without_a_published_address() {
    let peers = vec![peer("a", Some("9.9.9.9")), peer("b", None)];
    let b = bucketize(&None, "1.1.1.1", &peers);
    assert_eq!(
        b,
        ValidationBuckets { confirm: 0, outdated: 0, conflict: 1, unreachable: 1 }
    );
    assert_eq!(
        bucketize(&None, "1.1.1.1", &[]),
        ValidationBuckets { confirm: 0, outdated: 0, conflict: 0, unreachable: 0 }
    );
}

#[test]
fn provider_urls() {
    assert_eq!(provider_url("ifconfig.co"), "https://ifconfig.co");
    assert_eq!(provider_url("checkip.amazonaws.com"), "https://checkip.amazonaws.com");
    assert_eq!(provider_url("http://10.0.0.1/ip"), "http://10.0.0.1/ip");
    assert_eq!(provider_url("https://ip.example/"), "https://ip.example/");
    assert_eq!(provider_url("example.org/ip"), "https://example.org/ip");
    assert_eq!(provider_url("http:/x"), "https://http:/x");
    assert_eq!(provider_url(""), "https://");
}

#[test]
fn provider_url_is_stable() {
    for p in ["ident.me", "http://a", "https://b", ""] {
        assert_eq!(provider_url(&provider_url(p)), provider_url(p));
    }
}

#[test]
fn provider_answers_are_trimmed() {
    let reply = ProviderReply::Answer { status: status(200), body: " \t203.0.113.7\r\n".to_string() };
    assert_eq!(provider_outcome("https://ident.me", reply).unwrap(), "203.0.113.7");
    let reply = ProviderReply::Answer {
        status: status(299),
        body: "\u{3000}\u{2003}\u{85}\u{a0}1 2\u{2029}\u{205f}\u{1680}".to_string(),
    };
    assert_eq!(provider_outcome("u", reply).unwrap(), "1 2");
    let reply = ProviderReply::Answer { status: status(204), body: " \n ".to_string() };
    assert_eq!(provider_outcome("u", reply).unwrap(), "");
    let reply =
        ProviderReply::Answer { status: status(200), body: "\u{200b}x\u{180e}".to_string() };
    assert_eq!(provider_outcome("u", reply).unwrap(), "\u{200b}x\u{180e}");
}

#[test]
fn provider_failures_are_told() {
    let url = "https://ident.me";
    let e = provider_outcome(url, ProviderReply::SendFailed).unwrap_err();
    assert_eq!(e.message(), "GET https://ident.me");
    let e = provider_outcome(url, ProviderReply::BodyFailed).unwrap_err();
    assert_eq!(e.message(), "body https://ident.me");
    let reply = ProviderReply::Answer { status: status(503), body: "1.2.3.4".to_string() };
    let e = provider_outcome(url, reply).unwrap_err();
    assert!(matches!(e, Error::ProviderStatus { .. }));
    assert_eq!(e.message(), "https://ident.me -> HTTP 503 Service Unavailable");
    let reply = ProviderReply::Answer { status: status(300), body: "1.2.3.4".to_string() };
    assert!(provider_outcome(url, reply).is_err());
    let reply = ProviderReply::Answer { status: status(199), body: "1.2.3.4".to_string() };
    assert!(provider_outcome(url, reply).is_err());
}

#[test]
fn only_an_address_enters_the_race() {
    assert_eq!(race_entry(ProviderEnd::Replied(Ok("1.2.3.4".to_string()))), Some("1.2.3.4".to_string()));
    assert_eq!(race_entry(ProviderEnd::Replied(Err(Error::NoProviderResponded))), None);
    assert_eq!(race_entry(ProviderEnd::TimedOut), None);
    assert_eq!(race_entry(ProviderEnd::Aborted), None);
}

#[test]
fn race_sleeps_until_one_is_done_or_time_is_up() {
    assert_eq!(poll_race(&[false, false], false), RaceStep::Sleep { millis: 25 });
    assert_eq!(poll_race(&[false, true], false), RaceStep::Collect);
    assert_eq!(poll_race(&[false, false], true), RaceStep::Collect);
    assert_eq!(poll_race(&[], false), RaceStep::Sleep { millis: 25 });
}

#[test]
fn race_asks_every_provider() {
    let urls = race_urls(&texts(&["ident.me", "http://x"])).unwrap();
    assert_eq!(urls, texts(&["https://ident.me", "http://x"]));
    let e = race_urls(&[]).unwrap_err();
    assert!(matches!(e, Error::NoIpProviders));
    assert_eq!(e.message(), "no ip providers configured");
}

#[test]
fn first_provider_in_order_sets_the_address() {
    let providers = texts(&["a", "b", "c"]);
    let answers = vec![None, Some("2.2.2.2".to_string()), Some("3.3.3.3".to_string())];
    let (ip, peers) = collect_race(&providers, answers).unwrap();
    assert_eq!(ip, "2.2.2.2");
    let seen: Vec<(String, Option<String>)> =
        peers.into_iter().map(|p| (p.provider, p.ip)).collect();
    assert_eq!(
        seen,
        vec![
            ("a".to_string(), None),
            ("b".to_string(), Some("2.2.2.2".to_string())),
            ("c".to_string(), Some("3.3.3.3".to_string())),
        ]
    );
}

#[test]
fn race_without_answers_fails() {
    let e = collect_race(&texts(&["a", "b"]), vec![None, None]).unwrap_err();
    assert!(matches!(e, Error::NoProviderResponded));
    assert_eq!(e.message(), "no ip provider responded within race deadline");
    let e = collect_race(&[], vec![]).unwrap_err();
    assert!(matches!(e, Error::NoIpProviders));
}
