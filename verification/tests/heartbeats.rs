use cloudflare_subdomain_updater::clock::Timestamp;
use cloudflare_subdomain_updater::cloudflare::{CfEnvelope, CfRecord, CfReply, CfRequest};
use cloudflare_subdomain_updater::config::Config;
use cloudflare_subdomain_updater::error::Error;
use cloudflare_subdomain_updater::heartbeat::{
    detect, force_due, ip_changed, on_created, on_listed, on_ns_checked, on_updated, plan_publish,
    retry_due, search_due, Next, NsCheck, Outcome,
};
use cloudflare_subdomain_updater::http::{HttpStatus, Method};
use cloudflare_subdomain_updater::nameserver::NsAnswer;
use cloudflare_subdomain_updater::state::State;

fn texts(list: &[&str]) -> Vec<String> {
    list.iter().map(|s| s.to_string()).collect()
}

fn at(secs: i64) -> Timestamp {
    Timestamp::new(secs, 0).unwrap()
}

fn config(records: &[&str]) -> Config {
    Config {
        cloudflare_api_token: "token".to_string(),
        cloudflare_zone_id: "zone1".to_string(),
        cloudflare_zone_name: "example.org".to_string(),
        managed_records: texts(records),
        proxied: false,
        heartbeat_interval_secs: 60,
        publish_rate_limit_secs: 30,
        ip_providers: texts(&["a", "b"]),
        provider_timeout_secs: 3,
        race_deadline_secs: 5,
        state_file: "/data/state.json".to_string(),
        health_addr: "0.0.0.0:8080".to_string(),
        force_republish_secs: 21600,
        authoritative_ns: texts(&["ns1", "ns2"]),
        ns_check_timeout_secs: 5,
        max_ns_inconsistency_cycles: 2,
    }
}

fn record(id: &str) -> CfRecord {
    CfRecord {
        id: id.to_string(),
        rec_type: "A".to_string(),
        name: "n".to_string(),
        content: "c".to_string(),
        ttl: 1,
        proxied: None,
    }
}

fn granted<T>(result: T) -> CfReply<T> {
    CfReply::Answer {
        status: HttpStatus::new(200).unwrap(),
        body: String::new(),
        parsed: Some(CfEnvelope { success: true, errors: vec![], result: Some(result) }),
    }
}

/// What the world answers.
struct World {
    list: fn(&str) -> CfReply<Vec<CfRecord>>,
    create: fn(&str) -> CfReply<CfRecord>,
    update: fn(&str) -> CfReply<CfRecord>,
    servers: fn(&NsCheck) -> Vec<NsAnswer>,
}

fn working() -> World {
    World {
        list: |fqdn| granted(vec![record(&format!("id-{fqdn}"))]),
        create: |fqdn| granted(record(&format!("new-{fqdn}"))),
        update: |_| granted(record("x")),
        servers: |check| {
            check
                .ns_list
                .iter()
                .map(|_| NsAnswer::Addresses(vec![check.expected_ip.clone()]))
                .collect()
        },
    }
}

/// Holds a heartbeat's dialogue with the world and writes down what was asked.
fn pulse(cfg: &Config, state: &mut State, world: &World, ip: &str, now: i64) -> (Outcome, Vec<String>) {
    let mut asked: Vec<String> = Vec::new();
    let note = |asked: &mut Vec<String>, request: &CfRequest, fqdn: &str| {
        let verb = match request.method {
            Method::Get => "GET",
            Method::Put => "PUT",
            Method::Post => "POST",
        };
        assert_eq!(request.token, "token");
        asked.push(format!("{verb} {fqdn}"));
    };
    let mut next = plan_publish(cfg, state, ip.to_string(), at(now), at(now));
    loop {
        next = match next {
            Next::Done(outcome) => return (outcome, asked),
            Next::List { pass, request } => {
                let fqdn = cfg.managed_records[pass.index].clone();
                note(&mut asked, &request, &fqdn);
                on_listed(cfg, state, pass, (world.list)(&fqdn), at(now + 1), at(now + 2)).next
            }
            Next::Create { pass, request } => {
                let fqdn = cfg.managed_records[pass.index].clone();
                note(&mut asked, &request, &fqdn);
                on_created(cfg, state, pass, (world.create)(&fqdn), at(now + 1), at(now + 2)).next
            }
            Next::Update { pass, record_id, request } => {
                let fqdn = cfg.managed_records[pass.index].clone();
                assert!(request.url.ends_with(&format!("/{record_id}")));
                assert_eq!(request.body.as_ref().unwrap().content, ip);
                assert_eq!(request.body.as_ref().unwrap().name, fqdn);
                note(&mut asked, &request, &fqdn);
                let reply = (world.update)(&fqdn);
                on_updated(cfg, state, pass, record_id, reply, at(now + 1), at(now + 2)).next
            }
            Next::CheckNs(check) => {
                asked.push(format!("NS {}", check.probe));
                let answers = (world.servers)(&check);
                Next::Done(on_ns_checked(cfg, state, &check, &answers, at(now + 3)))
            }
        };
    }
}

#[test]
fn detection_counts_the_providers() {
    let cfg = config(&["pi"]);
    let mut state = State::default();
    state.last_ip = Some("2.2.2.2".to_string());
    let d = detect(&cfg, &state, vec![Some("1.1.1.1".to_string()), Some("2.2.2.2".to_string())])
        .unwrap();
    assert_eq!(d.trigger_ip, "1.1.1.1");
    assert_eq!(d.peers.len(), 2);
    assert_eq!(d.peers[1].provider, "b");
    assert_eq!((d.buckets.confirm, d.buckets.outdated), (1, 1));
    assert!(matches!(detect(&cfg, &state, vec![None, None]), Err(Error::NoProviderResponded)));
}

#[test]
fn chosen_address_is_confirmed() {
    let cfg = config(&["pi"]);
    let state = State::default();
    let d = detect(&cfg, &state, vec![None, Some("7.7.7.7".to_string())]).unwrap();
    assert!(d.buckets.confirm >= 1);
    assert_eq!(d.buckets.unreachable, 1);
}

#[test]
fn configuration_needs_a_record() {
    assert!(config(&["pi"]).check().is_ok());
    let e = config(&[]).check().unwrap_err();
    assert!(matches!(e, Error::NoManagedRecords));
    assert_eq!(e.message(), "managed_records must contain at least one FQDN");
}

#[test]
fn first_heartbeat_finds_and_updates_records() {
    let cfg = config(&["pi.example.org", "*.example.org"]);
    let mut state = State::default();
    let (outcome, asked) = pulse(&cfg, &mut state, &working(), "1.2.3.4", 1000);
    assert_eq!(outcome, Outcome::Converged { name_servers: 2 });
    assert_eq!(
        asked,
        texts(&[
            "GET pi.example.org",
            "PUT pi.example.org",
            "GET *.example.org",
            "PUT *.example.org",
            "NS pi.example.org."
        ])
    );
    assert_eq!(state.last_ip, Some("1.2.3.4".to_string()));
    assert_eq!(state.last_publish_ts, Some(at(1001)));
    assert_eq!(state.last_success, Some(at(1002)));
    assert_eq!(state.managed_record_ids.get("pi.example.org"), Some("id-pi.example.org".to_string()));
    assert_eq!(state.managed_record_ids.get("*.example.org"), Some("id-*.example.org".to_string()));
    let report = state.ns_convergence_report.as_ref().unwrap();
    assert_eq!(report.fresh, texts(&["ns1", "ns2"]));
    assert_eq!(report.checked_at, at(1003));
    assert_eq!(state.ns_inconsistency_cycles, 0);
}

#[test]
fn missing_record_is_created() {
    let cfg = config(&["pi"]);
    let mut state = State::default();
    let world = World { list: |_| granted(vec![]), ..working() };
    let (outcome, asked) = pulse(&cfg, &mut state, &world, "1.2.3.4", 1000);
    assert_eq!(outcome, Outcome::Converged { name_servers: 2 });
    assert_eq!(asked, texts(&["GET pi", "POST pi", "NS pi."]));
    assert_eq!(state.managed_record_ids.get("pi"), Some("new-pi".to_string()));
}

#[test]
fn known_record_is_updated_without_a_search() {
    let cfg = config(&["pi"]);
    let mut state = State::default();
    state.managed_record_ids.insert("pi".to_string(), "known".to_string());
    let (_, asked) = pulse(&cfg, &mut state, &working(), "1.2.3.4", 1000);
    assert_eq!(asked, texts(&["PUT pi", "NS pi."]));
    assert_eq!(state.managed_record_ids.get("pi"), Some("known".to_string()));
}

#[test]
fn failed_record_is_forgotten_and_searched_again() {
    let cfg = config(&["pi", "nas"]);
    let mut state = State::default();
    state.managed_record_ids.insert("pi".to_string(), "old".to_string());
    state.managed_record_ids.insert("other".to_string(), "kept".to_string());
    let world = World {
        update: |fqdn| if fqdn == "pi" { CfReply::SendFailed } else { granted(record("x")) },
        ..working()
    };
    let (outcome, asked) = pulse(&cfg, &mut state, &world, "1.2.3.4", 1000);
    assert_eq!(outcome, Outcome::Converged { name_servers: 2 });
    assert_eq!(asked, texts(&["PUT pi", "GET nas", "PUT nas", "NS pi."]));
    assert_eq!(state.managed_record_ids.get("pi"), None);
    assert_eq!(state.managed_record_ids.get("nas"), Some("id-nas".to_string()));
    assert_eq!(state.managed_record_ids.get("other"), Some("kept".to_string()));
    let (_, asked) = pulse(&cfg, &mut state, &working(), "5.6.7.8", 2000);
    assert_eq!(asked, texts(&["GET pi", "PUT pi", "PUT nas", "NS pi."]));
}

#[test]
fn record_ends_are_reported() {
    let cfg = config(&["pi"]);
    let mut state = State::default();
    let next = plan_publish(&cfg, &mut state, "1.2.3.4".to_string(), at(10), at(10));
    let pass = match next {
        Next::List { pass, .. } => pass,
        _ => panic!("a list was due"),
    };
    let p = on_listed(&cfg, &mut state, pass, CfReply::SendFailed, at(11), at(12));
    let end = p.finished.unwrap();
    assert_eq!(end.fqdn, "pi");
    assert_eq!(end.result.unwrap_err().message(), "CF GET /dns_records");
    assert!(matches!(p.next, Next::Done(Outcome::NothingPublished)));

    state.managed_record_ids.insert("pi".to_string(), "7".to_string());
    let next = plan_publish(&cfg, &mut state, "1.2.3.4".to_string(), at(10), at(10));
    let (pass, record_id) = match next {
        Next::Update { pass, record_id, .. } => (pass, record_id),
        _ => panic!("an update was due"),
    };
    let p = on_updated(&cfg, &mut state, pass, record_id, granted(record("x")), at(11), at(12));
    let end = p.finished.unwrap();
    assert_eq!(end.fqdn, "pi");
    assert_eq!(end.result.unwrap(), "7");
}

#[test]
fn failed_pass_changes_only_the_known_ids() {
    let cfg = config(&["pi", "nas"]);
    let mut state = State::default();
    state.last_ip = Some("9.9.9.9".to_string());
    state.last_success = Some(at(5));
    state.managed_record_ids.insert("nas".to_string(), "n".to_string());
    let world = World {
        list: |_| CfReply::BodyFailed { status: HttpStatus::new(200).unwrap() },
        update: |_| CfReply::SendFailed,
        ..working()
    };
    let (outcome, asked) = pulse(&cfg, &mut state, &world, "1.2.3.4", 1000);
    assert_eq!(outcome, Outcome::NothingPublished);
    assert_eq!(asked, texts(&["GET pi", "PUT nas"]));
    assert_eq!(state.last_ip, Some("9.9.9.9".to_string()));
    assert_eq!(state.last_success, Some(at(5)));
    assert_eq!(state.last_publish_ts, None);
    assert!(state.ns_convergence_report.is_none());
    assert_eq!(state.managed_record_ids.len(), 0);
    // The next heartbeat tries again.
    let (outcome, _) = pulse(&cfg, &mut state, &working(), "1.2.3.4", 1060);
    assert_eq!(outcome, Outcome::Converged { name_servers: 2 });
}

#[test]
fn unchanged_address_asks_nothing() {
    let cfg = config(&["pi"]);
    let mut state = State::default();
    pulse(&cfg, &mut state, &working(), "1.2.3.4", 1000);
    let (outcome, asked) = pulse(&cfg, &mut state, &working(), "1.2.3.4", 1060);
    assert_eq!(outcome, Outcome::Unchanged);
    assert!(asked.is_empty());
    assert_eq!(state.last_ip, Some("1.2.3.4".to_string()));
    assert_eq!(state.last_publish_ts, Some(at(1001)));
}

#[test]
fn age_forces_a_publication() {
    let cfg = config(&["pi"]);
    let mut state = State::default();
    pulse(&cfg, &mut state, &working(), "1.2.3.4", 1000);
    let (outcome, _) = pulse(&cfg, &mut state, &working(), "1.2.3.4", 1002 + 21599);
    assert_eq!(outcome, Outcome::Unchanged);
    let (outcome, _) = pulse(&cfg, &mut state, &working(), "1.2.3.4", 1002 + 21600);
    assert_eq!(outcome, Outcome::Converged { name_servers: 2 });
}

#[test]
fn forcing_can_be_switched_off() {
    let mut cfg = config(&["pi"]);
    cfg.force_republish_secs = 0;
    let mut state = State::default();
    state.last_ip = Some("1.2.3.4".to_string());
    state.managed_record_ids.insert("pi".to_string(), "known".to_string());
    assert!(!force_due(&cfg, &state, at(1_000_000_000)));
    let (outcome, _) = pulse(&cfg, &mut state, &working(), "1.2.3.4", 1_000_000_000);
    assert_eq!(outcome, Outcome::Unchanged);
    cfg.force_republish_secs = 1;
    assert!(force_due(&cfg, &state, at(0)));
}

#[test]
fn huge_interval_does_not_pass() {
    let mut cfg = config(&["pi"]);
    let mut state = State::default();
    state.last_success = Some(at(100));
    for interval in [i64::MAX as u64, i64::MAX as u64 + 1, u64::MAX] {
        cfg.force_republish_secs = interval;
        assert!(!force_due(&cfg, &state, at(98)));
        assert!(!force_due(&cfg, &state, at(99)));
        assert!(!force_due(&cfg, &state, at(1_000_000_000)));
    }
}

#[test]
fn huge_rate_limit_holds_back() {
    let mut cfg = config(&["pi"]);
    for limit in [i64::MAX as u64, i64::MAX as u64 + 1, u64::MAX] {
        cfg.publish_rate_limit_secs = limit;
        let mut state = State::default();
        state.last_ip = Some("9.9.9.9".to_string());
        state.last_publish_ts = Some(at(990));
        let (outcome, asked) = pulse(&cfg, &mut state, &working(), "1.2.3.4", 1000);
        assert_eq!(outcome, Outcome::RateLimited { elapsed_secs: 10 });
        assert!(asked.is_empty());
        assert_eq!(state.last_ip, Some("9.9.9.9".to_string()));
    }
}

#[test]
fn address_changes_are_seen() {
    let mut state = State::default();
    assert!(ip_changed(&state, "1.2.3.4"));
    state.last_ip = Some("1.2.3.4".to_string());
    assert!(!ip_changed(&state, "1.2.3.4"));
    assert!(ip_changed(&state, "1.2.3.5"));
}

#[test]
fn rate_limit_defers_a_change() {
    let cfg = config(&["pi"]);
    let mut state = State::default();
    pulse(&cfg, &mut state, &working(), "1.2.3.4", 1000);
    let (outcome, asked) = pulse(&cfg, &mut state, &working(), "5.6.7.8", 1030);
    assert_eq!(outcome, Outcome::RateLimited { elapsed_secs: 29 });
    assert!(asked.is_empty());
    assert_eq!(state.last_ip, Some("1.2.3.4".to_string()));
    let (outcome, _) = pulse(&cfg, &mut state, &working(), "5.6.7.8", 1031);
    assert_eq!(outcome, Outcome::Converged { name_servers: 2 });
    assert_eq!(state.last_ip, Some("5.6.7.8".to_string()));
}

#[test]
fn empty_address_is_published_without_a_check() {
    let cfg = config(&["pi"]);
    let mut state = State::default();
    let (outcome, asked) = pulse(&cfg, &mut state, &working(), "", 1000);
    assert_eq!(outcome, Outcome::Published);
    assert_eq!(asked, texts(&["GET pi", "PUT pi"]));
    assert_eq!(state.last_ip, Some(String::new()));
    assert_eq!(state.last_publish_ts, Some(at(1001)));
}

#[test]
fn stale_name_server_lifts_the_rate_limit() {
    let cfg = config(&["pi"]);
    let mut state = State::default();
    let world = World {
        servers: |_| vec![NsAnswer::Failed, NsAnswer::Addresses(vec!["9.9.9.9".to_string()])],
        ..working()
    };
    let (outcome, _) = pulse(&cfg, &mut state, &world, "1.2.3.4", 1000);
    assert_eq!(outcome, Outcome::RateLimitCleared { cycle: 1 });
    assert_eq!(state.last_publish_ts, None);
    assert_eq!(state.last_success, Some(at(1002)));
    assert_eq!(state.ns_inconsistency_cycles, 1);
    let report = state.ns_convergence_report.as_ref().unwrap();
    assert!(report.fresh.is_empty());
    assert_eq!(report.stale[0].returned_ip, "<query failed>");
    assert_eq!(report.stale[1].returned_ip, "9.9.9.9");
    // A change goes through at once.
    let (outcome, _) = pulse(&cfg, &mut state, &world, "5.6.7.8", 1004);
    assert_eq!(outcome, Outcome::RateLimitCleared { cycle: 2 });
    // The third time in a row is one too many.
    let (outcome, _) = pulse(&cfg, &mut state, &world, "1.2.3.4", 1008);
    assert_eq!(outcome, Outcome::PartialAccepted { cycle: 3 });
    assert_eq!(state.last_publish_ts, Some(at(1009)));
    let (outcome, _) = pulse(&cfg, &mut state, &world, "5.6.7.8", 1012);
    assert_eq!(outcome, Outcome::RateLimited { elapsed_secs: 3 });
    // Convergence starts the count again.
    let (outcome, _) = pulse(&cfg, &mut state, &working(), "5.6.7.8", 1100);
    assert_eq!(outcome, Outcome::Converged { name_servers: 2 });
    assert_eq!(state.ns_inconsistency_cycles, 0);
}

#[test]
fn stale_name_server_makes_the_next_heartbeat_publish_again() {
    let cfg = config(&["pi", "nas"]);
    let mut state = State::default();
    let world = World { servers: |_| vec![NsAnswer::TimedOut, NsAnswer::TimedOut], ..working() };
    assert!(!retry_due(&cfg, &state));
    pulse(&cfg, &mut state, &world, "1.2.3.4", 1000);
    assert!(retry_due(&cfg, &state));
    let (outcome, asked) = pulse(&cfg, &mut state, &world, "1.2.3.4", 1004);
    assert_eq!(outcome, Outcome::RateLimitCleared { cycle: 2 });
    assert_eq!(asked, texts(&["PUT pi", "PUT nas", "NS pi."]));
    // The third time in a row is accepted, and nothing is published any more.
    let (outcome, _) = pulse(&cfg, &mut state, &world, "1.2.3.4", 1060);
    assert_eq!(outcome, Outcome::PartialAccepted { cycle: 3 });
    assert!(!retry_due(&cfg, &state));
    let (outcome, asked) = pulse(&cfg, &mut state, &world, "1.2.3.4", 1120);
    assert_eq!(outcome, Outcome::Unchanged);
    assert!(asked.is_empty());
}

#[test]
fn convergence_ends_the_retries() {
    let cfg = config(&["pi"]);
    let mut state = State::default();
    let world = World { servers: |_| vec![NsAnswer::TimedOut, NsAnswer::TimedOut], ..working() };
    pulse(&cfg, &mut state, &world, "1.2.3.4", 1000);
    let (outcome, _) = pulse(&cfg, &mut state, &working(), "1.2.3.4", 1060);
    assert_eq!(outcome, Outcome::Converged { name_servers: 2 });
    let (outcome, _) = pulse(&cfg, &mut state, &working(), "1.2.3.4", 1120);
    assert_eq!(outcome, Outcome::Unchanged);
}

#[test]
fn failed_record_is_searched_in_the_next_heartbeat() {
    let mut cfg = config(&["a", "b"]);
    cfg.force_republish_secs = 0;
    let mut state = State::default();
    let world = World {
        update: |fqdn| if fqdn == "b" { CfReply::SendFailed } else { granted(record("x")) },
        ..working()
    };
    let (outcome, _) = pulse(&cfg, &mut state, &world, "1.2.3.4", 1000);
    assert_eq!(outcome, Outcome::Converged { name_servers: 2 });
    assert!(search_due(&cfg, &state));
    // The rate limit holds.
    let (outcome, _) = pulse(&cfg, &mut state, &working(), "1.2.3.4", 1010);
    assert_eq!(outcome, Outcome::RateLimited { elapsed_secs: 9 });
    let (outcome, asked) = pulse(&cfg, &mut state, &working(), "1.2.3.4", 1060);
    assert_eq!(outcome, Outcome::Converged { name_servers: 2 });
    assert_eq!(asked, texts(&["PUT a", "GET b", "PUT b", "NS a."]));
    assert_eq!(state.managed_record_ids.get("b"), Some("id-b".to_string()));
    assert!(!search_due(&cfg, &state));
    let (outcome, _) = pulse(&cfg, &mut state, &working(), "1.2.3.4", 1120);
    assert_eq!(outcome, Outcome::Unchanged);
}

#[test]
fn heartbeat_asks_at_most_twice_for_each_record() {
    let cfg = config(&["a", "b", "c"]);
    let mut state = State::default();
    let (_, asked) = pulse(&cfg, &mut state, &working(), "1.2.3.4", 1000);
    assert_eq!(asked.len(), 2 * 3 + 1);
}

#[test]
fn check_is_built_from_the_configuration() {
    let cfg = config(&["pi"]);
    let mut state = State::default();
    state.managed_record_ids.insert("pi".to_string(), "7".to_string());
    let next = plan_publish(&cfg, &mut state, "1.2.3.4".to_string(), at(10), at(10));
    let (pass, record_id) = match next {
        Next::Update { pass, record_id, .. } => (pass, record_id),
        _ => panic!("an update was due"),
    };
    let p = on_updated(&cfg, &mut state, pass, record_id, granted(record("x")), at(11), at(12));
    match p.next {
        Next::CheckNs(check) => {
            assert_eq!(check.ns_list, texts(&["ns1", "ns2"]));
            assert_eq!(check.probe, "pi.");
            assert_eq!(check.expected_ip, "1.2.3.4");
            assert_eq!(check.per_query_secs, 5);
            assert_eq!(check.overall_secs, Some(11));
        }
        _ => panic!("a check was due"),
    }
}

#[test]
fn no_managed_records_publish_nothing() {
    let cfg = config(&[]);
    let mut state = State::default();
    let (outcome, asked) = pulse(&cfg, &mut state, &working(), "1.2.3.4", 1000);
    assert_eq!(outcome, Outcome::NothingPublished);
    assert!(asked.is_empty());
    assert_eq!(state.last_ip, None);
}
