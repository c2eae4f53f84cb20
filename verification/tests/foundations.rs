use cloudflare_subdomain_updater::clock::{Timestamp, MAX_SECS, MIN_SECS};
use cloudflare_subdomain_updater::config::{
    config_path, default_authoritative_ns, default_force_republish_secs, default_health_addr,
    default_heartbeat_interval_secs, default_ip_providers, default_max_ns_inconsistency_cycles,
    default_ns_check_timeout_secs, default_provider_timeout_secs, default_publish_rate_limit_secs,
    default_race_deadline_secs, default_state_file, CLIENT_TIMEOUT_SECS, USER_AGENT,
};
use cloudflare_subdomain_updater::health::health_response;
use cloudflare_subdomain_updater::record_ids::RecordIds;
use cloudflare_subdomain_updater::state::State;
use cloudflare_subdomain_updater::text::{copy_texts, decimal_string, has_prefix, same_text, trim};

fn at(secs: i64, nanos: u32) -> Timestamp {
    Timestamp::new(secs, nanos).unwrap()
}

#[test]
fn defaults() {
    assert_eq!(default_heartbeat_interval_secs(), 60);
    assert_eq!(default_publish_rate_limit_secs(), 30);
    assert_eq!(
        default_ip_providers(),
        vec!["ifconfig.co", "api.ipify.org", "ident.me", "icanhazip.com", "checkip.amazonaws.com"]
    );
    assert_eq!(default_provider_timeout_secs(), 3);
    assert_eq!(default_race_deadline_secs(), 5);
    assert_eq!(default_state_file(), "/data/state.json");
    assert_eq!(default_health_addr(), "0.0.0.0:8080");
    assert_eq!(default_force_republish_secs(), 21600);
    assert_eq!(
        default_authoritative_ns(),
        vec!["karl.ns.cloudflare.com", "vera.ns.cloudflare.com"]
    );
    assert_eq!(default_ns_check_timeout_secs(), 5);
    assert_eq!(default_max_ns_inconsistency_cycles(), 10);
    assert_eq!(CLIENT_TIMEOUT_SECS, 15);
    assert_eq!(USER_AGENT, "cloudflare-subdomain-updater/0.2");
}

#[test]
fn configuration_path() {
    assert_eq!(config_path(None), "/data/config.json");
    assert_eq!(config_path(Some("/etc/updater.json".to_string())), "/etc/updater.json");
    assert_eq!(config_path(Some(String::new())), "");
}

#[test]
fn health_response_states_the_length_of_its_body() {
    let response = health_response();
    let (head, body) = response.split_once("\r\n\r\n").unwrap();
    assert!(head.starts_with("HTTP/1.1 200 OK\r\n"));
    assert!(head.contains("Content-Type: text/plain"));
    assert!(head.contains(&format!("Content-Length: {}", body.len())));
    assert!(head.contains("Connection: close"));
    assert_eq!(body, "ok");
}

#[test]
fn decimal_notation() {
    for n in [0u32, 1, 9, 10, 11, 99, 100, 10101, 4294967295] {
        assert_eq!(decimal_string(n), n.to_string());
    }
}

#[test]
fn text_comparisons() {
    assert!(same_text("a\u{e9}", "a\u{e9}"));
    assert!(!same_text("a", "A"));
    assert!(has_prefix("https://x", "https://"));
    assert!(has_prefix("x", ""));
    assert!(!has_prefix("http", "https"));
    assert!(!has_prefix("xhttps://", "https://"));
    assert_eq!(copy_texts(&vec!["a".to_string(), String::new()]), vec!["a", ""]);
}

#[test]
fn timestamps_lie_in_the_calendar() {
    assert_eq!(at(0, 0).secs(), 0);
    assert_eq!(at(5, 999_999_999).nanos(), 999_999_999);
    assert!(Timestamp::new(MIN_SECS, 0).is_some());
    assert!(Timestamp::new(MIN_SECS - 1, 0).is_none());
    assert!(Timestamp::new(MAX_SECS, 999_999_999).is_some());
    assert!(Timestamp::new(MAX_SECS + 1, 0).is_none());
    assert!(Timestamp::new(0, 1_000_000_000).is_none());
    assert!(Timestamp::new(59, 1_000_000_000).is_some());
    assert!(Timestamp::new(-1, 1_999_999_999).is_some());
    assert!(Timestamp::new(-60, 1_000_000_000).is_none());
    assert!(Timestamp::new(59, 2_000_000_000).is_none());
}

#[test]
fn timestamps_agree_with_the_calendar_of_chrono() {
    for secs in [MIN_SECS - 1, MIN_SECS, -61, -60, -1, 0, 59, 60, 119, MAX_SECS, MAX_SECS + 1] {
        for nanos in [0u32, 1, 999_999_999, 1_000_000_000, 1_999_999_999, 2_000_000_000] {
            assert_eq!(
                Timestamp::new(secs, nanos).is_some(),
                chrono::DateTime::from_timestamp(secs, nanos).is_some(),
                "{secs} {nanos}"
            );
        }
    }
}

#[test]
fn elapsed_seconds_are_rounded_toward_zero() {
    assert_eq!(at(100, 0).seconds_since(&at(70, 0)), 30);
    assert_eq!(at(100, 0).seconds_since(&at(70, 1)), 29);
    assert_eq!(at(100, 999_999_999).seconds_since(&at(70, 0)), 30);
    assert_eq!(at(70, 0).seconds_since(&at(100, 0)), -30);
    assert_eq!(at(70, 1).seconds_since(&at(100, 0)), -29);
    assert_eq!(at(70, 1).seconds_since(&at(71, 0)), 0);
    assert_eq!(at(0, 0).seconds_since(&at(-1, 0)), 1);
    assert_eq!(at(MAX_SECS, 0).seconds_since(&at(MIN_SECS, 0)), MAX_SECS - MIN_SECS);
}

#[test]
fn elapsed_seconds_count_a_leap_second() {
    // 2015-06-30 23:59:60.5 and one hour after midnight.
    let leap = at(1_435_708_799, 1_500_000_000);
    assert_eq!(at(1_435_712_400, 0).seconds_since(&leap), 3599);
    assert_eq!(leap.seconds_since(&at(1_435_705_200, 0)), 3600);
}

#[test]
fn elapsed_seconds_follow_one_formula() {
    let minute = 1_435_708_740i64;
    let mut points: Vec<(i64, u32)> = Vec::new();
    for offset in [-86_400i64, -60, -1, 0, 1, 58, 59, 60, 119, 3600, 86_399, 86_400] {
        for nanos in [0u32, 1, 500_000_000, 999_999_999, 1_000_000_000, 1_500_000_000, 1_999_999_999] {
            if Timestamp::new(minute + offset, nanos).is_some() {
                points.push((minute + offset, nanos));
            }
        }
    }
    for (now_secs, now_nanos) in &points {
        for (then_secs, then_nanos) in &points {
            let (a, b) = (now_secs.rem_euclid(86_400), then_secs.rem_euclid(86_400));
            let leap = if a > b && *then_nanos >= 1_000_000_000 {
                1
            } else if a < b && *now_nanos >= 1_000_000_000 {
                -1
            } else {
                0
            };
            let nanos = (now_secs - then_secs + leap) * 1_000_000_000 + i64::from(*now_nanos)
                - i64::from(*then_nanos);
            assert_eq!(
                at(*now_secs, *now_nanos).seconds_since(&at(*then_secs, *then_nanos)),
                nanos / 1_000_000_000
            );
        }
    }
}

#[test]
fn elapsed_seconds_grow_with_time() {
    let start = at(1_700_000_000, 400_000_000);
    let mut last = i64::MIN;
    for (secs, nanos) in [(-2, 0), (-1, 900_000_000), (0, 0), (0, 400_000_000), (1, 399_999_999), (1, 400_000_000), (90_000, 0)] {
        let elapsed = at(1_700_000_000 + secs, nanos).seconds_since(&start);
        assert!(elapsed >= last);
        last = elapsed;
    }
    assert_eq!(last, 89_999);
}

#[test]
fn trimming_takes_white_space_off_both_ends() {
    assert_eq!(trim(" \t1.2.3.4\r\n"), "1.2.3.4");
    assert_eq!(trim("a b"), "a b");
    assert_eq!(trim(" \u{3000} "), "");
    assert_eq!(trim(""), "");
    for c in '\u{0}'..=char::MAX {
        let text = format!("{c}x{c}y{c}{c}");
        assert_eq!(trim(&text), text.trim());
        assert_eq!(trim(trim(&text)), trim(&text));
    }
}

#[test]
fn record_ids_are_a_map() {
    let mut ids = RecordIds::new();
    assert_eq!(ids.len(), 0);
    assert_eq!(ids.get("a"), None);
    ids.insert("a".to_string(), "1".to_string());
    ids.insert("b".to_string(), "2".to_string());
    ids.insert("a".to_string(), "3".to_string());
    assert_eq!(ids.len(), 2);
    assert_eq!(ids.get("a"), Some("3".to_string()));
    assert_eq!(ids.get("b"), Some("2".to_string()));
    ids.remove("c");
    assert_eq!(ids.len(), 2);
    ids.remove("a");
    assert_eq!(ids.get("a"), None);
    assert_eq!(ids.get("b"), Some("2".to_string()));
    assert_eq!(ids.entries(), &vec![("b".to_string(), "2".to_string())]);
}

#[test]
fn state_starts_empty_or_where_it_was_kept() {
    let fresh = State::resume(None);
    assert_eq!(fresh.managed_record_ids.len(), 0);
    assert!(fresh.last_ip.is_none());
    assert!(fresh.last_success.is_none());
    assert!(fresh.last_publish_ts.is_none());
    assert!(fresh.ns_convergence_report.is_none());
    assert_eq!(fresh.ns_inconsistency_cycles, 0);
    let mut kept = State::default();
    kept.last_ip = Some("1.2.3.4".to_string());
    kept.ns_inconsistency_cycles = 3;
    let resumed = State::resume(Some(kept));
    assert_eq!(resumed.last_ip, Some("1.2.3.4".to_string()));
    assert_eq!(resumed.ns_inconsistency_cycles, 3);
}
