use cloudflare_subdomain_updater::cloudflare::{
    check_token, check_zone, create_outcome, create_request, default_ttl, list_outcome,
    list_request, preflight_failed, token_request, update_outcome, update_request, zone_name,
    CfEnvelope, CfError, CfRecord, CfReply,
};
use cloudflare_subdomain_updater::error::Error;
use cloudflare_subdomain_updater::http::{HttpStatus, Method};

fn status(code: u16) -> HttpStatus {
    HttpStatus::new(code).unwrap()
}

fn record(id: &str, rec_type: &str) -> CfRecord {
    CfRecord {
        id: id.to_string(),
        rec_type: rec_type.to_string(),
        name: "pi.example.org".to_string(),
        content: "1.2.3.4".to_string(),
        ttl: default_ttl(),
        proxied: Some(false),
    }
}

fn granted<T>(result: T) -> CfEnvelope<T> {
    CfEnvelope { success: true, errors: vec![], result: Some(result) }
}

fn refused<T>(errors: &[(u32, &str)]) -> CfEnvelope<T> {
    CfEnvelope {
        success: false,
        errors: errors
            .iter()
            .map(|(code, message)| CfError { code: *code, message: message.to_string() })
            .collect(),
        result: None,
    }
}

fn answer<T>(code: u16, body: &str, parsed: Option<CfEnvelope<T>>) -> CfReply<T> {
    CfReply::Answer { status: status(code), body: body.to_string(), parsed }
}

fn json(text: &str) -> serde_json::Value {
    serde_json::from_str(text).unwrap()
}

#[test]
fn envelope_unpacks_a_result() {
    assert_eq!(granted(7u8).into_result("op").unwrap(), 7);
    let with_errors = CfEnvelope {
        success: true,
        errors: vec![CfError { code: 1, message: "ignored".to_string() }],
        result: Some("x"),
    };
    assert_eq!(with_errors.into_result("op").unwrap(), "x");
}

#[test]
fn envelope_lists_errors() {
    let e = refused::<u8>(&[(9109, "Invalid access token"), (0, "x"), (4294967295, "")])
        .into_result("CF list")
        .unwrap_err();
    assert!(matches!(e, Error::Refused { .. }));
    assert_eq!(
        e.message(),
        "CF list failed: [9109] Invalid access token; [0] x; [4294967295] "
    );
    let e = refused::<u8>(&[]).into_result("CF list").unwrap_err();
    assert_eq!(e.message(), "CF list failed: ");
    let e = refused::<u8>(&[(10, "one")]).into_result("CF update").unwrap_err();
    assert_eq!(e.message(), "CF update failed: [10] one");
}

#[test]
fn envelope_failure_hides_a_result() {
    let envelope = CfEnvelope { success: false, errors: vec![], result: Some(1) };
    assert!(envelope.into_result("op").is_err());
}

#[test]
fn envelope_without_result() {
    let envelope: CfEnvelope<u8> = CfEnvelope { success: true, errors: vec![], result: None };
    let e = envelope.into_result("CF zone lookup").unwrap_err();
    assert!(matches!(e, Error::EmptyResult { .. }));
    assert_eq!(e.message(), "CF zone lookup: empty result");
}

#[test]
fn ttl_is_automatic() {
    assert_eq!(default_ttl(), 1);
}

#[test]
fn requests_are_built() {
    let r = list_request("secret", "zone1", "*.example.org");
    assert_eq!(r.method, Method::Get);
    assert_eq!(r.url, "https://api.cloudflare.com/client/v4/zones/zone1/dns_records");
    assert_eq!(r.token, "secret");
    assert_eq!(
        r.query,
        vec![
            ("type".to_string(), "A".to_string()),
            ("name.exact".to_string(), "*.example.org".to_string())
        ]
    );
    assert!(r.body.is_none());

    let r = update_request("secret", "zone1", "rec9", "pi.example.org", "1.2.3.4", true);
    assert_eq!(r.method, Method::Put);
    assert_eq!(r.url, "https://api.cloudflare.com/client/v4/zones/zone1/dns_records/rec9");
    assert_eq!(r.token, "secret");
    assert!(r.query.is_empty());
    let body = r.body.unwrap();
    assert_eq!(
        (body.rec_type.as_str(), body.name.as_str(), body.content.as_str(), body.ttl, body.proxied),
        ("A", "pi.example.org", "1.2.3.4", 1, true)
    );

    let r = create_request("secret", "zone1", "pi.example.org", "1.2.3.4", false);
    assert_eq!(r.method, Method::Post);
    assert_eq!(r.url, "https://api.cloudflare.com/client/v4/zones/zone1/dns_records");
    assert_eq!(r.token, "secret");
    assert!(r.query.is_empty());
    let body = r.body.unwrap();
    assert_eq!(
        (body.rec_type.as_str(), body.name.as_str(), body.content.as_str(), body.ttl, body.proxied),
        ("A", "pi.example.org", "1.2.3.4", 1, false)
    );

    let r = token_request("secret");
    assert_eq!(r.method, Method::Get);
    assert_eq!(r.url, "https://api.cloudflare.com/client/v4/user/tokens/verify");
    assert_eq!(r.token, "secret");
    assert!(r.query.is_empty());
    assert!(r.body.is_none());
}

#[test]
fn list_keeps_a_records_in_order() {
    let found = vec![record("1", "AAAA"), record("2", "A"), record("3", "CNAME"), record("4", "A")];
    let kept = list_outcome(answer(200, "", Some(granted(found)))).unwrap();
    let ids: Vec<String> = kept.into_iter().map(|r| r.id).collect();
    assert_eq!(ids, vec!["2".to_string(), "4".to_string()]);
    let none = list_outcome(answer(200, "", Some(granted(vec![record("1", "a")])))).unwrap();
    assert!(none.is_empty());
}

#[test]
fn list_failures_are_told() {
    let told = |reply: CfReply<Vec<CfRecord>>| list_outcome(reply).unwrap_err().message();
    assert_eq!(told(CfReply::SendFailed), "CF GET /dns_records");
    assert_eq!(told(CfReply::BodyFailed { status: status(200) }), "parse CF list");
    assert_eq!(told(CfReply::BodyFailed { status: status(500) }), "CF list status");
    assert_eq!(told(answer(403, "", Some(granted(vec![])))), "CF list status");
    assert_eq!(told(answer(599, "", Some(granted(vec![])))), "CF list status");
    assert_eq!(told(answer(200, "<html>", None)), "parse CF list");
    assert_eq!(told(answer(200, "", Some(refused(&[(7, "no")])))), "CF list failed: [7] no");
    // A status that is neither a fault nor a success does not stand in the way.
    assert!(list_outcome(answer(304, "", Some(granted(vec![])))).is_ok());
    assert!(list_outcome(answer(600, "", Some(granted(vec![])))).is_ok());
}

#[test]
fn update_outcomes() {
    assert!(update_outcome(answer(200, "", Some(granted(record("1", "A"))))).is_ok());
    let told = |reply: CfReply<CfRecord>| update_outcome(reply).unwrap_err().message();
    assert_eq!(told(CfReply::SendFailed), "CF PUT /dns_records/{id}");
    assert_eq!(told(CfReply::BodyFailed { status: status(200) }), "read PUT body");
    assert_eq!(told(CfReply::BodyFailed { status: status(500) }), "read PUT body");
    assert_eq!(told(answer(404, "gone", None)), "CF PUT HTTP 404 Not Found: gone");
    assert_eq!(told(answer(200, "{", None)), "parse CF PUT");
    assert_eq!(told(answer(200, "", Some(refused(&[(1, "a"), (2, "b")])))), "CF update failed: [1] a; [2] b");
    let empty = CfEnvelope { success: true, errors: vec![], result: None };
    assert_eq!(told(answer(200, "", Some(empty))), "CF update: empty result");
    let e = update_outcome(answer(304, "b", None)).unwrap_err();
    assert!(matches!(e, Error::WriteStatus { method: Method::Put, .. }));
}

#[test]
fn create_outcomes() {
    assert_eq!(create_outcome(answer(201, "", Some(granted(record("new", "A"))))).unwrap(), "new");
    let told = |reply: CfReply<CfRecord>| create_outcome(reply).unwrap_err().message();
    assert_eq!(told(CfReply::SendFailed), "CF POST /dns_records");
    assert_eq!(told(CfReply::BodyFailed { status: status(200) }), "read POST body");
    assert_eq!(told(answer(429, "slow", None)), "CF POST HTTP 429 Too Many Requests: slow");
    assert_eq!(told(answer(200, "", None)), "parse CF POST");
    assert_eq!(told(answer(200, "", Some(refused(&[])))), "CF create failed: ");
}

#[test]
fn token_check_asks_for_the_zone() {
    let ok = check_token("secret", "zone1", answer(200, "", Some(granted(json("{}"))))).unwrap();
    assert_eq!(ok.method, Method::Get);
    assert_eq!(ok.url, "https://api.cloudflare.com/client/v4/zones/zone1");
    assert_eq!(ok.token, "secret");
    assert!(ok.query.is_empty());
    assert!(ok.body.is_none());
}

#[test]
fn token_check_failures_are_told() {
    let told =
        |reply: CfReply<serde_json::Value>| check_token("secret", "z", reply).unwrap_err().message();
    assert_eq!(told(CfReply::SendFailed), "CF GET /user/tokens/verify");
    assert_eq!(
        told(answer(401, "nope", Some(granted(json("{}"))))),
        "cloudflare_api_token rejected by CF (HTTP 401 Unauthorized): nope. check scope: needs DNS:Edit for the target zone."
    );
    assert_eq!(
        told(CfReply::BodyFailed { status: status(500) }),
        "cloudflare_api_token rejected by CF (HTTP 500 Internal Server Error): . check scope: needs DNS:Edit for the target zone."
    );
    assert_eq!(told(CfReply::BodyFailed { status: status(200) }), "parse token verify");
    assert_eq!(told(answer(200, "?", None)), "parse token verify");
    assert_eq!(told(answer(200, "", Some(refused(&[(1000, "Invalid")])))), "CF token verify failed: [1000] Invalid");
    let e = check_token("secret", "z", answer(403, "", None)).unwrap_err();
    assert!(matches!(e, Error::TokenRejected { .. }));
}

#[test]
fn zone_check_gives_the_name() {
    let zone = json("{\"id\": \"z\", \"name\": \"example.org\"}");
    assert_eq!(check_zone("z", answer(200, "", Some(granted(zone)))).unwrap(), "example.org");
    let zone = json("{\"id\": \"z\"}");
    assert_eq!(check_zone("z", answer(200, "", Some(granted(zone)))).unwrap(), "<unknown>");
}

#[test]
fn zone_names() {
    assert_eq!(zone_name(&json("{\"name\": \"a.b\"}")), "a.b");
    assert_eq!(zone_name(&json("{\"name\": 5}")), "<unknown>");
    assert_eq!(zone_name(&json("[\"name\"]")), "<unknown>");
    assert_eq!(zone_name(&json("\"name\"")), "<unknown>");
    assert_eq!(zone_name(&json("{\"Name\": \"x\"}")), "<unknown>");
}

#[test]
fn zone_check_failures_are_told() {
    let told =
        |reply: CfReply<serde_json::Value>| check_zone("zz", reply).unwrap_err().message();
    assert_eq!(told(CfReply::SendFailed), "CF GET /zones/{id}");
    assert_eq!(
        told(answer(404, "none", None)),
        "cloudflare_zone_id zz not accessible (HTTP 404 Not Found): none"
    );
    assert_eq!(
        told(CfReply::BodyFailed { status: status(403) }),
        "cloudflare_zone_id zz not accessible (HTTP 403 Forbidden): "
    );
    assert_eq!(told(answer(200, "?", None)), "parse zone lookup");
    assert_eq!(told(CfReply::BodyFailed { status: status(200) }), "parse zone lookup");
    let empty = CfEnvelope { success: true, errors: vec![], result: None };
    assert_eq!(told(answer(200, "", Some(empty))), "CF zone lookup: empty result");
    let e = check_zone("zz", answer(500, "", None)).unwrap_err();
    assert!(matches!(e, Error::ZoneInaccessible { .. }));
}

#[test]
fn preflight_failure_names_its_cause() {
    let cause = check_zone("zz", CfReply::SendFailed).unwrap_err();
    let e = preflight_failed(&cause);
    assert!(matches!(e, Error::Preflight { .. }));
    assert_eq!(e.message(), "CF credential pre-flight failed: CF GET /zones/{id}");
}

#[test]
fn statuses() {
    assert!(HttpStatus::new(99).is_none());
    assert!(HttpStatus::new(1000).is_none());
    assert_eq!(status(100).code(), 100);
    assert_eq!(status(999).display(), "999 <unknown status code>");
    assert_eq!(status(200).display(), "200 OK");
    assert!(status(200).is_success() && status(299).is_success());
    assert!(!status(199).is_success() && !status(300).is_success());
    assert!(status(400).is_fault() && status(599).is_fault());
    assert!(!status(399).is_fault() && !status(600).is_fault());
}
