//! The Cloudflare API: what is asked, and what an answer means.

use vstd::prelude::*;
use vstd::string::*;
use crate::error::{seen, Error, ErrorView};
use crate::http::{HttpStatus, Method};
use crate::json::{string_member, string_members};
use crate::text::{decimal, decimal_string, same_text};

verus! {

/// Where the API is found.
pub const CF_API_BASE: &'static str = "https://api.cloudflare.com/client/v4";

/// An error that the API reports.
#[derive(Debug)]
pub struct CfError {
    pub code: u32,
    pub message: String,
}

impl CfError {
    /// The error as it is listed: its code in brackets, and its message.
    pub open spec fn listed(self) -> Seq<char> {
        "["@ + decimal(self.code as nat) + "] "@ + self.message@
    }
}

/// The listed errors, separated by semicolons.
pub open spec fn reasons(errors: Seq<CfError>) -> Seq<char>
    decreases errors.len(),
{
    if errors.len() == 0 {
        Seq::empty()
    } else if errors.len() == 1 {
        errors[0].listed()
    } else {
        reasons(errors.drop_last()) + "; "@ + errors.last().listed()
    }
}

/// The envelope in which the API wraps every answer.
#[derive(Debug)]
pub struct CfEnvelope<T> {
    pub success: bool,
    pub errors: Vec<CfError>,
    pub result: Option<T>,
}

impl<T> CfEnvelope<T> {
    /// What the envelope says of the operation `op`.
    pub open spec fn outcome(self, op: Seq<char>) -> Result<T, ErrorView> {
        if !self.success {
            Err(ErrorView::Refused { op, reasons: reasons(self.errors@) })
        } else {
            match self.result {
                Some(value) => Ok(value),
                None => Err(ErrorView::EmptyResult { op }),
            }
        }
    }

    /// Unpacks the result of the operation `op`, or tells why there is none.
    pub fn into_result(self, op: &str) -> (r: Result<T, Error>)
        ensures
            seen(r) == self.outcome(op@),
    {
        if !self.success {
            let mut listed = String::new();
            let n: usize = self.errors.len();
            for i in 0..n
                invariant
                    n == self.errors@.len(),
                    listed@ == reasons(self.errors@.take(i as int)),
            {
                let ghost upto = self.errors@.take(i + 1);
                proof {
                    assert(upto.drop_last() =~= self.errors@.take(i as int));
                }
                let error = &self.errors[i];
                if i > 0 {
                    listed.append("; ");
                } else {
                    assert(self.errors@.take(0) =~= Seq::<CfError>::empty());
                }
                let entry = "[".to_owned().concat(decimal_string(error.code).as_str()).concat(
                    "] ",
                ).concat(error.message.as_str());
                listed.append(entry.as_str());
                assert(listed@ =~= reasons(upto));
            }
            assert(self.errors@.take(n as int) =~= self.errors@);
            return Err(Error::Refused { op: op.to_owned(), reasons: listed });
        }
        match self.result {
            Some(value) => Ok(value),
            None => Err(Error::EmptyResult { op: op.to_owned() }),
        }
    }
}

/// A DNS record as the API lists it.
#[derive(Debug)]
pub struct CfRecord {
    pub id: String,
    pub rec_type: String,
    pub name: String,
    pub content: String,
    pub ttl: u32,
    pub proxied: Option<bool>,
}

/// The lifetime of a record that the API does not tell: chosen by Cloudflare.
pub fn default_ttl() -> (r: u32)
    ensures
        r == 1,
{
    1
}

/// A DNS record as it is written.
#[derive(Debug)]
pub struct CfRecordWrite {
    pub rec_type: String,
    pub name: String,
    pub content: String,
    pub ttl: u32,
    pub proxied: bool,
}

/// The mathematical content of a [`CfRecordWrite`].
#[verifier::ext_equal]
pub struct CfRecordWriteView {
    pub rec_type: Seq<char>,
    pub name: Seq<char>,
    pub content: Seq<char>,
    pub ttl: u32,
    pub proxied: bool,
}

impl View for CfRecordWrite {
    type V = CfRecordWriteView;

    open spec fn view(&self) -> CfRecordWriteView {
        CfRecordWriteView {
            rec_type: self.rec_type@,
            name: self.name@,
            content: self.content@,
            ttl: self.ttl,
            proxied: self.proxied,
        }
    }
}

/// A request to the API.
#[derive(Debug)]
pub struct CfRequest {
    pub method: Method,
    pub url: String,
    /// The bearer token that authorises the request.
    pub token: String,
    /// Names and values of the query.
    pub query: Vec<(String, String)>,
    /// The record to write, sent as JSON.
    pub body: Option<CfRecordWrite>,
}

/// The mathematical content of a [`CfRequest`].
#[verifier::ext_equal]
pub struct CfRequestView {
    pub method: Method,
    pub url: Seq<char>,
    pub token: Seq<char>,
    pub query: Seq<(Seq<char>, Seq<char>)>,
    pub body: Option<CfRecordWriteView>,
}

impl View for CfRequest {
    type V = CfRequestView;

    open spec fn view(&self) -> CfRequestView {
        CfRequestView {
            method: self.method,
            url: self.url@,
            token: self.token@,
            query: self.query@.map_values(|pair: (String, String)| (pair.0@, pair.1@)),
            body: match self.body {
                Some(record) => Some(record@),
                None => None,
            },
        }
    }
}

/// The address of the records of a zone.
pub open spec fn records_url(zone_id: Seq<char>) -> Seq<char> {
    CF_API_BASE@ + "/zones/"@ + zone_id + "/dns_records"@
}

fn records_url_string(zone_id: &str) -> (r: String)
    ensures
        r@ == records_url(zone_id@),
{
    CF_API_BASE.to_owned().concat("/zones/").concat(zone_id).concat("/dns_records")
}

/// An A record that points `fqdn` to `ip`, with the lifetime that means
/// "automatic".
pub open spec fn a_record(fqdn: Seq<char>, ip: Seq<char>, proxied: bool) -> CfRecordWriteView {
    CfRecordWriteView { rec_type: "A"@, name: fqdn, content: ip, ttl: 1, proxied }
}

fn a_record_write(fqdn: &str, ip: &str, proxied: bool) -> (r: CfRecordWrite)
    ensures
        r@ == a_record(fqdn@, ip@, proxied),
{
    CfRecordWrite {
        rec_type: "A".to_owned(),
        name: fqdn.to_owned(),
        content: ip.to_owned(),
        ttl: 1,
        proxied,
    }
}

/// Asks for the A records of the zone whose name is exactly `fqdn`.
pub open spec fn list_request_view(
    token: Seq<char>,
    zone_id: Seq<char>,
    fqdn: Seq<char>,
) -> CfRequestView {
    CfRequestView {
        method: Method::Get,
        url: records_url(zone_id),
        token,
        query: seq![("type"@, "A"@), ("name.exact"@, fqdn)],
        body: None,
    }
}

/// Replaces the record `record_id` by an A record.
pub open spec fn update_request_view(
    token: Seq<char>,
    zone_id: Seq<char>,
    record_id: Seq<char>,
    fqdn: Seq<char>,
    ip: Seq<char>,
    proxied: bool,
) -> CfRequestView {
    CfRequestView {
        method: Method::Put,
        url: records_url(zone_id) + "/"@ + record_id,
        token,
        query: Seq::empty(),
        body: Some(a_record(fqdn, ip, proxied)),
    }
}

/// Adds an A record to the zone.
pub open spec fn create_request_view(
    token: Seq<char>,
    zone_id: Seq<char>,
    fqdn: Seq<char>,
    ip: Seq<char>,
    proxied: bool,
) -> CfRequestView {
    CfRequestView {
        method: Method::Post,
        url: records_url(zone_id),
        token,
        query: Seq::empty(),
        body: Some(a_record(fqdn, ip, proxied)),
    }
}

/// A request that reads `url`.
pub open spec fn read_request_view(token: Seq<char>, url: Seq<char>) -> CfRequestView {
    CfRequestView { method: Method::Get, url, token, query: Seq::empty(), body: None }
}

/// The request that lists the A records named `fqdn`.
pub fn list_request(token: &str, zone_id: &str, fqdn: &str) -> (r: CfRequest)
    ensures
        r@ == list_request_view(token@, zone_id@, fqdn@),
        r.method == Method::Get,
        r.token@ == token@,
        r.body is None,
{
    let mut query: Vec<(String, String)> = Vec::new();
    query.push(("type".to_owned(), "A".to_owned()));
    query.push(("name.exact".to_owned(), fqdn.to_owned()));
    let r = CfRequest {
        method: Method::Get,
        url: records_url_string(zone_id),
        token: token.to_owned(),
        query,
        body: None,
    };
    assert(r@.query =~= list_request_view(token@, zone_id@, fqdn@).query);
    r
}

/// The request that points the record `record_id`, named `fqdn`, to `new_ip`.
pub fn update_request(
    token: &str,
    zone_id: &str,
    record_id: &str,
    fqdn: &str,
    new_ip: &str,
    proxied: bool,
) -> (r: CfRequest)
    ensures
        r@ == update_request_view(token@, zone_id@, record_id@, fqdn@, new_ip@, proxied),
        r.method == Method::Put,
        r.token@ == token@,
        r.body matches Some(b) && b.rec_type@ == "A"@ && b.name@ == fqdn@ && b.content@ == new_ip@
            && b.ttl == 1 && b.proxied == proxied,
{
    let r = CfRequest {
        method: Method::Put,
        url: records_url_string(zone_id).concat("/").concat(record_id),
        token: token.to_owned(),
        query: Vec::new(),
        body: Some(a_record_write(fqdn, new_ip, proxied)),
    };
    assert(r@.query =~= Seq::<(Seq<char>, Seq<char>)>::empty());
    r
}

/// The request that creates an A record named `fqdn` that points to `ip`.
pub fn create_request(
    token: &str,
    zone_id: &str,
    fqdn: &str,
    ip: &str,
    proxied: bool,
) -> (r: CfRequest)
    ensures
        r@ == create_request_view(token@, zone_id@, fqdn@, ip@, proxied),
        r.method == Method::Post,
        r.token@ == token@,
        r.body matches Some(b) && b.rec_type@ == "A"@ && b.name@ == fqdn@ && b.content@ == ip@
            && b.ttl == 1 && b.proxied == proxied,
{
    let r = CfRequest {
        method: Method::Post,
        url: records_url_string(zone_id),
        token: token.to_owned(),
        query: Vec::new(),
        body: Some(a_record_write(fqdn, ip, proxied)),
    };
    assert(r@.query =~= Seq::<(Seq<char>, Seq<char>)>::empty());
    r
}

fn read_request(token: &str, url: String) -> (r: CfRequest)
    ensures
        r@ == read_request_view(token@, url@),
{
    let r = CfRequest {
        method: Method::Get,
        url,
        token: token.to_owned(),
        query: Vec::new(),
        body: None,
    };
    assert(r@.query =~= Seq::<(Seq<char>, Seq<char>)>::empty());
    r
}

/// What came back for a request.
#[derive(Debug)]
pub enum CfReply<T> {
    /// The request could not be sent, or no response came.
    SendFailed,
    /// A response came, and its body could not be read.
    BodyFailed { status: HttpStatus },
    /// A response came; `parsed` is what its body says, if it is an envelope.
    Answer { status: HttpStatus, body: String, parsed: Option<CfEnvelope<T>> },
}

/// Whether the record is an A record.
pub open spec fn is_a_record(record: CfRecord) -> bool {
    record.rec_type@ == "A"@
}

/// What the reply to a list request means: the A records in it, in their order.
pub open spec fn list_outcome_view(reply: CfReply<Vec<CfRecord>>) -> Result<
    Seq<CfRecord>,
    ErrorView,
> {
    match reply {
        CfReply::SendFailed => Err(ErrorView::Step("CF GET /dns_records"@)),
        CfReply::BodyFailed { status } => if status.fault() {
            Err(ErrorView::Step("CF list status"@))
        } else {
            Err(ErrorView::Step("parse CF list"@))
        },
        CfReply::Answer { status, parsed, .. } => if status.fault() {
            Err(ErrorView::Step("CF list status"@))
        } else {
            match parsed {
                None => Err(ErrorView::Step("parse CF list"@)),
                Some(envelope) => match envelope.outcome("CF list"@) {
                    Err(error) => Err(error),
                    Ok(records) => Ok(records@.filter(|record: CfRecord| is_a_record(record))),
                },
            }
        },
    }
}

/// The A records that a list request found, in their order.
pub fn list_outcome(reply: CfReply<Vec<CfRecord>>) -> (r: Result<Vec<CfRecord>, Error>)
    ensures
        match seen(r) {
            Ok(records) => list_outcome_view(reply) == Ok::<Seq<CfRecord>, ErrorView>(records@),
            Err(error) => list_outcome_view(reply) == Err::<Seq<CfRecord>, ErrorView>(error),
        },
        r matches Ok(kept) ==> (reply matches CfReply::Answer { parsed: Some(envelope), .. } && (
        envelope.result matches Some(listed) && kept@ == listed@.filter(
            |record: CfRecord| record.rec_type@ == "A"@,
        ))),
{
    let (status, parsed) = match reply {
        CfReply::SendFailed => return Err(Error::Step("CF GET /dns_records".to_owned())),
        CfReply::BodyFailed { status } => (status, None),
        CfReply::Answer { status, body: _, parsed } => (status, parsed),
    };
    if status.is_fault() {
        return Err(Error::Step("CF list status".to_owned()));
    }
    match parsed {
        None => Err(Error::Step("parse CF list".to_owned())),
        Some(envelope) => match envelope.into_result("CF list") {
            Err(error) => Err(error),
            Ok(records) => Ok(keep_a_records(records)),
        },
    }
}

fn keep_a_records(records: Vec<CfRecord>) -> (r: Vec<CfRecord>)
    ensures
        r@ == records@.filter(|record: CfRecord| is_a_record(record)),
        r@ == records@.filter(|record: CfRecord| record.rec_type@ == "A"@),
{
    let ghost all = records@;
    let ghost wanted = |record: CfRecord| is_a_record(record);
    let mut kept: Vec<CfRecord> = Vec::new();
    assert(all.take(0).filter(wanted) =~= Seq::<CfRecord>::empty()) by {
        reveal(Seq::filter);
    }
    for record in it: records
        invariant
            it.seq() == all,
            wanted == |record: CfRecord| is_a_record(record),
            kept@ == all.take(it.index() as int).filter(wanted),
    {
        let ghost i = it.index() as int;
        proof {
            all.take(i).lemma_filter_push(record, wanted);
            assert(all.take(i).push(record) =~= all.take(i + 1));
        }
        if same_text(record.rec_type.as_str(), "A") {
            kept.push(record);
        }
    }
    assert(all.take(all.len() as int) =~= all);
    assert(wanted =~= |record: CfRecord| record.rec_type@ == "A"@);
    kept
}

/// What the reply to a write means. `sent`, `read`, `parse` name the steps that
/// may fail, and `op` the operation.
pub open spec fn write_outcome_view<T>(
    method: Method,
    sent: Seq<char>,
    read: Seq<char>,
    parse: Seq<char>,
    op: Seq<char>,
    reply: CfReply<T>,
) -> Result<T, ErrorView> {
    match reply {
        CfReply::SendFailed => Err(ErrorView::Step(sent)),
        CfReply::BodyFailed { .. } => Err(ErrorView::Step(read)),
        CfReply::Answer { status, body, parsed } => if !status.success() {
            Err(ErrorView::WriteStatus { method, status, body: body@ })
        } else {
            match parsed {
                None => Err(ErrorView::Step(parse)),
                Some(envelope) => envelope.outcome(op),
            }
        },
    }
}

fn write_outcome<T>(
    method: Method,
    sent: &str,
    read: &str,
    parse: &str,
    op: &str,
    reply: CfReply<T>,
) -> (r: Result<T, Error>)
    ensures
        seen(r) == write_outcome_view(method, sent@, read@, parse@, op@, reply),
{
    match reply {
        CfReply::SendFailed => Err(Error::Step(sent.to_owned())),
        CfReply::BodyFailed { .. } => Err(Error::Step(read.to_owned())),
        CfReply::Answer { status, body, parsed } => if !status.is_success() {
            Err(Error::WriteStatus { method, status, body })
        } else {
            match parsed {
                None => Err(Error::Step(parse.to_owned())),
                Some(envelope) => envelope.into_result(op),
            }
        },
    }
}

/// What the reply to an update means.
pub open spec fn update_outcome_view(reply: CfReply<CfRecord>) -> Result<CfRecord, ErrorView> {
    write_outcome_view(
        Method::Put,
        "CF PUT /dns_records/{id}"@,
        "read PUT body"@,
        "parse CF PUT"@,
        "CF update"@,
        reply,
    )
}

/// Whether an update was carried out.
pub fn update_outcome(reply: CfReply<CfRecord>) -> (r: Result<(), Error>)
    ensures
        match update_outcome_view(reply) {
            Ok(_) => r is Ok,
            Err(error) => r is Err && r->Err_0@ == error,
        },
{
    match write_outcome(
        Method::Put,
        "CF PUT /dns_records/{id}",
        "read PUT body",
        "parse CF PUT",
        "CF update",
        reply,
    ) {
        Ok(_) => Ok(()),
        Err(error) => Err(error),
    }
}

/// What the reply to the creation of a record means.
pub open spec fn create_outcome_view(reply: CfReply<CfRecord>) -> Result<CfRecord, ErrorView> {
    write_outcome_view(
        Method::Post,
        "CF POST /dns_records"@,
        "read POST body"@,
        "parse CF POST"@,
        "CF create"@,
        reply,
    )
}

/// The ID of the record that was created.
pub fn create_outcome(reply: CfReply<CfRecord>) -> (r: Result<String, Error>)
    ensures
        match create_outcome_view(reply) {
            Ok(record) => r is Ok && r->Ok_0@ == record.id@,
            Err(error) => r is Err && r->Err_0@ == error,
        },
{
    match write_outcome(
        Method::Post,
        "CF POST /dns_records",
        "read POST body",
        "parse CF POST",
        "CF create",
        reply,
    ) {
        Ok(record) => Ok(record.id),
        Err(error) => Err(error),
    }
}

/// The request that asks whether the token is valid.
pub fn token_request(token: &str) -> (r: CfRequest)
    ensures
        r@ == read_request_view(token@, CF_API_BASE@ + "/user/tokens/verify"@),
{
    read_request(token, CF_API_BASE.to_owned().concat("/user/tokens/verify"))
}

/// The request that reads the zone.
pub open spec fn zone_request_view(token: Seq<char>, zone_id: Seq<char>) -> CfRequestView {
    read_request_view(token, CF_API_BASE@ + "/zones/"@ + zone_id)
}

/// What the reply to the token request means. A body that cannot be read counts
/// as an empty one, which is no envelope.
pub open spec fn token_outcome_view(reply: CfReply<serde_json::Value>) -> Result<
    serde_json::Value,
    ErrorView,
> {
    match reply {
        CfReply::SendFailed => Err(ErrorView::Step("CF GET /user/tokens/verify"@)),
        CfReply::BodyFailed { status } => if !status.success() {
            Err(ErrorView::TokenRejected { status, body: Seq::empty() })
        } else {
            Err(ErrorView::Step("parse token verify"@))
        },
        CfReply::Answer { status, body, parsed } => if !status.success() {
            Err(ErrorView::TokenRejected { status, body: body@ })
        } else {
            match parsed {
                None => Err(ErrorView::Step("parse token verify"@)),
                Some(envelope) => envelope.outcome("CF token verify"@),
            }
        },
    }
}

/// First half of the check at startup: given the reply to the token request,
/// the request that reads the zone with the same token, or why the token does not
/// do.
pub fn check_token(
    token: &str,
    zone_id: &str,
    reply: CfReply<serde_json::Value>,
) -> (r: Result<CfRequest, Error>)
    ensures
        match token_outcome_view(reply) {
            Ok(_) => r is Ok && r->Ok_0@ == zone_request_view(token@, zone_id@),
            Err(error) => r is Err && r->Err_0@ == error,
        },
{
    let (status, body, parsed) = match reply {
        CfReply::SendFailed => return Err(Error::Step("CF GET /user/tokens/verify".to_owned())),
        CfReply::BodyFailed { status } => (status, String::new(), None),
        CfReply::Answer { status, body, parsed } => (status, body, parsed),
    };
    if !status.is_success() {
        return Err(Error::TokenRejected { status, body });
    }
    match parsed {
        None => Err(Error::Step("parse token verify".to_owned())),
        Some(envelope) => match envelope.into_result("CF token verify") {
            Err(error) => Err(error),
            Ok(_) => Ok(
                read_request(token, CF_API_BASE.to_owned().concat("/zones/").concat(zone_id)),
            ),
        },
    }
}

/// What the reply to the zone request means.
pub open spec fn zone_outcome_view(
    zone_id: Seq<char>,
    reply: CfReply<serde_json::Value>,
) -> Result<serde_json::Value, ErrorView> {
    match reply {
        CfReply::SendFailed => Err(ErrorView::Step("CF GET /zones/{id}"@)),
        CfReply::BodyFailed { status } => if !status.success() {
            Err(ErrorView::ZoneInaccessible { zone_id, status, body: Seq::empty() })
        } else {
            Err(ErrorView::Step("parse zone lookup"@))
        },
        CfReply::Answer { status, body, parsed } => if !status.success() {
            Err(ErrorView::ZoneInaccessible { zone_id, status, body: body@ })
        } else {
            match parsed {
                None => Err(ErrorView::Step("parse zone lookup"@)),
                Some(envelope) => envelope.outcome("CF zone lookup"@),
            }
        },
    }
}

/// The name of a zone, where its description gives one.
pub open spec fn zone_name_view(zone: serde_json::Value) -> Seq<char> {
    if string_members(zone).contains_key("name"@) {
        string_members(zone)["name"@]
    } else {
        "<unknown>"@
    }
}

/// The name of a zone, where its description gives one.
pub fn zone_name(zone: &serde_json::Value) -> (r: String)
    ensures
        r@ == zone_name_view(*zone),
{
    match string_member(zone, "name") {
        Some(name) => name.to_owned(),
        None => "<unknown>".to_owned(),
    }
}

/// Second half of the check at startup: given the reply to the zone request,
/// the name of the zone, or why it cannot be used.
pub fn check_zone(zone_id: &str, reply: CfReply<serde_json::Value>) -> (r: Result<String, Error>)
    ensures
        match zone_outcome_view(zone_id@, reply) {
            Ok(zone) => r is Ok && r->Ok_0@ == zone_name_view(zone),
            Err(error) => r is Err && r->Err_0@ == error,
        },
{
    let (status, body, parsed) = match reply {
        CfReply::SendFailed => return Err(Error::Step("CF GET /zones/{id}".to_owned())),
        CfReply::BodyFailed { status } => (status, String::new(), None),
        CfReply::Answer { status, body, parsed } => (status, body, parsed),
    };
    if !status.is_success() {
        return Err(Error::ZoneInaccessible { zone_id: zone_id.to_owned(), status, body });
    }
    match parsed {
        None => Err(Error::Step("parse zone lookup".to_owned())),
        Some(envelope) => match envelope.into_result("CF zone lookup") {
            Err(error) => Err(error),
            Ok(zone) => Ok(zone_name(&zone)),
        },
    }
}

/// The failure that ends the program where the credentials do not pass.
pub fn preflight_failed(error: &Error) -> (r: Error)
    ensures
        r@ == (ErrorView::Preflight { cause: error@.message() }),
{
    Error::Preflight { cause: error.message() }
}

} // verus!
