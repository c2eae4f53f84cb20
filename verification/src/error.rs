//! What can go wrong, and how it is told.

use vstd::prelude::*;
use vstd::string::*;
use crate::http::{status_display, HttpStatus, Method};

verus! {

/// A failure of one of the updater's operations.
#[derive(Debug)]
pub enum Error {
    /// The configuration names no record to keep in sync.
    NoManagedRecords,
    /// The configuration names no provider to ask for the public address.
    NoIpProviders,
    /// No provider reported an address.
    NoProviderResponded,
    /// A provider answered with a status that is no success.
    ProviderStatus { url: String, status: HttpStatus },
    /// A step that goes through the network or a parser could not be carried
    /// out; the text names the step.
    Step(String),
    /// The API answered that the operation was not carried out, and why.
    Refused { op: String, reasons: String },
    /// The API reported success and returned nothing.
    EmptyResult { op: String },
    /// The API answered a write with a status that is no success.
    WriteStatus { method: Method, status: HttpStatus, body: String },
    /// The API does not accept the token.
    TokenRejected { status: HttpStatus, body: String },
    /// The zone cannot be read with the token.
    ZoneInaccessible { zone_id: String, status: HttpStatus, body: String },
    /// The credentials did not pass the check at startup.
    Preflight { cause: String },
    /// The host name of a name server has no address.
    NoNameServerAddress { host: String },
}

/// The mathematical content of an [`Error`].
#[verifier::ext_equal]
pub enum ErrorView {
    NoManagedRecords,
    NoIpProviders,
    NoProviderResponded,
    ProviderStatus { url: Seq<char>, status: HttpStatus },
    Step(Seq<char>),
    Refused { op: Seq<char>, reasons: Seq<char> },
    EmptyResult { op: Seq<char> },
    WriteStatus { method: Method, status: HttpStatus, body: Seq<char> },
    TokenRejected { status: HttpStatus, body: Seq<char> },
    ZoneInaccessible { zone_id: Seq<char>, status: HttpStatus, body: Seq<char> },
    Preflight { cause: Seq<char> },
    NoNameServerAddress { host: Seq<char> },
}

impl View for Error {
    type V = ErrorView;

    open spec fn view(&self) -> ErrorView {
        match *self {
            Error::NoManagedRecords => ErrorView::NoManagedRecords,
            Error::NoIpProviders => ErrorView::NoIpProviders,
            Error::NoProviderResponded => ErrorView::NoProviderResponded,
            Error::ProviderStatus { url, status } => ErrorView::ProviderStatus { url: url@, status },
            Error::Step(step) => ErrorView::Step(step@),
            Error::Refused { op, reasons } => ErrorView::Refused { op: op@, reasons: reasons@ },
            Error::EmptyResult { op } => ErrorView::EmptyResult { op: op@ },
            Error::WriteStatus { method, status, body } => ErrorView::WriteStatus {
                method,
                status,
                body: body@,
            },
            Error::TokenRejected { status, body } => ErrorView::TokenRejected {
                status,
                body: body@,
            },
            Error::ZoneInaccessible { zone_id, status, body } => ErrorView::ZoneInaccessible {
                zone_id: zone_id@,
                status,
                body: body@,
            },
            Error::Preflight { cause } => ErrorView::Preflight { cause: cause@ },
            Error::NoNameServerAddress { host } => ErrorView::NoNameServerAddress { host: host@ },
        }
    }
}

impl ErrorView {
    /// The text that tells the failure.
    pub open spec fn message(self) -> Seq<char> {
        match self {
            ErrorView::NoManagedRecords => "managed_records must contain at least one FQDN"@,
            ErrorView::NoIpProviders => "no ip providers configured"@,
            ErrorView::NoProviderResponded => "no ip provider responded within race deadline"@,
            ErrorView::ProviderStatus { url, status } => url + " -> HTTP "@ + status_display(
                status.spec_code(),
            ),
            ErrorView::Step(step) => step,
            ErrorView::Refused { op, reasons } => op + " failed: "@ + reasons,
            ErrorView::EmptyResult { op } => op + ": empty result"@,
            ErrorView::WriteStatus { method, status, body } => "CF "@ + method_name(method)
                + " HTTP "@ + status_display(status.spec_code()) + ": "@ + body,
            ErrorView::TokenRejected { status, body } =>
            "cloudflare_api_token rejected by CF (HTTP "@ + status_display(status.spec_code())
                + "): "@ + body + ". check scope: needs DNS:Edit for the target zone."@,
            ErrorView::ZoneInaccessible { zone_id, status, body } => "cloudflare_zone_id "@
                + zone_id + " not accessible (HTTP "@ + status_display(status.spec_code()) + "): "@
                + body,
            ErrorView::Preflight { cause } => "CF credential pre-flight failed: "@ + cause,
            ErrorView::NoNameServerAddress { host } => "NS "@ + host
                + " did not resolve to any address"@,
        }
    }
}

/// The name of a method as it stands in a request.
pub open spec fn method_name(method: Method) -> Seq<char> {
    match method {
        Method::Get => "GET"@,
        Method::Put => "PUT"@,
        Method::Post => "POST"@,
    }
}

fn method_str(method: &Method) -> (r: &'static str)
    ensures
        r@ == method_name(*method),
{
    match method {
        Method::Get => "GET",
        Method::Put => "PUT",
        Method::Post => "POST",
    }
}

impl Error {
    /// The text that tells the failure.
    pub fn message(&self) -> (r: String)
        ensures
            r@ == self@.message(),
    {
        match self {
            Error::NoManagedRecords => "managed_records must contain at least one FQDN".to_owned(),
            Error::NoIpProviders => "no ip providers configured".to_owned(),
            Error::NoProviderResponded => "no ip provider responded within race deadline".to_owned(),
            Error::ProviderStatus { url, status } => url.clone().concat(" -> HTTP ").concat(
                status.display().as_str(),
            ),
            Error::Step(step) => step.clone(),
            Error::Refused { op, reasons } => op.clone().concat(" failed: ").concat(
                reasons.as_str(),
            ),
            Error::EmptyResult { op } => op.clone().concat(": empty result"),
            Error::WriteStatus { method, status, body } => "CF ".to_owned().concat(
                method_str(method),
            ).concat(" HTTP ").concat(status.display().as_str()).concat(": ").concat(body.as_str()),
            Error::TokenRejected { status, body } =>
            "cloudflare_api_token rejected by CF (HTTP ".to_owned().concat(
                status.display().as_str(),
            ).concat("): ").concat(body.as_str()).concat(
                ". check scope: needs DNS:Edit for the target zone.",
            ),
            Error::ZoneInaccessible { zone_id, status, body } => "cloudflare_zone_id ".to_owned()
                .concat(zone_id.as_str())
                .concat(" not accessible (HTTP ")
                .concat(status.display().as_str())
                .concat("): ")
                .concat(body.as_str()),
            Error::Preflight { cause } => "CF credential pre-flight failed: ".to_owned().concat(
                cause.as_str(),
            ),
            Error::NoNameServerAddress { host } => "NS ".to_owned().concat(host.as_str()).concat(
                " did not resolve to any address",
            ),
        }
    }
}

/// A result whose error is seen by its mathematical content.
pub open spec fn seen<T>(r: Result<T, Error>) -> Result<T, ErrorView> {
    match r {
        Ok(value) => Ok(value),
        Err(error) => Err(error@),
    }
}

} // verus!
