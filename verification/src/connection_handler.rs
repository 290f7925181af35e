//! Messages exchanged with the signalling server, and the checks made on the
//! server address before connecting.
use vstd::prelude::*;
use rustls_pki_types::pem::PemObject;
use rustls_pki_types::{CertificateDer, InvalidDnsNameError, ServerName};
use crate::webrtc_control::opt_string_view;

verus! {

/// A message to or from the signalling server: a command `code`, a payload
/// `data` and a peer `id`.
#[derive(Debug)]
pub struct SignalMsg {
    pub code: String,
    pub data: String,
    pub id: String,
}

/// The content of a signalling message.
pub struct SignalView {
    pub code: Seq<char>,
    pub data: Seq<char>,
    pub id: Seq<char>,
}

impl View for SignalMsg {
    type V = SignalView;

    open spec fn view(&self) -> SignalView {
        SignalView { code: self.code@, data: self.data@, id: self.id@ }
    }
}

/// The signalling message made of `code`, `data` and `id`.
pub open spec fn signal(code: Seq<char>, data: Seq<char>, id: Seq<char>) -> SignalView {
    SignalView { code, data, id }
}

impl SignalMsg {
    /// The message made of `code`, `data` and `id`.
    pub fn new(code: &str, data: &str, id: &str) -> (m: SignalMsg)
        ensures
            m@ == signal(code@, data@, id@),
    {
        SignalMsg { code: code.to_owned(), data: data.to_owned(), id: id.to_owned() }
    }

    /// A copy of this message.
    pub fn duplicate(&self) -> (m: SignalMsg)
        ensures
            m@ == self@,
    {
        SignalMsg { code: self.code.clone(), data: self.data.clone(), id: self.id.clone() }
    }
}

/// A payload for the peer `id`, to be forwarded by the server.
pub fn forward_message(data: &str, id: &str) -> (m: SignalMsg)
    ensures
        m@ == signal("forward"@, data@, id@),
{
    SignalMsg::new("forward", data, id)
}


// ---------------------------------------------------------------------------
// The server address
// ---------------------------------------------------------------------------

#[verifier::external_type_specification]
#[verifier::external_body]
pub struct ExUrlParseError(url::ParseError);

#[verifier::external_type_specification]
#[verifier::external_body]
pub struct ExServerName<'a>(ServerName<'a>);

#[verifier::external_type_specification]
#[verifier::external_body]
pub struct ExInvalidDnsNameError(InvalidDnsNameError);

#[verifier::external_type_specification]
#[verifier::external_body]
pub struct ExPemError(rustls_pki_types::pem::Error);

/// Why the address of the signalling server cannot be used.
#[derive(Debug)]
pub enum ServerError {
    /// The address is not an absolute URL.
    Url(url::ParseError),
    /// The URL names no host ("Invalid domain in URL").
    NoDomain,
    /// The host is neither a DNS name nor an IP address ("Invalid server name").
    InvalidServerName,
    /// The root certificate could not be read from its PEM text.
    Pem(rustls_pki_types::pem::Error),
}

/// The message of an error that the library words itself: `Invalid domain in
/// URL` and `Invalid server name`; `None` for the errors that carry the
/// failing crate's own error.
pub fn server_error_text(e: &ServerError) -> (t: Option<String>)
    ensures
        e is NoDomain ==> (t matches Some(s) && s@ == "Invalid domain in URL"@),
        e is InvalidServerName ==> (t matches Some(s) && s@ == "Invalid server name"@),
        (e is Url || e is Pem) ==> t is None,
{
    match e {
        ServerError::NoDomain => Some("Invalid domain in URL".to_owned()),
        ServerError::InvalidServerName => Some("Invalid server name".to_owned()),
        ServerError::Url(_) => None,
        ServerError::Pem(_) => None,
    }
}

/// The host of `text` read as an absolute URL: `None` when `url::Url::parse`
/// rejects `text`, otherwise what `Url::host_str` gives for the parsed URL.
pub uninterp spec fn url_host(text: Seq<char>) -> Option<Option<Seq<char>>>;

/// Reads `text` as an absolute URL and takes its host (`url::Url::parse`, then
/// `Url::host_str`). Claimed: the call fails exactly when `url_host` says
/// `None`, and otherwise gives the host that `url_host` names. What `url_host`
/// is on given texts is not stated here; it is the `url` crate's parser.
#[verifier::external_body]
fn parse_url_host(text: &str) -> (r: Result<Option<String>, url::ParseError>)
    ensures
        r is Err <==> url_host(text@) is None,
        r matches Ok(h) ==> url_host(text@) == Some(opt_string_view(h)),
{
    match url::Url::parse(text) {
        Ok(u) => Ok(u.host_str().map(|h| h.to_string())),
        Err(e) => Err(e),
    }
}

/// Whether `ServerName::try_from` accepts `domain`, as a DNS name or as an IP
/// address.
pub uninterp spec fn is_server_name(domain: Seq<char>) -> bool;

/// `ServerName::try_from` on an owned string. Claimed: it succeeds exactly when
/// `is_server_name` holds of the text; the rules it applies (the DNS name and IP
/// address syntax of `rustls-pki-types`) are not stated here.
#[verifier::external_body]
fn server_name_of(domain: String) -> (r: Result<ServerName<'static>, InvalidDnsNameError>)
    ensures
        r is Ok <==> is_server_name(domain@),
{
    ServerName::try_from(domain)
}

/// The DER bytes of the first certificate in the PEM text `pem`, or `None`
/// when there is none, or when the text is malformed before it (an error met in
/// an earlier section of another kind also gives `None`).
pub uninterp spec fn pem_certificate(pem: Seq<u8>) -> Option<Seq<u8>>;

/// `CertificateDer::from_pem_slice`, with the certificate given as its DER
/// bytes. Claimed: it succeeds exactly when `pem_certificate` is `Some`, with
/// those bytes; the PEM syntax it applies is not stated here.
#[verifier::external_body]
fn certificate_from_pem(pem: &[u8]) -> (r: Result<Vec<u8>, rustls_pki_types::pem::Error>)
    ensures
        r is Err <==> pem_certificate(pem@) is None,
        r matches Ok(der) ==> pem_certificate(pem@) == Some(der@),
{
    match CertificateDer::from_pem_slice(pem) {
        Ok(c) => Ok(c.to_vec()),
        Err(e) => Err(e),
    }
}

/// The domain to connect to, given what reading the server address gave: the
/// reading error, or the URL's host, which must be present.
pub fn host_domain(parsed: Result<Option<String>, url::ParseError>) -> (r: Result<String, ServerError>)
    ensures
        parsed matches Err(e) ==> r == Err::<String, ServerError>(ServerError::Url(e)),
        parsed matches Ok(None) ==> r matches Err(ServerError::NoDomain),
        parsed matches Ok(Some(h)) ==> (r matches Ok(d) && d@ == h@),
{
    match parsed {
        Err(e) => Err(ServerError::Url(e)),
        Ok(None) => Err(ServerError::NoDomain),
        Ok(Some(h)) => Ok(h),
    }
}

/// The domain to connect to, once the check of `domain` as a server name gave
/// `checked`.
pub fn checked_domain(
    domain: String,
    checked: Result<ServerName<'static>, InvalidDnsNameError>,
) -> (r: Result<String, ServerError>)
    ensures
        checked is Ok ==> (r matches Ok(d) && d@ == domain@),
        checked is Err ==> r matches Err(ServerError::InvalidServerName),
{
    match checked {
        Ok(_) => Ok(domain),
        Err(_) => Err(ServerError::InvalidServerName),
    }
}

/// The domain of the signalling server at `address`: its URL's host, which must
/// be a valid server name.
pub fn server_domain(address: &str) -> (r: Result<String, ServerError>)
    ensures
        url_host(address@) is None ==> r matches Err(ServerError::Url(_)),
        url_host(address@) == Some(None::<Seq<char>>) ==> r matches Err(ServerError::NoDomain),
        url_host(address@) matches Some(Some(h)) ==> (if is_server_name(h) {
            r matches Ok(d) && d@ == h
        } else {
            r matches Err(ServerError::InvalidServerName)
        }),
{
    let domain = match host_domain(parse_url_host(address)) {
        Ok(d) => d,
        Err(e) => {
            return Err(e);
        },
    };
    let copy = domain.clone();
    checked_domain(domain, server_name_of(copy))
}

/// The root certificate, given what reading its PEM text gave.
pub fn certificate_der(read: Result<Vec<u8>, rustls_pki_types::pem::Error>) -> (r: Result<
    Vec<u8>,
    ServerError,
>)
    ensures
        read matches Ok(der) ==> (r matches Ok(v) && v@ == der@),
        read matches Err(e) ==> r == Err::<Vec<u8>, ServerError>(ServerError::Pem(e)),
{
    match read {
        Ok(der) => Ok(der),
        Err(e) => Err(ServerError::Pem(e)),
    }
}

/// The trusted root certificate, as DER bytes, read from its PEM text.
pub fn root_certificate(pem: &[u8]) -> (r: Result<Vec<u8>, ServerError>)
    ensures
        pem_certificate(pem@) is None ==> r matches Err(ServerError::Pem(_)),
        pem_certificate(pem@) matches Some(der) ==> (r matches Ok(v) && v@ == der),
{
    certificate_der(certificate_from_pem(pem))
}

} // verus!
