//! The decisions taken for one datagram: which name it asks about, where
//! the query goes, and what a registration lookup's answer comes to.
use vstd::prelude::*;
use crate::cache::DomainCache;
use crate::domain::{classify, is_china_domain, string_views, Classification, Outcome};
use crate::error::ProxyError;
use crate::json::{integer_field, json_integer_field};

verus! {

/// The resolver that answers for domestic names.
pub const DOMESTIC_RESOLVER: &'static str = "https://dns.alidns.com";

/// The resolver that answers for every other name.
pub const FOREIGN_RESOLVER: &'static str = "https://cloudflare-dns.com";

/// The path under a resolver's base that takes DNS-over-HTTPS queries.
pub const DOH_PATH: &'static str = "/dns-query";

/// The registration lookup, to which the credential is appended.
pub const LOOKUP_ENDPOINT: &'static str = "https://apidata.chinaz.com/CallAPI/Domain?key=";

/// What separates the credential from the looked-up name in a lookup.
pub const LOOKUP_NAME_PARAM: &'static str = "&domainName=";

/// The field of a lookup's answer that holds its state code.
pub const STATE_CODE_FIELD: &'static str = "StateCode";

/// The state code of a lookup that found a registration.
pub const REGISTERED_STATE_CODE: i64 = 1;

#[verifier::external_type_specification]
#[verifier::external_body]
pub struct ExDecodeError(dns_message_parser::DecodeError);

/// The domain names of the questions of the DNS message `msg`, in order and
/// each written with a final `.`, or none where `msg` is no DNS message.
pub uninterp spec fn dns_question_names(msg: Seq<u8>) -> Option<Seq<Seq<char>>>;

/// Relies on dns_message_parser::Dns::decode, and on the `Display` of each
/// question's `DomainName`.
#[verifier::external_body]
fn decode_question_names(msg: &[u8]) -> (r: Result<Vec<String>, dns_message_parser::DecodeError>)
    ensures
        r is Ok <==> dns_question_names(msg@) is Some,
        r matches Ok(v) ==> dns_question_names(msg@) == Some(string_views(v@)),
{
    let dns = dns_message_parser::Dns::decode(bytes::Bytes::copy_from_slice(msg))?;
    Ok(dns.questions.iter().map(|q| q.domain_name.to_string()).collect())
}

/// The domain name a message asks about: that of its first question.
pub fn first_question(names: Vec<String>) -> (r: Result<String, ProxyError>)
    ensures
        names@.len() == 0 ==> r == Err::<String, ProxyError>(ProxyError::NoQuestion),
        names@.len() > 0 ==> (r matches Ok(d) && d@ == names@[0]@),
{
    if names.len() == 0 {
        Err(ProxyError::NoQuestion)
    } else {
        Ok(names[0].clone())
    }
}

/// The domain name that the datagram `msg` asks about.
pub fn request_domain(msg: &[u8]) -> (r: Result<String, ProxyError>)
    ensures
        match dns_question_names(msg@) {
            None => r == Err::<String, ProxyError>(ProxyError::Decode),
            Some(ns) => if ns.len() == 0 {
                r == Err::<String, ProxyError>(ProxyError::NoQuestion)
            } else {
                r matches Ok(d) && d@ == ns[0]
            },
        },
{
    match decode_question_names(msg) {
        Ok(names) => first_question(names),
        Err(_) => Err(ProxyError::Decode),
    }
}

/// The DNS-over-HTTPS address of the resolver for a name with verdict
/// `domestic`.
pub open spec fn upstream_spec(domestic: bool) -> Seq<char> {
    (if domestic {
        DOMESTIC_RESOLVER@
    } else {
        FOREIGN_RESOLVER@
    }) + DOH_PATH@
}

/// Where a query about a name with verdict `domestic` is sent.
pub fn upstream_url(domestic: bool) -> (r: String)
    ensures
        r@ == upstream_spec(domestic),
{
    let mut r = if domestic {
        String::from_str(DOMESTIC_RESOLVER)
    } else {
        String::from_str(FOREIGN_RESOLVER)
    };
    r.append(DOH_PATH);
    r
}

/// The address of the registration lookup of `query_domain`, made with the
/// credential `api_key`; there is none without a credential.
pub fn lookup_url(api_key: Option<String>, query_domain: &String) -> (r: Result<String, ProxyError>)
    ensures
        match api_key {
            None => r == Err::<String, ProxyError>(ProxyError::MissingCredential),
            Some(k) => (r matches Ok(u) && u@ == LOOKUP_ENDPOINT@ + k@ + LOOKUP_NAME_PARAM@
                + query_domain@),
        },
{
    match api_key {
        None => Err(ProxyError::MissingCredential),
        Some(k) => {
            let mut u = String::from_str(LOOKUP_ENDPOINT);
            u.append(k.as_str());
            u.append(LOOKUP_NAME_PARAM);
            u.append(query_domain.as_str());
            Ok(u)
        },
    }
}

/// The verdict that a lookup's state code gives: none where the answer has
/// no state code, else whether it is the code of a registered name.
pub open spec fn verdict_of(code: Option<Option<i64>>) -> Result<bool, ProxyError> {
    match code {
        None => Err(ProxyError::RemoteLookupFailed),
        Some(c) => Ok(c == Some(REGISTERED_STATE_CODE)),
    }
}

/// The verdict for the state code `code` read from a lookup's answer
/// (`None` where the answer has no state code field, `Some(None)` where the
/// field is no integer).
pub fn verdict_from_state_code(code: Option<Option<i64>>) -> (r: Result<bool, ProxyError>)
    ensures
        r == verdict_of(code),
{
    match code {
        None => Err(ProxyError::RemoteLookupFailed),
        Some(Some(c)) => Ok(c == REGISTERED_STATE_CODE),
        Some(None) => Ok(false),
    }
}

/// The verdict that the lookup's answer `body` gives.
pub fn verdict_from_response(body: &str) -> (r: Result<bool, ProxyError>)
    ensures
        r == verdict_of(json_integer_field(body@, STATE_CODE_FIELD@)),
{
    verdict_from_state_code(integer_field(body, STATE_CODE_FIELD))
}

/// Reads the verdict for `domain` from the lookup's answer `body` and
/// records it in the cache. A verdict already cached is never replaced: it
/// is returned as it stands. On failure the cache is left as it was.
pub fn record_lookup(cache: &mut DomainCache, domain: &String, body: &str) -> (r: Result<bool, ProxyError>)
    requires
        old(cache).wf(),
    ensures
        final(cache).wf(),
        final(cache).path() == old(cache).path(),
        old(cache)@.contains_key(domain@) ==> r == Ok::<bool, ProxyError>(old(cache)@[domain@])
            && final(cache)@ == old(cache)@,
        !old(cache)@.contains_key(domain@) ==> r == verdict_of(
            json_integer_field(body@, STATE_CODE_FIELD@),
        ),
        r matches Ok(v) ==> final(cache)@ == old(cache)@.insert(domain@, v),
        r is Err ==> final(cache)@ == old(cache)@,
{
    if let Some(b) = cache.find_domain(domain) {
        let b = *b;
        proof {
            assert(cache@.insert(domain@, b) =~= cache@);
        }
        return Ok(b);
    }
    let v = verdict_from_response(body)?;
    cache.add_domain(domain.clone(), v);
    Ok(v)
}

/// What is to be done with a datagram once it has been read.
#[derive(Debug, PartialEq, Eq)]
pub enum Step {
    /// Send it to this DNS-over-HTTPS address.
    Forward(String),
    /// First look up the registration of `query_domain` and record the
    /// verdict for `domain`.
    Lookup { domain: String, query_domain: String },
}

/// Decides what becomes of the datagram `msg`: which resolver it goes to,
/// or which registration lookup must come first. The cache is only read.
pub fn handle_request(msg: &[u8], cache: &DomainCache) -> (r: Result<Step, ProxyError>)
    requires
        cache.wf(),
    ensures
        match dns_question_names(msg@) {
            None => r == Err::<Step, ProxyError>(ProxyError::Decode),
            Some(ns) => if ns.len() == 0 {
                r == Err::<Step, ProxyError>(ProxyError::NoQuestion)
            } else {
                match classify(ns[0], cache@) {
                    Outcome::Known(b) => (r matches Ok(Step::Forward(u)) && u@ == upstream_spec(b)),
                    Outcome::Lookup(q) => (r matches Ok(Step::Lookup { domain, query_domain })
                        && domain@ == ns[0] && query_domain@ == q),
                    Outcome::Failed(e) => r == Err::<Step, ProxyError>(e),
                }
            },
        },
{
    let domain = request_domain(msg)?;
    match is_china_domain(&domain, cache)? {
        Classification::Known(b) => Ok(Step::Forward(upstream_url(b))),
        Classification::Lookup(query_domain) => Ok(Step::Lookup { domain, query_domain }),
    }
}

} // verus!
