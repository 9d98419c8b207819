use dns_split::cache::{cache_path_or_default, DomainCache, DEFAULT_CACHE_PATH};
use dns_split::domain::{is_china_domain, route_domain, split_labels, Classification};
use dns_split::error::ProxyError;
use dns_split::request::{
    first_question, handle_request, lookup_url, record_lookup, request_domain, upstream_url,
    verdict_from_response, verdict_from_state_code, Step,
};

fn query_for(labels: &[&str]) -> Vec<u8> {
    let mut msg = vec![0x12, 0x34, 0x01, 0x00, 0x00, 0x01, 0x00, 0x00, 0x00, 0x00, 0x00, 0x00];
    for l in labels {
        msg.push(l.len() as u8);
        msg.extend_from_slice(l.as_bytes());
    }
    msg.extend_from_slice(&[0x00, 0x00, 0x01, 0x00, 0x01]);
    msg
}

fn empty_cache() -> DomainCache {
    DomainCache::new("unused.txt".to_string())
}

fn classify(d: &str, cache: &DomainCache) -> Result<Classification, ProxyError> {
    is_china_domain(&d.to_string(), cache)
}

#[test]
fn labels_split_on_every_dot() {
    assert_eq!(split_labels("a.b.example.com"), vec!["a", "b", "example", "com"]);
    assert_eq!(split_labels("example.cn."), vec!["example", "cn", ""]);
    assert_eq!(split_labels("localhost"), vec!["localhost"]);
    assert_eq!(split_labels(""), vec![""]);
}

#[test]
fn cn_names_are_domestic_without_the_cache() {
    let mut cache = empty_cache();
    cache.add_domain("example.cn.".to_string(), false);
    assert_eq!(classify("example.cn.", &cache), Ok(Classification::Known(true)));
    assert_eq!(classify("www.example.cn.", &cache), Ok(Classification::Known(true)));
    assert_eq!(classify("x.cn.", &empty_cache()), Ok(Classification::Known(true)));
}

#[test]
fn other_suffixes_are_foreign_without_the_cache() {
    let mut cache = empty_cache();
    cache.add_domain("example.org.".to_string(), true);
    assert_eq!(classify("example.org.", &cache), Ok(Classification::Known(false)));
    assert_eq!(classify("www.example.de.", &cache), Ok(Classification::Known(false)));
    // Without the final dot the second-to-last label is the name itself.
    assert_eq!(classify("www.example.cn", &cache), Ok(Classification::Known(false)));
    assert_eq!(classify("a.com", &cache), Ok(Classification::Known(false)));
}

#[test]
fn too_few_labels_are_invalid() {
    let cache = empty_cache();
    assert_eq!(classify("localhost", &cache), Err(ProxyError::InvalidDomain));
    assert_eq!(classify("", &cache), Err(ProxyError::InvalidDomain));
    assert_eq!(classify("com.", &cache), Err(ProxyError::InvalidDomain));
    assert_eq!(classify("net.", &cache), Err(ProxyError::InvalidDomain));
}

#[test]
fn com_and_net_names_need_a_lookup_of_the_second_level_name() {
    let cache = empty_cache();
    assert_eq!(
        classify("a.b.example.com.", &cache),
        Ok(Classification::Lookup("example.com".to_string()))
    );
    assert_eq!(
        classify("www.example.net.", &cache),
        Ok(Classification::Lookup("example.net".to_string()))
    );
}

#[test]
fn second_classification_uses_the_recorded_verdict() {
    let mut cache = empty_cache();
    let d = "www.example.com.".to_string();
    assert_eq!(
        is_china_domain(&d, &cache),
        Ok(Classification::Lookup("example.com".to_string()))
    );
    assert_eq!(record_lookup(&mut cache, &d, "{\"StateCode\":1}"), Ok(true));
    assert_eq!(is_china_domain(&d, &cache), Ok(Classification::Known(true)));
    assert_eq!(is_china_domain(&d, &cache), Ok(Classification::Known(true)));
    assert_eq!(cache.find_domain(&d), Some(&true));
    // A second subdomain of the same registration is cached apart.
    assert_eq!(
        classify("mail.example.com.", &cache),
        Ok(Classification::Lookup("example.com".to_string()))
    );
}

#[test]
fn recording_twice_keeps_one_entry() {
    let mut cache = empty_cache();
    let d = "x.example.net.".to_string();
    assert_eq!(record_lookup(&mut cache, &d, "{\"StateCode\":0}"), Ok(false));
    assert_eq!(record_lookup(&mut cache, &d, "{\"StateCode\":0}"), Ok(false));
    assert_eq!(cache.snapshot(), Ok("{\"x.example.net.\":false}".to_string()));
}

#[test]
fn failed_lookup_leaves_the_cache_alone() {
    let mut cache = empty_cache();
    let d = "www.example.com.".to_string();
    assert_eq!(record_lookup(&mut cache, &d, "not json"), Err(ProxyError::RemoteLookupFailed));
    assert_eq!(record_lookup(&mut cache, &d, "{\"Other\":1}"), Err(ProxyError::RemoteLookupFailed));
    assert_eq!(cache.find_domain(&d), None);
    assert_eq!(cache.snapshot(), Ok("{}".to_string()));
}

#[test]
fn state_codes_give_verdicts() {
    assert_eq!(verdict_from_state_code(None), Err(ProxyError::RemoteLookupFailed));
    assert_eq!(verdict_from_state_code(Some(None)), Ok(false));
    assert_eq!(verdict_from_state_code(Some(Some(1))), Ok(true));
    assert_eq!(verdict_from_state_code(Some(Some(0))), Ok(false));
    assert_eq!(verdict_from_state_code(Some(Some(2))), Ok(false));
}

#[test]
fn lookup_answers_give_verdicts() {
    assert_eq!(verdict_from_response("{\"StateCode\":1,\"Result\":{}}"), Ok(true));
    assert_eq!(verdict_from_response("{\"StateCode\":-1}"), Ok(false));
    assert_eq!(verdict_from_response("{\"StateCode\":\"1\"}"), Ok(false));
    assert_eq!(verdict_from_response("{\"StateCode\":1.0}"), Ok(false));
    assert_eq!(verdict_from_response("[1]"), Err(ProxyError::RemoteLookupFailed));
    assert_eq!(verdict_from_response(""), Err(ProxyError::RemoteLookupFailed));
}

#[test]
fn add_domain_returns_the_replaced_verdict() {
    let mut cache = empty_cache();
    let d = "a.example.com.".to_string();
    assert_eq!(cache.add_domain(d.clone(), true), None);
    assert_eq!(cache.add_domain(d.clone(), false), Some(true));
    assert_eq!(cache.find_domain(&d), Some(&false));
}

#[test]
fn snapshot_round_trip_keeps_every_verdict() {
    let mut cache = DomainCache::new("cache.json".to_string());
    let pairs = [
        ("a.example.com.", true),
        ("b.example.net.", false),
        ("c.other.com.", true),
        ("d.other.net.", false),
    ];
    for (d, v) in pairs.iter() {
        cache.add_domain(d.to_string(), *v);
    }
    let text = cache.snapshot().unwrap();
    let loaded = DomainCache::init(cache.cache_path().clone(), &text).unwrap();
    assert_eq!(loaded.cache_path(), "cache.json");
    for (d, v) in pairs.iter() {
        assert_eq!(loaded.find_domain(&d.to_string()), Some(v));
    }
    assert_eq!(loaded.find_domain(&"e.example.com.".to_string()), None);
    assert_eq!(loaded.snapshot(), Ok(text));
}

#[test]
fn snapshot_is_one_json_object() {
    let mut cache = empty_cache();
    cache.add_domain("b.example.net.".to_string(), false);
    cache.add_domain("a.example.com.".to_string(), true);
    assert_eq!(
        cache.snapshot(),
        Ok("{\"a.example.com.\":true,\"b.example.net.\":false}".to_string())
    );
}

#[test]
fn init_reads_empty_and_malformed_snapshots() {
    let c = DomainCache::init("p".to_string(), "").unwrap();
    assert_eq!(c.snapshot(), Ok("{}".to_string()));
    assert_eq!(DomainCache::init("p".to_string(), "nonsense").err(), Some(ProxyError::CacheIo));
    assert_eq!(DomainCache::init("p".to_string(), "{\"a\":1}").err(), Some(ProxyError::CacheIo));
    let c = DomainCache::init("p".to_string(), "{\"x.example.com.\":true}").unwrap();
    assert_eq!(c.find_domain(&"x.example.com.".to_string()), Some(&true));
}

#[test]
fn default_cache_path() {
    assert_eq!(cache_path_or_default(None), DEFAULT_CACHE_PATH);
    assert_eq!(cache_path_or_default(None), "domain_cache.txt");
    assert_eq!(cache_path_or_default(Some("x.json".to_string())), "x.json");
}

#[test]
fn request_domain_is_the_first_question() {
    assert_eq!(request_domain(&query_for(&["example", "cn"])), Ok("example.cn.".to_string()));
    assert_eq!(first_question(vec![]), Err(ProxyError::NoQuestion));
    assert_eq!(
        first_question(vec!["a.".to_string(), "b.".to_string()]),
        Ok("a.".to_string())
    );
}

#[test]
fn cn_query_goes_to_the_domestic_resolver() {
    let cache = empty_cache();
    let msg = query_for(&["example", "cn"]);
    assert_eq!(
        handle_request(&msg, &cache),
        Ok(Step::Forward("https://dns.alidns.com/dns-query".to_string()))
    );
}

#[test]
fn other_query_goes_to_the_foreign_resolver() {
    let cache = empty_cache();
    let msg = query_for(&["www", "example", "org"]);
    assert_eq!(
        handle_request(&msg, &cache),
        Ok(Step::Forward("https://cloudflare-dns.com/dns-query".to_string()))
    );
}

#[test]
fn com_query_asks_for_a_lookup_then_uses_the_cache() {
    let mut cache = empty_cache();
    let msg = query_for(&["www", "example", "com"]);
    assert_eq!(
        handle_request(&msg, &cache),
        Ok(Step::Lookup {
            domain: "www.example.com.".to_string(),
            query_domain: "example.com".to_string()
        })
    );
    assert_eq!(
        record_lookup(&mut cache, &"www.example.com.".to_string(), "{\"StateCode\":1}"),
        Ok(true)
    );
    assert_eq!(
        handle_request(&msg, &cache),
        Ok(Step::Forward("https://dns.alidns.com/dns-query".to_string()))
    );
}

#[test]
fn malformed_datagram_is_dropped_and_cache_untouched() {
    let cache = empty_cache();
    assert_eq!(handle_request(&[0x01, 0x02, 0x03], &cache), Err(ProxyError::Decode));
    assert_eq!(request_domain(&[]), Err(ProxyError::Decode));
    assert_eq!(cache.snapshot(), Ok("{}".to_string()));
}

#[test]
fn message_without_question_is_refused() {
    let cache = empty_cache();
    let msg = vec![0x12, 0x34, 0x01, 0x00, 0, 0, 0, 0, 0, 0, 0, 0];
    assert_eq!(handle_request(&msg, &cache), Err(ProxyError::NoQuestion));
}

#[test]
fn single_label_query_goes_to_the_foreign_resolver() {
    let cache = empty_cache();
    let msg = query_for(&["localhost"]);
    assert_eq!(request_domain(&msg), Ok("localhost.".to_string()));
    assert_eq!(handle_request(&msg, &cache), Ok(Step::Forward(upstream_url(false))));
    let root = query_for(&[]);
    assert_eq!(request_domain(&root), Ok(".".to_string()));
    assert_eq!(handle_request(&root, &cache), Ok(Step::Forward(upstream_url(false))));
}

#[test]
fn upstream_urls() {
    assert_eq!(upstream_url(true), "https://dns.alidns.com/dns-query");
    assert_eq!(upstream_url(false), "https://cloudflare-dns.com/dns-query");
}

#[test]
fn lookup_urls() {
    assert_eq!(
        lookup_url(Some("SECRET".to_string()), &"example.com".to_string()),
        Ok("https://apidata.chinaz.com/CallAPI/Domain?key=SECRET&domainName=example.com".to_string())
    );
    assert_eq!(
        lookup_url(None, &"example.com".to_string()),
        Err(ProxyError::MissingCredential)
    );
}

#[test]
fn route_ignores_the_cache() {
    let d = "www.example.com.".to_string();
    assert_eq!(route_domain(&d), Ok(Classification::Lookup("example.com".to_string())));
    assert_eq!(route_domain(&"example.cn.".to_string()), Ok(Classification::Known(true)));
    assert_eq!(route_domain(&"example.org.".to_string()), Ok(Classification::Known(false)));
    assert_eq!(route_domain(&"localhost".to_string()), Err(ProxyError::InvalidDomain));
}

#[test]
fn recorded_verdict_is_never_replaced() {
    let mut cache = empty_cache();
    let d = "www.example.com.".to_string();
    assert_eq!(record_lookup(&mut cache, &d, "{\"StateCode\":1}"), Ok(true));
    assert_eq!(record_lookup(&mut cache, &d, "{\"StateCode\":0}"), Ok(true));
    assert_eq!(record_lookup(&mut cache, &d, "not json"), Ok(true));
    assert_eq!(cache.snapshot(), Ok("{\"www.example.com.\":true}".to_string()));
}

#[test]
fn snapshot_with_escaped_names_loads_back() {
    let mut cache = empty_cache();
    cache.add_domain("quote\"d.example.com.".to_string(), true);
    cache.add_domain("back\\slash.example.net.".to_string(), false);
    let text = cache.snapshot().unwrap();
    assert!(!text.is_empty());
    let loaded = DomainCache::init("p".to_string(), &text).unwrap();
    assert_eq!(loaded.find_domain(&"quote\"d.example.com.".to_string()), Some(&true));
    assert_eq!(loaded.find_domain(&"back\\slash.example.net.".to_string()), Some(&false));
}
