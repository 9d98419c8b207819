//! Domain names as sequences of dot-separated labels.
use vstd::prelude::*;
use crate::cache::DomainCache;
use crate::error::ProxyError;

verus! {

/// The labels of `s`, split on every `.`; there is always at least one
/// (possibly empty) label.
pub open spec fn labels(s: Seq<char>) -> Seq<Seq<char>>
    decreases s.len(),
{
    if s.len() == 0 {
        seq![Seq::empty()]
    } else {
        let prev = labels(s.drop_last());
        if s.last() == '.' {
            prev.push(Seq::empty())
        } else {
            prev.update(prev.len() - 1, prev.last().push(s.last()))
        }
    }
}

pub proof fn lemma_labels_nonempty(s: Seq<char>)
    ensures
        labels(s).len() >= 1,
    decreases s.len(),
{
    if s.len() > 0 {
        lemma_labels_nonempty(s.drop_last());
    }
}

pub open spec fn string_views(v: Seq<String>) -> Seq<Seq<char>> {
    v.map_values(|x: String| x@)
}

/// Splits `domain` into its labels.
pub fn split_labels(domain: &str) -> (r: Vec<String>)
    ensures
        string_views(r@) == labels(domain@),
{
    let n = domain.unicode_len();
    let mut parts: Vec<String> = Vec::new();
    let mut start: usize = 0;
    let mut i: usize = 0;
    proof {
        assert(domain@.subrange(0, 0) =~= Seq::<char>::empty());
        assert(string_views(parts@).push(domain@.subrange(0, 0)) =~= seq![Seq::<char>::empty()]);
    }
    while i < n
        invariant
            n == domain@.len(),
            start <= i <= n,
            labels(domain@.subrange(0, i as int)) == string_views(parts@).push(
                domain@.subrange(start as int, i as int),
            ),
        decreases n - i,
    {
        let c = domain.get_char(i);
        let ghost s = domain@;
        proof {
            assert(s.subrange(0, i + 1).drop_last() =~= s.subrange(0, i as int));
            lemma_labels_nonempty(s.subrange(0, i as int));
        }
        if c == '.' {
            let part = String::from_str(domain.substring_char(start, i));
            let ghost old_views = string_views(parts@);
            parts.push(part);
            proof {
                assert(string_views(parts@) =~= old_views.push(s.subrange(start as int, i as int)));
                assert(s.subrange(i + 1, i + 1) =~= Seq::<char>::empty());
            }
            start = i + 1;
        } else {
            proof {
                assert(s.subrange(start as int, i + 1) =~= s.subrange(start as int, i as int).push(c));
                assert(string_views(parts@).push(s.subrange(start as int, i as int)).update(
                    string_views(parts@).len() as int,
                    s.subrange(start as int, i as int).push(c),
                ) =~= string_views(parts@).push(s.subrange(start as int, i + 1)));
            }
        }
        i = i + 1;
    }
    let last = String::from_str(domain.substring_char(start, n));
    let ghost views = string_views(parts@);
    parts.push(last);
    proof {
        assert(domain@.subrange(0, n as int) =~= domain@);
        assert(string_views(parts@) =~= views.push(domain@.subrange(start as int, n as int)));
    }
    parts
}


pub open spec fn cn() -> Seq<char> {
    seq!['c', 'n']
}

pub open spec fn com() -> Seq<char> {
    seq!['c', 'o', 'm']
}

pub open spec fn net() -> Seq<char> {
    seq!['n', 'e', 't']
}

/// What classifying a domain name comes to, before any registration lookup.
pub ghost enum Outcome {
    /// The verdict is settled: `true` for a domestic name.
    Known(bool),
    /// A registration lookup of the given second-level name is needed.
    Lookup(Seq<char>),
    /// The name cannot be classified.
    Failed(ProxyError),
}

/// The second-to-last label of `d`, which decides how it is classified.
pub open spec fn suffix_of(d: Seq<char>) -> Seq<char> {
    labels(d)[labels(d).len() - 2]
}

/// The canonical second-level name `name.suffix` of `d`, where `name` is
/// its third-to-last label.
pub open spec fn canonical_of(d: Seq<char>) -> Seq<char> {
    labels(d)[labels(d).len() - 3] + seq!['.'] + suffix_of(d)
}

/// How `d` is classified against the cached verdicts `m`: `.cn` names are
/// domestic, names under neither `com` nor `net` are not, and a `com` or
/// `net` name takes its cached verdict, or else needs a lookup of its
/// canonical second-level name.
pub open spec fn classify(d: Seq<char>, m: Map<Seq<char>, bool>) -> Outcome {
    if labels(d).len() < 2 {
        Outcome::Failed(ProxyError::InvalidDomain)
    } else if suffix_of(d) == cn() {
        Outcome::Known(true)
    } else if suffix_of(d) != com() && suffix_of(d) != net() {
        Outcome::Known(false)
    } else if labels(d).len() < 3 {
        Outcome::Failed(ProxyError::InvalidDomain)
    } else if m.contains_key(d) {
        Outcome::Known(m[d])
    } else {
        Outcome::Lookup(canonical_of(d))
    }
}

/// How a domain name is classified, short of a registration lookup.
#[derive(Debug, PartialEq, Eq)]
pub enum Classification {
    /// Settled, `true` meaning domestic.
    Known(bool),
    /// The second-level name whose registration must be looked up.
    Lookup(String),
}

pub open spec fn outcome_of(r: Result<Classification, ProxyError>) -> Outcome {
    match r {
        Ok(Classification::Known(b)) => Outcome::Known(b),
        Ok(Classification::Lookup(q)) => Outcome::Lookup(q@),
        Err(e) => Outcome::Failed(e),
    }
}

/// Whether the text of `s` is that of `lit`.
fn same_text(s: &String, lit: &str) -> (r: bool)
    ensures
        r == (s@ == lit@),
{
    let n = s.as_str().unicode_len();
    if n != lit.unicode_len() {
        return false;
    }
    let mut i: usize = 0;
    while i < n
        invariant
            n == s@.len() == lit@.len(),
            i <= n,
            forall|j: int| 0 <= j < i ==> s@[j] == lit@[j],
        decreases n - i,
    {
        if s.as_str().get_char(i) != lit.get_char(i) {
            return false;
        }
        i = i + 1;
    }
    assert(s@ =~= lit@);
    true
}

/// Classifies `domain` as if no verdict were cached: a `Lookup` here means
/// that the name is a `com` or `net` name, for which the cache is to be
/// consulted before any lookup.
pub fn route_domain(domain: &String) -> (r: Result<Classification, ProxyError>)
    ensures
        outcome_of(r) == classify(domain@, Map::empty()),
{
    let v = split_labels(domain.as_str());
    let ghost ls = labels(domain@);
    assert(v@.len() == ls.len());
    if v.len() < 2 {
        return Err(ProxyError::InvalidDomain);
    }
    let suffix = &v[v.len() - 2];
    assert(suffix@ == suffix_of(domain@));
    proof {
        reveal_strlit("cn");
        reveal_strlit("com");
        reveal_strlit("net");
        assert("cn"@ =~= cn());
        assert("com"@ =~= com());
        assert("net"@ =~= net());
    }
    if same_text(suffix, "cn") {
        return Ok(Classification::Known(true));
    }
    if !same_text(suffix, "com") && !same_text(suffix, "net") {
        return Ok(Classification::Known(false));
    }
    if v.len() < 3 {
        return Err(ProxyError::InvalidDomain);
    }
    let name = &v[v.len() - 3];
    assert(name@ == ls[ls.len() - 3]);
    let mut query = String::from_str(name.as_str());
    query.append(".");
    query.append(suffix.as_str());
    proof {
        reveal_strlit(".");
    }
    assert(query@ =~= canonical_of(domain@));
    Ok(Classification::Lookup(query))
}

/// Classifies `domain` against the verdicts that `cache` holds; the cache is
/// consulted only for `com` and `net` names.
pub fn is_china_domain(domain: &String, cache: &DomainCache) -> (r: Result<Classification, ProxyError>)
    requires
        cache.wf(),
    ensures
        outcome_of(r) == classify(domain@, cache@),
{
    match route_domain(domain)? {
        Classification::Known(b) => Ok(Classification::Known(b)),
        Classification::Lookup(query) => match cache.find_domain(domain) {
            Some(b) => Ok(Classification::Known(*b)),
            None => Ok(Classification::Lookup(query)),
        },
    }
}

/// A name whose second-to-last label is `cn` is domestic, whatever the
/// cache holds.
pub proof fn lemma_cn_is_domestic(d: Seq<char>, m: Map<Seq<char>, bool>)
    requires
        labels(d).len() >= 2,
        suffix_of(d) == cn(),
    ensures
        classify(d, m) == Outcome::Known(true),
{
}

/// A name whose second-to-last label is none of `cn`, `com` and `net` is not
/// domestic, whatever the cache holds.
pub proof fn lemma_other_suffix_is_foreign(d: Seq<char>, m: Map<Seq<char>, bool>)
    requires
        labels(d).len() >= 2,
        suffix_of(d) != cn(),
        suffix_of(d) != com(),
        suffix_of(d) != net(),
    ensures
        classify(d, m) == Outcome::Known(false),
{
}

/// Once the verdict `v` of a lookup for `d` has been recorded, classifying
/// `d` again gives `v` with no further lookup, and recording it again adds
/// no entry: a name is looked up at most once.
pub proof fn lemma_lookup_once(d: Seq<char>, m: Map<Seq<char>, bool>, v: bool)
    requires
        m.dom().finite(),
        classify(d, m) is Lookup,
    ensures
        classify(d, m.insert(d, v)) == Outcome::Known(v),
        m.insert(d, v).insert(d, v) == m.insert(d, v),
        m.insert(d, v).dom().len() == m.dom().len() + 1,
{
    assert(m.insert(d, v).insert(d, v) =~= m.insert(d, v));
}

} // verus!
