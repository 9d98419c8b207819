//! The classification cache: domain name to "is domestic" verdict.
use vstd::prelude::*;
use crate::json::{decode_verdicts, encode_verdicts, verdicts_from_json, verdicts_json};
use crate::error::ProxyError;

verus! {

/// The file the cache is kept in when no other is named.
pub const DEFAULT_CACHE_PATH: &'static str = "domain_cache.txt";

/// The pairs of `v` with each domain name seen through its view.
pub open spec fn entry_views(v: Seq<(String, bool)>) -> Seq<(Seq<char>, bool)> {
    v.map_values(|e: (String, bool)| (e.0@, e.1))
}

/// The mapping that inserting the pairs of `s` one after another yields.
pub open spec fn map_of(s: Seq<(Seq<char>, bool)>) -> Map<Seq<char>, bool>
    decreases s.len(),
{
    if s.len() == 0 {
        Map::empty()
    } else {
        map_of(s.drop_last()).insert(s.last().0, s.last().1)
    }
}

/// No domain name occurs twice in `s`.
pub open spec fn distinct_keys(s: Seq<(Seq<char>, bool)>) -> bool {
    forall|i: int, j: int| 0 <= i < j < s.len() ==> s[i].0 != s[j].0
}

pub proof fn lemma_map_of_contains(s: Seq<(Seq<char>, bool)>, k: Seq<char>)
    ensures
        map_of(s).contains_key(k) <==> exists|i: int| 0 <= i < s.len() && s[i].0 == k,
    decreases s.len(),
{
    if s.len() > 0 {
        lemma_map_of_contains(s.drop_last(), k);
        if map_of(s).contains_key(k) && k != s.last().0 {
            let i = choose|i: int| 0 <= i < s.len() - 1 && s.drop_last()[i].0 == k;
            assert(s[i].0 == k);
        }
        if exists|i: int| 0 <= i < s.len() && s[i].0 == k {
            let i = choose|i: int| 0 <= i < s.len() && s[i].0 == k;
            if i < s.len() - 1 {
                assert(s.drop_last()[i].0 == k);
            }
        }
    }
}

pub proof fn lemma_map_of_index(s: Seq<(Seq<char>, bool)>, i: int)
    requires
        distinct_keys(s),
        0 <= i < s.len(),
    ensures
        map_of(s).contains_key(s[i].0),
        map_of(s)[s[i].0] == s[i].1,
    decreases s.len(),
{
    if i < s.len() - 1 {
        assert(s.drop_last()[i] == s[i]);
        lemma_map_of_index(s.drop_last(), i);
    }
}

pub proof fn lemma_map_of_finite(s: Seq<(Seq<char>, bool)>)
    ensures
        map_of(s).dom().finite(),
    decreases s.len(),
{
    if s.len() > 0 {
        lemma_map_of_finite(s.drop_last());
    }
}

/// The verdicts that a snapshot with text `content` holds: none where the
/// text is empty, else those of the JSON object that the text must be.
pub open spec fn snapshot_contents(content: Seq<char>) -> Option<Map<Seq<char>, bool>> {
    if content.len() == 0 {
        Some(Map::empty())
    } else {
        verdicts_from_json(content)
    }
}

/// The verdicts known so far, and the file they are kept in.
pub struct DomainCache {
    list: Vec<(String, bool)>,
    cache_path: String,
}

impl View for DomainCache {
    type V = Map<Seq<char>, bool>;

    closed spec fn view(&self) -> Map<Seq<char>, bool> {
        map_of(entry_views(self.list@))
    }
}

/// `path` if there is one, else the default cache file.
pub fn cache_path_or_default(cache_path: Option<String>) -> (r: String)
    ensures
        r@ == (match cache_path {
            Some(p) => p@,
            None => DEFAULT_CACHE_PATH@,
        }),
{
    match cache_path {
        Some(p) => p,
        None => String::from_str(DEFAULT_CACHE_PATH),
    }
}

/// A cache holds finitely many verdicts.
pub proof fn lemma_cache_finite(c: &DomainCache)
    ensures
        c@.dom().finite(),
{
    lemma_map_of_finite(entry_views(c.list@));
}

impl DomainCache {
    /// Each domain name is held once.
    pub closed spec fn wf(&self) -> bool {
        distinct_keys(entry_views(self.list@))
    }

    /// Where the snapshot of this cache is kept.
    pub closed spec fn path(&self) -> Seq<char> {
        self.cache_path@
    }

    /// An empty cache kept in `cache_path`.
    pub fn new(cache_path: String) -> (r: DomainCache)
        ensures
            r.wf(),
            r@ == Map::<Seq<char>, bool>::empty(),
            r.path() == cache_path@,
    {
        let r = DomainCache { list: Vec::new(), cache_path };
        assert(entry_views(r.list@) =~= Seq::empty());
        r
    }

    /// The cache that a snapshot with text `content` holds: empty where the
    /// text is empty, else the JSON object of domain names to verdicts that
    /// the text must be.
    pub fn init(cache_path: String, content: &str) -> (r: Result<DomainCache, ProxyError>)
        ensures
            match snapshot_contents(content@) {
                Some(m) => (r matches Ok(c) && c@ == m),
                None => r == Err::<DomainCache, ProxyError>(ProxyError::CacheIo),
            },
            r matches Ok(c) ==> c.wf() && c.path() == cache_path@,
    {
        if content.is_empty() {
            return Ok(DomainCache::new(cache_path));
        }
        match decode_verdicts(content) {
            Ok(list) => Ok(DomainCache { list, cache_path }),
            Err(_) => Err(ProxyError::CacheIo),
        }
    }

    /// The file that the snapshot is written to.
    pub fn cache_path(&self) -> (r: &String)
        ensures
            r@ == self.path(),
    {
        &self.cache_path
    }

    /// The text of a snapshot of the whole cache: one JSON object, which
    /// `init` reads back as exactly the cache's verdicts.
    pub fn snapshot(&self) -> (r: Result<String, ProxyError>)
        requires
            self.wf(),
        ensures
            r matches Ok(s) && s@ == verdicts_json(self@) && snapshot_contents(s@) == Some(self@),
    {
        match encode_verdicts(&self.list) {
            Ok(s) => Ok(s),
            Err(_) => Err(ProxyError::CacheIo),
        }
    }

    /// The verdict cached for `item`, if any.
    pub fn find_domain(&self, item: &String) -> (r: Option<&bool>)
        requires
            self.wf(),
        ensures
            match r {
                Some(v) => self@.contains_key(item@) && *v == self@[item@],
                None => !self@.contains_key(item@),
            },
    {
        let i = self.position(item);
        match i {
            Some(i) => Some(&self.list[i].1),
            None => None,
        }
    }

    fn position(&self, item: &String) -> (r: Option<usize>)
        requires
            self.wf(),
        ensures
            match r {
                Some(i) => i < self.list@.len() && self.list@[i as int].0@ == item@
                    && self@.contains_key(item@) && self@[item@] == self.list@[i as int].1,
                None => !self@.contains_key(item@),
            },
    {
        let ghost s = entry_views(self.list@);
        let mut i: usize = 0;
        while i < self.list.len()
            invariant
                s == entry_views(self.list@),
                self.wf(),
                i <= self.list@.len(),
                forall|j: int| 0 <= j < i ==> s[j].0 != item@,
            decreases self.list@.len() - i,
        {
            if self.list[i].0 == *item {
                proof {
                    lemma_map_of_index(s, i as int);
                }
                return Some(i);
            }
            i = i + 1;
        }
        proof {
            lemma_map_of_contains(s, item@);
        }
        None
    }

    /// Records `value` as the verdict for `item`; returns the verdict it
    /// replaces, if any.
    pub fn add_domain(&mut self, item: String, value: bool) -> (r: Option<bool>)
        requires
            old(self).wf(),
        ensures
            final(self).wf(),
            final(self)@ == old(self)@.insert(item@, value),
            final(self).path() == old(self).path(),
            r == (if old(self)@.contains_key(item@) {
                Some(old(self)@[item@])
            } else {
                None
            }),
    {
        let ghost s = entry_views(self.list@);
        let ghost k = item@;
        match self.position(&item) {
            Some(i) => {
                let prev = self.list[i].1;
                self.list[i] = (item, value);
                proof {
                    let t = entry_views(self.list@);
                    assert(s[i as int].0 == k);
                    assert(t =~= s.update(i as int, (k, value)));
                    assert forall|j: int| 0 <= j < t.len() implies #[trigger] t[j].0 == s[j].0 by {}
                    assert(distinct_keys(t));
                    assert forall|x: Seq<char>|
                        #[trigger] map_of(t).contains_key(x) == old(self)@.insert(k, value).contains_key(x) by {
                        lemma_map_of_contains(t, x);
                        lemma_map_of_contains(s, x);
                        if map_of(t).contains_key(x) {
                            let j = choose|j: int| 0 <= j < t.len() && t[j].0 == x;
                            if j != i {
                                assert(s[j].0 == x);
                            }
                        }
                        if old(self)@.contains_key(x) {
                            let j = choose|j: int| 0 <= j < s.len() && s[j].0 == x;
                            assert(t[j].0 == x);
                        }
                    }
                    assert forall|x: Seq<char>| #[trigger] map_of(t).contains_key(x)
                        implies map_of(t)[x] == old(self)@.insert(k, value)[x] by {
                        lemma_map_of_contains(t, x);
                        let j = choose|j: int| 0 <= j < t.len() && t[j].0 == x;
                        lemma_map_of_index(t, j);
                        if j != i {
                            lemma_map_of_index(s, j);
                        }
                    }
                    assert(self@ =~= old(self)@.insert(k, value));
                }
                Some(prev)
            },
            None => {
                self.list.push((item, value));
                proof {
                    let t = entry_views(self.list@);
                    assert(t =~= s.push((k, value)));
                    assert(t.drop_last() =~= s);
                    lemma_map_of_contains(s, k);
                }
                None
            },
        }
    }
}

} // verus!
