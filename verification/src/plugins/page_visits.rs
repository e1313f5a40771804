use vstd::prelude::*;

verus! {

/// What a visit-count table holds: counts keyed by URI.
pub uninterp spec fn visit_contents(m: chashmap::CHashMap<String, u32>) -> Map<Seq<char>, u32>;

/// A table with no visits counted yet.
pub open spec fn empty_visits() -> Map<Seq<char>, u32> {
    Map::empty()
}

/// The count recorded under a URI, if any.
pub open spec fn visit_lookup(m: Map<Seq<char>, u32>, url: Seq<char>) -> Option<u32> {
    if m.dom().contains(url) {
        Some(m[url])
    } else {
        None
    }
}

/// Relies on chashmap::CHashMap::new: a new map has no entries.
#[verifier::external_body]
fn visit_map_new() -> (m: chashmap::CHashMap<String, u32>)
    ensures
        visit_contents(m) == empty_visits(),
{
    chashmap::CHashMap::new()
}

/// Relies on chashmap::CHashMap::get: the value under the key, if any.
#[verifier::external_body]
fn visit_map_get(m: &chashmap::CHashMap<String, u32>, url: &str) -> (r: Option<u32>)
    ensures
        r == visit_lookup(visit_contents(*m), url@),
{
    m.get(&url.to_owned()).map(|g| *g)
}

/// Relies on chashmap::CHashMap::insert: replaces any existing entry
/// under the key.
#[verifier::external_body]
fn visit_map_set(m: &mut chashmap::CHashMap<String, u32>, url: &str, count: u32)
    ensures
        visit_contents(*final(m)) == visit_contents(*old(m)).insert(url@, count),
{
    let _ = m.insert(url.to_owned(), count);
}

/// One more visit recorded under `url`.  The count saturates at its
/// largest value rather than wrap.
pub open spec fn record_spec(m: Map<Seq<char>, u32>, url: Seq<char>) -> Map<Seq<char>, u32> {
    let prior = match visit_lookup(m, url) {
        Some(c) => c,
        None => 0u32,
    };
    m.insert(
        url,
        if prior < u32::MAX {
            (prior + 1) as u32
        } else {
            prior
        },
    )
}

/// `n` visits recorded in sequence.
pub open spec fn record_many(m: Map<Seq<char>, u32>, url: Seq<char>, n: nat) -> Map<Seq<char>, u32>
    decreases n,
{
    if n == 0 {
        m
    } else {
        record_spec(record_many(m, url, (n - 1) as nat), url)
    }
}

/// Law: `n` visits recorded one after another add exactly `n` to the
/// count — no lost updates — as long as the count does not saturate.
pub proof fn lemma_record_many_adds_n(m: Map<Seq<char>, u32>, url: Seq<char>, n: nat)
    requires
        n >= 1,
        (match visit_lookup(m, url) {
            Some(c) => c,
            None => 0u32,
        }) + n <= u32::MAX,
    ensures
        visit_lookup(record_many(m, url, n), url) == Some(
            (((match visit_lookup(m, url) {
                Some(c) => c,
                None => 0u32,
            }) + n) as u32),
        ),
    decreases n,
{
    if n == 1 {
        assert(record_many(m, url, 0nat) == m);
        assert(record_many(m, url, 1nat) == record_spec(m, url));
    } else {
        lemma_record_many_adds_n(m, url, (n - 1) as nat);
    }
}

/// Law: recording a visit under one URI leaves every other count alone.
pub proof fn lemma_record_other_urls_unchanged(
    m: Map<Seq<char>, u32>,
    url: Seq<char>,
    other: Seq<char>,
)
    requires
        other != url,
    ensures
        visit_lookup(record_spec(m, url), other) == visit_lookup(m, other),
{
}

/// Counts visits per URI in a concurrent table, so that requests on
/// different dispatch threads do not lose updates.
pub struct PageVisits {
    counts: chashmap::CHashMap<String, u32>,
}

impl PageVisits {
    /// The table's mathematical contents.
    pub closed spec fn counts_view(&self) -> Map<Seq<char>, u32> {
        visit_contents(self.counts)
    }

    pub fn new() -> (p: PageVisits)
        ensures
            p.counts_view() == empty_visits(),
    {
        PageVisits { counts: visit_map_new() }
    }

    /// The visits counted so far for a URI.
    pub fn get(&self, url: &str) -> (r: Option<u32>)
        ensures
            r == visit_lookup(self.counts_view(), url@),
    {
        visit_map_get(&self.counts, url)
    }

    /// Count one visit of `url`.
    pub fn record(&mut self, url: &str)
        ensures
            final(self).counts_view() == record_spec(old(self).counts_view(), url@),
    {
        let next: u32 = match visit_map_get(&self.counts, url) {
            Some(c) => if c < u32::MAX {
                c + 1
            } else {
                c
            },
            None => 1,
        };
        visit_map_set(&mut self.counts, url, next);
    }
}

} // verus!
