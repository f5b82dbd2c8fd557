//! The counter-store client: the key scheme and the computational half of
//! every store operation.
//!
//! The process that owns the actual store connection reads and writes raw
//! values at the keys this module computes; every decision about those
//! values — decoding, masking of malformed records, the read-modify-write
//! of an increment — stands here, verified.  Each method takes the raw
//! stored value as an argument and returns what must be written back.

use vstd::prelude::*;
use vstd::string::StringExecFns;
use crate::json::json_of;
use crate::json::parse_stats;
use crate::json::stats_from_json;
use crate::json::stats_to_json;
use crate::stats::PageStats;
use crate::stats::StatsModel;
use crate::stats::zero_stats;

verus! {

/// The view of an optional raw stored value.
pub open spec fn view_opt_str(o: Option<&str>) -> Option<Seq<char>> {
    match o {
        Some(s) => Some(s@),
        None => None,
    }
}

/// The view of an optional record.
pub open spec fn view_opt_stats(o: Option<PageStats>) -> Option<StatsModel> {
    match o {
        Some(p) => Some(p@),
        None => None,
    }
}

/// The storage key of a slug's record.
pub open spec fn key_of(prefix: Seq<char>, slug: Seq<char>) -> Seq<char> {
    prefix + ":post:"@ + slug + ":page_stats"@
}

/// The key pattern that matches every record key of one deployment.
pub open spec fn pattern_of(prefix: Seq<char>) -> Seq<char> {
    prefix + ":post:*:page_stats"@
}

/// What a read of a slug's raw stored value means: an absent key is
/// reported as absent, a malformed value is masked with the zero-valued
/// record for that slug, a well-formed value is the record it encodes.
pub open spec fn read_stored(slug: Seq<char>, stored: Option<Seq<char>>) -> Option<StatsModel> {
    match stored {
        None => None,
        Some(j) => match parse_stats(j) {
            Some(m) => Some(m),
            None => Some(zero_stats(slug)),
        },
    }
}

/// The record a slug holds for an increment: as [`read_stored`], with an
/// absent key standing for the zero-valued record.
pub open spec fn decode_or_default(slug: Seq<char>, stored: Option<Seq<char>>) -> StatsModel {
    match read_stored(slug, stored) {
        Some(m) => m,
        None => zero_stats(slug),
    }
}

/// The records among a sequence of raw stored values, in order, skipping
/// every value that does not parse.
pub open spec fn list_decode(vals: Seq<Seq<char>>) -> Seq<StatsModel>
    decreases vals.len(),
{
    if vals.len() == 0 {
        Seq::<StatsModel>::empty()
    } else {
        list_decode(vals.drop_last()) + (match parse_stats(vals.last()) {
            Some(m) => seq![m],
            None => Seq::<StatsModel>::empty(),
        })
    }
}

/// The configuration of the page-stats store client: where the store
/// lives and the environment prefix that namespaces its keys.  The
/// connection itself is owned by the unverified process edge; everything
/// the client decides is computed here.
pub struct RedisPageStatsClient {
    pub redis_url: String,
    pub env_prefix: String,
}

impl RedisPageStatsClient {
    /// A client for the store at `redis_url`, namespacing keys with
    /// `env_prefix`.
    pub fn new(redis_url: &str, env_prefix: &str) -> (r: Self)
        ensures
            r.redis_url@ == redis_url@,
            r.env_prefix@ == env_prefix@,
    {
        Self { redis_url: redis_url.to_owned(), env_prefix: env_prefix.to_owned() }
    }

    /// The storage key for a slug: `<env>:post:<slug>:page_stats`.
    pub fn generate_key(&self, slug: &str) -> (r: String)
        ensures
            r@ == key_of(self.env_prefix@, slug@),
    {
        let mut r = self.env_prefix.clone();
        r.append(":post:");
        r.append(slug);
        r.append(":page_stats");
        proof {
            assert(r@ =~= key_of(self.env_prefix@, slug@));
        }
        r
    }

    /// The key pattern for a scan over every record of this deployment.
    pub fn scan_pattern(&self) -> (r: String)
        ensures
            r@ == pattern_of(self.env_prefix@),
    {
        let mut r = self.env_prefix.clone();
        r.append(":post:*:page_stats");
        proof {
            assert(r@ =~= pattern_of(self.env_prefix@));
        }
        r
    }

    /// Reads a record out of the raw value stored at the slug's key, as
    /// [`read_stored`] describes: absent stays absent, a malformed value
    /// is masked with the zero-valued record rather than surfaced.
    pub fn get_page_stats(&self, slug: &str, stored: Option<&str>) -> (r: Option<PageStats>)
        ensures
            view_opt_stats(r) == read_stored(slug@, view_opt_str(stored)),
    {
        match stored {
            None => None,
            Some(j) => match stats_from_json(j) {
                Some(stats) => Some(stats),
                None => Some(PageStats::new(slug)),
            },
        }
    }

    /// What a write of `stats` performs: the pair of the storage key and
    /// the JSON value to place there.
    pub fn set_page_stats(&self, stats: &PageStats) -> (r: (String, String))
        ensures
            r.0@ == key_of(self.env_prefix@, stats.slug@),
            r.1@ == json_of(stats@),
    {
        (self.generate_key(stats.slug.as_str()), stats_to_json(stats))
    }

    /// The read-modify-write of a view increment: the updated record and
    /// the JSON value to write back at the slug's key.
    pub fn increment_views(&self, slug: &str, stored: Option<&str>) -> (r: (PageStats, String))
        requires
            decode_or_default(slug@, view_opt_str(stored)).views < u64::MAX,
        ensures
            r.0@ == (StatsModel {
                views: (decode_or_default(slug@, view_opt_str(stored)).views + 1) as u64,
                ..decode_or_default(slug@, view_opt_str(stored))
            }),
            r.1@ == json_of(r.0@),
    {
        let mut stats = match self.get_page_stats(slug, stored) {
            Some(s) => s,
            None => PageStats::new(slug),
        };
        stats.increment_views();
        let value = stats_to_json(&stats);
        (stats, value)
    }

    /// The read-modify-write of a read increment.
    pub fn increment_reads(&self, slug: &str, stored: Option<&str>) -> (r: (PageStats, String))
        requires
            decode_or_default(slug@, view_opt_str(stored)).reads < u64::MAX,
        ensures
            r.0@ == (StatsModel {
                reads: (decode_or_default(slug@, view_opt_str(stored)).reads + 1) as u64,
                ..decode_or_default(slug@, view_opt_str(stored))
            }),
            r.1@ == json_of(r.0@),
    {
        let mut stats = match self.get_page_stats(slug, stored) {
            Some(s) => s,
            None => PageStats::new(slug),
        };
        stats.increment_reads();
        let value = stats_to_json(&stats);
        (stats, value)
    }

    /// The read-modify-write of a like increment.
    pub fn increment_likes(&self, slug: &str, stored: Option<&str>) -> (r: (PageStats, String))
        requires
            decode_or_default(slug@, view_opt_str(stored)).likes < u64::MAX,
        ensures
            r.0@ == (StatsModel {
                likes: (decode_or_default(slug@, view_opt_str(stored)).likes + 1) as u64,
                ..decode_or_default(slug@, view_opt_str(stored))
            }),
            r.1@ == json_of(r.0@),
    {
        let mut stats = match self.get_page_stats(slug, stored) {
            Some(s) => s,
            None => PageStats::new(slug),
        };
        stats.increment_likes();
        let value = stats_to_json(&stats);
        (stats, value)
    }

    /// The read-modify-write that accumulates `seconds` onto the slug's
    /// stored reading time.
    pub fn add_time(&self, slug: &str, seconds: u64, stored: Option<&str>) -> (r: (
        PageStats,
        String,
    ))
        requires
            decode_or_default(slug@, view_opt_str(stored)).time + seconds <= u64::MAX,
        ensures
            r.0@ == (StatsModel {
                time: (decode_or_default(slug@, view_opt_str(stored)).time + seconds) as u64,
                ..decode_or_default(slug@, view_opt_str(stored))
            }),
            r.1@ == json_of(r.0@),
    {
        let mut stats = match self.get_page_stats(slug, stored) {
            Some(s) => s,
            None => PageStats::new(slug),
        };
        stats.add_time(seconds);
        let value = stats_to_json(&stats);
        (stats, value)
    }

    /// The records among the raw values found by a scan, in scan order,
    /// silently skipping every value that does not parse.
    pub fn get_all_page_stats(&self, values: &Vec<String>) -> (r: Vec<PageStats>)
        ensures
            r.deep_view() == list_decode(values.deep_view()),
    {
        let mut all: Vec<PageStats> = Vec::new();
        let n = values.len();
        let mut i: usize = 0;
        proof {
            assert(values.deep_view().subrange(0, 0) =~= Seq::<Seq<char>>::empty());
            assert(all.deep_view() =~= Seq::<StatsModel>::empty());
        }
        while i < n
            invariant
                n == values@.len(),
                i <= n,
                values.deep_view().len() == n,
                all.deep_view() == list_decode(values.deep_view().subrange(0, i as int)),
            decreases n - i,
        {
            let ghost pre = values.deep_view().subrange(0, i as int);
            let ghost cur = values.deep_view().subrange(0, i + 1);
            proof {
                assert(cur.drop_last() =~= pre);
                assert(cur.last() == values.deep_view()[i as int]);
                assert(values.deep_view()[i as int] == values@[i as int]@);
            }
            match stats_from_json(values[i].as_str()) {
                Some(stats) => {
                    let ghost before = all.deep_view();
                    all.push(stats);
                    proof {
                        assert(all.deep_view() =~= before + seq![stats@]);
                        assert(all.deep_view() =~= list_decode(cur));
                    }
                },
                None => {
                    proof {
                        assert(list_decode(cur) =~= list_decode(pre)
                            + Seq::<StatsModel>::empty());
                        assert(all.deep_view() =~= list_decode(cur));
                    }
                },
            }
            i = i + 1;
        }
        proof {
            assert(values.deep_view().subrange(0, n as int) =~= values.deep_view());
        }
        all
    }
}

// ---------------------------------------------------------------------------
// Laws of the store client.
// ---------------------------------------------------------------------------

/// A slug that was never written reads as the zero-valued record: absent
/// keys and malformed values alike decode to all-zero counters under the
/// given slug.
pub proof fn lemma_absent_reads_zero(slug: Seq<char>)
    ensures
        decode_or_default(slug, None) == zero_stats(slug),
        decode_or_default(slug, None).views == 0,
        decode_or_default(slug, None).likes == 0,
        decode_or_default(slug, None).reads == 0,
        decode_or_default(slug, None).time == 0,
        decode_or_default(slug, None).slug == slug,
{
}

/// A view increment followed by a read shows `views` grown by exactly one
/// and every other field unchanged, when no other writer interferes: the
/// value the increment writes back decodes to precisely the incremented
/// record.
pub proof fn lemma_increment_views_then_get(slug: Seq<char>, stored: Option<Seq<char>>)
    requires
        decode_or_default(slug, stored).views < u64::MAX,
    ensures
        ({
            let before = decode_or_default(slug, stored);
            let after = StatsModel { views: (before.views + 1) as u64, ..before };
            decode_or_default(slug, Some(json_of(after))) == after
                && decode_or_default(slug, Some(json_of(after))).views == before.views + 1
                && decode_or_default(slug, Some(json_of(after))).likes == before.likes
                && decode_or_default(slug, Some(json_of(after))).reads == before.reads
                && decode_or_default(slug, Some(json_of(after))).time == before.time
        }),
{
    let before = decode_or_default(slug, stored);
    let after = StatsModel { views: (before.views + 1) as u64, ..before };
    crate::json::lemma_parse_of_json(after);
}

/// A like increment followed by a read, likewise: `likes` grows by one
/// and `views` is untouched — the two counters are independent.
pub proof fn lemma_increment_likes_then_get(slug: Seq<char>, stored: Option<Seq<char>>)
    requires
        decode_or_default(slug, stored).likes < u64::MAX,
    ensures
        ({
            let before = decode_or_default(slug, stored);
            let after = StatsModel { likes: (before.likes + 1) as u64, ..before };
            decode_or_default(slug, Some(json_of(after))) == after
                && decode_or_default(slug, Some(json_of(after))).likes == before.likes + 1
                && decode_or_default(slug, Some(json_of(after))).views == before.views
                && decode_or_default(slug, Some(json_of(after))).reads == before.reads
                && decode_or_default(slug, Some(json_of(after))).time == before.time
        }),
{
    let before = decode_or_default(slug, stored);
    let after = StatsModel { likes: (before.likes + 1) as u64, ..before };
    crate::json::lemma_parse_of_json(after);
}

/// The documented lost update: two view increments on a fresh slug that
/// both read the key before either wrote it each compute `views == 1`, so
/// whichever write lands last leaves the slug at one view, not two.  The
/// read-modify-write is last-writer-wins by design.
pub proof fn lemma_concurrent_increments_lose_update(slug: Seq<char>)
    ensures
        ({
            let first = StatsModel { views: 1, ..zero_stats(slug) };
            let second = StatsModel { views: 1, ..zero_stats(slug) };
            first == (StatsModel {
                views: (decode_or_default(slug, None).views + 1) as u64,
                ..decode_or_default(slug, None)
            }) && second == (StatsModel {
                views: (decode_or_default(slug, None).views + 1) as u64,
                ..decode_or_default(slug, None)
            }) && decode_or_default(slug, Some(json_of(second))).views == 1
        }),
{
    let second = StatsModel { views: 1, ..zero_stats(slug) };
    crate::json::lemma_parse_of_json(second);
}

/// Listing is independent of how a scan batches its values: decoding the
/// concatenation of two batches gives the records of the first batch
/// followed by the records of the second.
pub proof fn lemma_list_decode_append(a: Seq<Seq<char>>, b: Seq<Seq<char>>)
    ensures
        list_decode(a + b) == list_decode(a) + list_decode(b),
    decreases b.len(),
{
    if b.len() == 0 {
        assert(a + b =~= a);
        assert(list_decode(a) + Seq::<StatsModel>::empty() =~= list_decode(a));
        assert(list_decode(b) =~= Seq::<StatsModel>::empty());
    } else {
        lemma_list_decode_append(a, b.drop_last());
        assert((a + b).drop_last() =~= a + b.drop_last());
        assert((a + b).last() == b.last());
        assert(list_decode(a + b) =~= list_decode(a) + list_decode(b));
    }
}

/// Every value written in canonical form comes back from a scan that
/// lists it: when each raw value parses to its record, decoding the whole
/// scan yields exactly those records, in order.  With
/// [`crate::json::lemma_parse_of_json`] this says that writing records for
/// any set of slugs and then listing their raw values returns them all.
pub proof fn lemma_list_of_written(vals: Seq<Seq<char>>, recs: Seq<StatsModel>)
    requires
        vals.len() == recs.len(),
        forall|i: int| 0 <= i < vals.len() ==> parse_stats(#[trigger] vals[i]) == Some(recs[i]),
    ensures
        list_decode(vals) == recs,
    decreases vals.len(),
{
    if vals.len() == 0 {
        assert(recs =~= Seq::<StatsModel>::empty());
    } else {
        lemma_list_of_written(vals.drop_last(), recs.drop_last());
        assert(parse_stats(vals.last()) == Some(recs.last()));
        assert(list_decode(vals) =~= recs);
    }
}

} // verus!
