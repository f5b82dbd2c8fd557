//! The decision layer of the HTTP service: request validation and the
//! outcome of each endpoint.
//!
//! Each endpoint function takes the raw stored value of the slug it works
//! on and returns the record to serve together with the value to write
//! back, if the endpoint writes at all.  The unverified HTTP edge routes
//! requests, performs the store reads and writes, and maps the error
//! values onto status codes.

use vstd::prelude::*;
use vstd::string::StrSliceExecFns;
use vstd::string::StringExecFns;
use crate::client::RedisPageStatsClient;
use crate::client::decode_or_default;
use crate::client::view_opt_str;
use crate::json::json_of;
use crate::json::match_tok;
use crate::json::scan_string;
use crate::json::scan_string_exec;
use crate::json::scan_u64;
use crate::json::scan_u64_exec;
use crate::json::stats_to_json;
use crate::json::tok_at;
use crate::stats::PageStats;
use crate::stats::StatsModel;
use crate::text::str_eq;

verus! {

/// The two counters a client may ask the service to increment.
#[derive(Clone, Copy, Debug, PartialEq, Eq, Structural)]
pub enum IncrementKind {
    Views,
    Likes,
}

/// Why the service turns a request away: either the body is not the JSON
/// shape the endpoint takes, or it names an increment type that does not
/// exist.  Both are client errors; store failures never reach this layer.
#[derive(Clone, Copy, Debug, PartialEq, Eq, Structural)]
pub enum ServiceError {
    MalformedBody,
    InvalidIncrementType,
}

/// The view of an optional value-to-write.
pub open spec fn view_opt_string(o: Option<String>) -> Option<Seq<char>> {
    match o {
        Some(s) => Some(s@),
        None => None,
    }
}

/// Which counter an increment-type string names: exactly `views` and
/// `likes` are supported, everything else is rejected.
pub open spec fn kind_of(s: Seq<char>) -> Option<IncrementKind> {
    if s == "views"@ {
        Some(IncrementKind::Views)
    } else if s == "likes"@ {
        Some(IncrementKind::Likes)
    } else {
        None
    }
}

/// `{"increment_type":"` — the opening of an increment request body.
pub open spec fn tok_increment_open() -> Seq<char> {
    seq![
        '{',
        '"',
        'i',
        'n',
        'c',
        'r',
        'e',
        'm',
        'e',
        'n',
        't',
        '_',
        't',
        'y',
        'p',
        'e',
        '"',
        ':',
        '"',
    ]
}

/// `{"seconds":` — the opening of a reading-time request body.
pub open spec fn tok_seconds_open() -> Seq<char> {
    seq!['{', '"', 's', 'e', 'c', 'o', 'n', 'd', 's', '"', ':']
}

/// The increment-type string carried by an increment request body, when
/// the body is the canonical `{"increment_type":"<value>"}` object.
pub open spec fn parse_increment_body(s: Seq<char>) -> Option<Seq<char>> {
    if !match_tok(s, 0, tok_increment_open()) {
        None
    } else {
        match scan_string(s, tok_increment_open().len() as int) {
            None => None,
            Some((v, j)) => {
                if j + 1 == s.len() && s[j] == '}' {
                    Some(v)
                } else {
                    None
                }
            },
        }
    }
}

/// The counter an increment request body asks for, when the body parses
/// and names a supported type.
pub open spec fn increment_request_kind(s: Seq<char>) -> Option<IncrementKind> {
    match parse_increment_body(s) {
        Some(v) => kind_of(v),
        None => None,
    }
}

/// The seconds value carried by a reading-time request body, when the
/// body is the canonical `{"seconds":<n>}` object.
pub open spec fn parse_time_body(s: Seq<char>) -> Option<u64> {
    if !match_tok(s, 0, tok_seconds_open()) {
        None
    } else {
        match scan_u64(s, tok_seconds_open().len() as int) {
            None => None,
            Some((v, j)) => {
                if j + 1 == s.len() && s[j] == '}' {
                    Some(v)
                } else {
                    None
                }
            },
        }
    }
}

/// The health endpoint: always the same static answer.
pub fn health_check() -> (r: &'static str)
    ensures
        r@ == "OK"@,
{
    "OK"
}

/// Which counter an increment-type string names, as [`kind_of`].
pub fn parse_increment_type(s: &str) -> (r: Option<IncrementKind>)
    ensures
        r == kind_of(s@),
{
    if str_eq(s, "views") {
        Some(IncrementKind::Views)
    } else if str_eq(s, "likes") {
        Some(IncrementKind::Likes)
    } else {
        None
    }
}

/// Reads an increment request body, as [`parse_increment_body`].
pub fn parse_increment_request(s: &str) -> (r: Option<String>)
    ensures
        (match r {
            Some(v) => parse_increment_body(s@) == Some(v@),
            None => parse_increment_body(s@) is None,
        }),
{
    proof {
        reveal_strlit("{\"increment_type\":\"");
        assert("{\"increment_type\":\""@ =~= tok_increment_open());
    }
    if !tok_at(s, 0, "{\"increment_type\":\"") {
        return None;
    }
    match scan_string_exec(s, 19) {
        None => None,
        Some((v, j)) => {
            let n = s.unicode_len();
            if j < n && j + 1 == n && s.get_char(j) == '}' {
                Some(v)
            } else {
                None
            }
        },
    }
}

/// Reads a reading-time request body, as [`parse_time_body`].
pub fn parse_time_request(s: &str) -> (r: Option<u64>)
    ensures
        r == parse_time_body(s@),
{
    proof {
        reveal_strlit("{\"seconds\":");
        assert("{\"seconds\":"@ =~= tok_seconds_open());
    }
    if !tok_at(s, 0, "{\"seconds\":") {
        return None;
    }
    match scan_u64_exec(s, 11) {
        None => None,
        Some((v, j)) => {
            let n = s.unicode_len();
            if j < n && j + 1 == n && s.get_char(j) == '}' {
                Some(v)
            } else {
                None
            }
        },
    }
}

/// The stats read endpoint.  With `track_view` the read is a write: the
/// slug's view counter grows by one as a side effect and the grown record
/// is both returned and written back.  Without it nothing is written, and
/// a slug never written reads as the zero-valued record.
pub fn get_stats_step(
    client: &RedisPageStatsClient,
    slug: &str,
    track_view: bool,
    stored: Option<&str>,
) -> (r: (PageStats, Option<String>))
    requires
        track_view ==> decode_or_default(slug@, view_opt_str(stored)).views < u64::MAX,
    ensures
        r.0@ == (if track_view {
            StatsModel {
                views: (decode_or_default(slug@, view_opt_str(stored)).views + 1) as u64,
                ..decode_or_default(slug@, view_opt_str(stored))
            }
        } else {
            decode_or_default(slug@, view_opt_str(stored))
        }),
        view_opt_string(r.1) == (if track_view {
            Some(json_of(r.0@))
        } else {
            None::<Seq<char>>
        }),
{
    if track_view {
        let (stats, value) = client.increment_views(slug, stored);
        (stats, Some(value))
    } else {
        let stats = match client.get_page_stats(slug, stored) {
            Some(s) => s,
            None => PageStats::new(slug),
        };
        (stats, None)
    }
}

/// The increment endpoint.  A body that is not the canonical increment
/// object, or that names anything but `views` or `likes`, is rejected
/// without producing a value to write — stored state cannot change.  A
/// valid request yields the grown record and the value to write back.
pub fn increment_stats_step(
    client: &RedisPageStatsClient,
    slug: &str,
    body: &str,
    stored: Option<&str>,
) -> (r: Result<(PageStats, String), ServiceError>)
    requires
        (match increment_request_kind(body@) {
            Some(IncrementKind::Views) => decode_or_default(slug@, view_opt_str(stored)).views
                < u64::MAX,
            Some(IncrementKind::Likes) => decode_or_default(slug@, view_opt_str(stored)).likes
                < u64::MAX,
            None => true,
        }),
    ensures
        (parse_increment_body(body@) is None ==> r == Err::<(PageStats, String), ServiceError>(
            ServiceError::MalformedBody,
        )),
        (parse_increment_body(body@) matches Some(v) && kind_of(v) is None ==> r == Err::<
            (PageStats, String),
            ServiceError,
        >(ServiceError::InvalidIncrementType)),
        (increment_request_kind(body@) == Some(IncrementKind::Views) ==> (r matches Ok(p)
            && p.0@ == (StatsModel {
            views: (decode_or_default(slug@, view_opt_str(stored)).views + 1) as u64,
            ..decode_or_default(slug@, view_opt_str(stored))
        }) && p.1@ == json_of(p.0@))),
        (increment_request_kind(body@) == Some(IncrementKind::Likes) ==> (r matches Ok(p)
            && p.0@ == (StatsModel {
            likes: (decode_or_default(slug@, view_opt_str(stored)).likes + 1) as u64,
            ..decode_or_default(slug@, view_opt_str(stored))
        }) && p.1@ == json_of(p.0@))),
{
    match parse_increment_request(body) {
        None => Err(ServiceError::MalformedBody),
        Some(v) => match parse_increment_type(v.as_str()) {
            None => Err(ServiceError::InvalidIncrementType),
            Some(IncrementKind::Views) => Ok(client.increment_views(slug, stored)),
            Some(IncrementKind::Likes) => Ok(client.increment_likes(slug, stored)),
        },
    }
}

/// The reading-time endpoint: accumulates the seconds of a valid
/// `{"seconds":<n>}` body onto the slug's stored time and yields the
/// updated record with the value to write back; any other body is
/// rejected without a write.
pub fn set_reading_time_step(
    client: &RedisPageStatsClient,
    slug: &str,
    body: &str,
    stored: Option<&str>,
) -> (r: Result<(PageStats, String), ServiceError>)
    requires
        (match parse_time_body(body@) {
            Some(sec) => decode_or_default(slug@, view_opt_str(stored)).time + sec <= u64::MAX,
            None => true,
        }),
    ensures
        (parse_time_body(body@) is None ==> r == Err::<(PageStats, String), ServiceError>(
            ServiceError::MalformedBody,
        )),
        (parse_time_body(body@) matches Some(sec) ==> (r matches Ok(p) && p.0@ == (StatsModel {
            time: (decode_or_default(slug@, view_opt_str(stored)).time + sec) as u64,
            ..decode_or_default(slug@, view_opt_str(stored))
        }) && p.1@ == json_of(p.0@))),
{
    match parse_time_request(body) {
        None => Err(ServiceError::MalformedBody),
        Some(seconds) => Ok(client.add_time(slug, seconds, stored)),
    }
}

/// The comma-separated record texts inside a list response.
pub open spec fn json_items(ms: Seq<StatsModel>) -> Seq<char>
    decreases ms.len(),
{
    if ms.len() == 0 {
        Seq::<char>::empty()
    } else if ms.len() == 1 {
        json_of(ms[0])
    } else {
        json_items(ms.drop_last()) + seq![','] + json_of(ms.last())
    }
}

/// The JSON array the list endpoint serves.
pub open spec fn json_list_of(ms: Seq<StatsModel>) -> Seq<char> {
    seq!['['] + json_items(ms) + seq![']']
}

/// Writes the list endpoint's response: the records as one JSON array, in
/// the order given.
pub fn encode_stats_list(stats: &Vec<PageStats>) -> (r: String)
    ensures
        r@ == json_list_of(stats.deep_view()),
{
    let mut r = String::new();
    r.append("[");
    let n = stats.len();
    let mut i: usize = 0;
    proof {
        reveal_strlit("[");
        assert("["@ =~= seq!['[']);
        assert(stats.deep_view().subrange(0, 0) =~= Seq::<StatsModel>::empty());
        assert(r@ =~= seq!['['] + json_items(stats.deep_view().subrange(0, 0)));
    }
    while i < n
        invariant
            n == stats@.len(),
            stats.deep_view().len() == n,
            i <= n,
            r@ == seq!['['] + json_items(stats.deep_view().subrange(0, i as int)),
        decreases n - i,
    {
        if i > 0 {
            r.append(",");
        }
        r.append(stats_to_json(&stats[i]).as_str());
        proof {
            reveal_strlit(",");
            assert(","@ =~= seq![',']);
            let ghost pre = stats.deep_view().subrange(0, i as int);
            let ghost cur = stats.deep_view().subrange(0, i + 1);
            assert(cur.drop_last() =~= pre);
            assert(cur.last() == stats.deep_view()[i as int]);
            assert(stats.deep_view()[i as int] == stats@[i as int]@);
            if i == 0 {
                assert(cur.len() == 1);
                assert(cur[0] == cur.last());
                assert(json_items(cur) == json_of(cur[0]));
            } else {
                assert(json_items(cur) == json_items(pre) + seq![','] + json_of(cur.last()));
            }
            assert(r@ =~= seq!['['] + json_items(cur));
        }
        i = i + 1;
    }
    r.append("]");
    proof {
        reveal_strlit("]");
        assert("]"@ =~= seq![']']);
        assert(stats.deep_view().subrange(0, n as int) =~= stats.deep_view());
        assert(r@ =~= json_list_of(stats.deep_view()));
    }
    r
}

} // verus!
