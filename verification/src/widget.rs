//! The computational half of the browser stats widget: the URLs and
//! request bodies it sends, the human-readable time format it displays,
//! and its local overwrite of the reading-time field.
//!
//! The widget itself is a thin fetch-and-render component; everything it
//! computes stands here.

use vstd::prelude::*;
use vstd::string::StringExecFns;
use crate::decimal::dec_seq;
use crate::decimal::u64_to_string;
use crate::service::IncrementKind;
use crate::stats::PageStats;
use crate::stats::StatsModel;

verus! {

/// The display form of a duration: seconds alone under a minute, minutes
/// with leftover seconds under an hour, hours with leftover minutes
/// beyond, dropping a zero remainder.
pub open spec fn format_time_spec(seconds: u64) -> Seq<char> {
    if seconds < 60 {
        dec_seq(seconds as nat) + seq!['s']
    } else if seconds < 3600 {
        if seconds % 60 == 0 {
            dec_seq((seconds / 60) as nat) + seq!['m']
        } else {
            dec_seq((seconds / 60) as nat) + seq!['m', ' '] + dec_seq((seconds % 60) as nat)
                + seq!['s']
        }
    } else {
        if (seconds % 3600) / 60 == 0 {
            dec_seq((seconds / 3600) as nat) + seq!['h']
        } else {
            dec_seq((seconds / 3600) as nat) + seq!['h', ' '] + dec_seq(
                ((seconds % 3600) / 60) as nat,
            ) + seq!['m']
        }
    }
}

/// Formats a duration for display, exactly as [`format_time_spec`] says.
pub fn format_time(seconds: u64) -> (r: String)
    ensures
        r@ == format_time_spec(seconds),
{
    proof {
        reveal_strlit("s");
        reveal_strlit("m");
        reveal_strlit("h");
        reveal_strlit("m ");
        reveal_strlit("h ");
        assert("s"@ =~= seq!['s']);
        assert("m"@ =~= seq!['m']);
        assert("h"@ =~= seq!['h']);
        assert("m "@ =~= seq!['m', ' ']);
        assert("h "@ =~= seq!['h', ' ']);
    }
    if seconds < 60 {
        let mut r = u64_to_string(seconds);
        r.append("s");
        proof {
            assert(r@ =~= format_time_spec(seconds));
        }
        r
    } else if seconds < 3600 {
        let minutes = seconds / 60;
        let remaining_seconds = seconds % 60;
        let mut r = u64_to_string(minutes);
        if remaining_seconds == 0 {
            r.append("m");
        } else {
            r.append("m ");
            r.append(u64_to_string(remaining_seconds).as_str());
            r.append("s");
        }
        proof {
            assert(r@ =~= format_time_spec(seconds));
        }
        r
    } else {
        let hours = seconds / 3600;
        let minutes = (seconds % 3600) / 60;
        let mut r = u64_to_string(hours);
        if minutes == 0 {
            r.append("h");
        } else {
            r.append("h ");
            r.append(u64_to_string(minutes).as_str());
            r.append("m");
        }
        proof {
            assert(r@ =~= format_time_spec(seconds));
        }
        r
    }
}

/// The read endpoint's URL for a slug, asking for a view increment when
/// `track_view` is set.
pub fn stats_url(slug: &str, track_view: bool) -> (r: String)
    ensures
        r@ == "/api/stats/"@ + slug@ + (if track_view {
            "?track_view=true"@
        } else {
            Seq::<char>::empty()
        }),
{
    let mut r = String::new();
    r.append("/api/stats/");
    r.append(slug);
    if track_view {
        r.append("?track_view=true");
        proof {
            assert(r@ =~= "/api/stats/"@ + slug@ + "?track_view=true"@);
        }
    } else {
        proof {
            assert(r@ =~= "/api/stats/"@ + slug@ + Seq::<char>::empty());
        }
    }
    r
}

/// The increment endpoint's URL for a slug.
pub fn increment_url(slug: &str) -> (r: String)
    ensures
        r@ == "/api/stats/"@ + slug@ + "/increment"@,
{
    let mut r = String::new();
    r.append("/api/stats/");
    r.append(slug);
    r.append("/increment");
    proof {
        assert(r@ =~= "/api/stats/"@ + slug@ + "/increment"@);
    }
    r
}

/// The body the widget sends to the increment endpoint for a counter.
pub fn increment_request_body(kind: IncrementKind) -> (r: String)
    ensures
        r@ == (match kind {
            IncrementKind::Views => "{\"increment_type\":\"views\"}"@,
            IncrementKind::Likes => "{\"increment_type\":\"likes\"}"@,
        }),
{
    match kind {
        IncrementKind::Views => "{\"increment_type\":\"views\"}".to_owned(),
        IncrementKind::Likes => "{\"increment_type\":\"likes\"}".to_owned(),
    }
}

/// The widget's local overwrite of the time field: it displays its own
/// reading-time estimate for the page instead of the server-side
/// accumulator, leaving every counter as served.
pub fn with_client_reading_time(stats: PageStats, reading_time_seconds: u32) -> (r: PageStats)
    ensures
        r@ == (StatsModel { time: reading_time_seconds as u64, ..stats@ }),
{
    let mut r = stats;
    r.time = reading_time_seconds as u64;
    r
}

} // verus!
