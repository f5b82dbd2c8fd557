//! The JSON wire and storage format of a [`PageStats`] record.
//!
//! A record is persisted and served as one JSON object with the five fields
//! in a fixed order:
//!
//! ```text
//! {"slug":"<escaped slug>","reads":<n>,"views":<n>,"likes":<n>,"time":<n>}
//! ```
//!
//! [`stats_to_json`] writes that form and [`stats_from_json`] reads it back;
//! [`lemma_parse_of_json`] proves that the two compose to the identity on
//! every record.  Stored values in any other shape are simply not parsed —
//! the store layer masks them with a zero-valued record, so a stricter
//! parser errs on the safe, documented side.

use vstd::prelude::*;
use vstd::string::StrSliceExecFns;
use vstd::string::StringExecFns;
use crate::decimal::dec_seq;
use crate::decimal::digit_val;
use crate::decimal::is_digit;
use crate::decimal::lemma_dec_seq_digits;
use crate::decimal::lemma_val_of_dec_seq;
use crate::decimal::lemma_val_of_digits_prefix;
use crate::decimal::u64_to_string;
use crate::decimal::val_of_digits;
use crate::stats::PageStats;
use crate::stats::StatsModel;
use crate::text::push_char;

verus! {

// ---------------------------------------------------------------------------
// The tokens of the record object, as character sequences.
// ---------------------------------------------------------------------------

/// `{"slug":"` — the opening brace, the slug key, and the opening quote of
/// its value.
pub open spec fn tok_open() -> Seq<char> {
    seq!['{', '"', 's', 'l', 'u', 'g', '"', ':', '"']
}

/// `,"reads":` — follows the closing quote of the slug value.
pub open spec fn tok_reads() -> Seq<char> {
    seq![',', '"', 'r', 'e', 'a', 'd', 's', '"', ':']
}

/// `,"views":`
pub open spec fn tok_views() -> Seq<char> {
    seq![',', '"', 'v', 'i', 'e', 'w', 's', '"', ':']
}

/// `,"likes":`
pub open spec fn tok_likes() -> Seq<char> {
    seq![',', '"', 'l', 'i', 'k', 'e', 's', '"', ':']
}

/// `,"time":`
pub open spec fn tok_time() -> Seq<char> {
    seq![',', '"', 't', 'i', 'm', 'e', '"', ':']
}

// ---------------------------------------------------------------------------
// String escaping.
// ---------------------------------------------------------------------------

/// How one character of a string value is written: quotes and backslashes
/// get a backslash in front, everything else stands as it is.
pub open spec fn esc_char(c: char) -> Seq<char> {
    if c == '"' || c == '\\' {
        seq!['\\', c]
    } else {
        seq![c]
    }
}

/// The escaped form of a whole string value.
pub open spec fn esc_seq(s: Seq<char>) -> Seq<char>
    decreases s.len(),
{
    if s.len() == 0 {
        Seq::<char>::empty()
    } else {
        esc_char(s[0]) + esc_seq(s.subrange(1, s.len() as int))
    }
}

/// Escaping one more character at the end appends its escaped form.
pub proof fn lemma_esc_seq_push(s: Seq<char>, c: char)
    ensures
        esc_seq(s.push(c)) == esc_seq(s) + esc_char(c),
    decreases s.len(),
{
    if s.len() == 0 {
        assert(s =~= Seq::<char>::empty());
        assert(s.push(c) =~= seq![c]);
        assert(s.push(c)[0] == c);
        assert(s.push(c).subrange(1, 1) =~= Seq::<char>::empty());
        assert(esc_seq(Seq::<char>::empty()) == Seq::<char>::empty());
        assert(esc_seq(s.push(c)) == esc_char(c) + esc_seq(Seq::<char>::empty()));
        assert(esc_seq(s.push(c)) =~= esc_seq(s) + esc_char(c));
    } else {
        let tail = s.subrange(1, s.len() as int);
        lemma_esc_seq_push(tail, c);
        assert(s.push(c)[0] == s[0]);
        assert(s.push(c).subrange(1, s.push(c).len() as int) =~= tail.push(c));
        assert(esc_seq(s.push(c)) == esc_char(s[0]) + esc_seq(tail.push(c)));
        assert(esc_seq(s) == esc_char(s[0]) + esc_seq(tail));
        assert(esc_seq(s.push(c)) =~= esc_seq(s) + esc_char(c));
    }
}

// ---------------------------------------------------------------------------
// The encoding of a whole record.
// ---------------------------------------------------------------------------

/// The JSON text of a record.
pub open spec fn json_of(m: StatsModel) -> Seq<char> {
    tok_open() + esc_seq(m.slug) + seq!['"'] + tok_reads() + dec_seq(m.reads as nat) + tok_views()
        + dec_seq(m.views as nat) + tok_likes() + dec_seq(m.likes as nat) + tok_time() + dec_seq(
        m.time as nat,
    ) + seq!['}']
}

/// Appends the escaped form of `s` to `out`.
fn append_escaped(out: &mut String, s: &str)
    ensures
        final(out)@ == old(out)@ + esc_seq(s@),
{
    let n = s.unicode_len();
    let mut i: usize = 0;
    while i < n
        invariant
            n == s@.len(),
            i <= n,
            out@ == old(out)@ + esc_seq(s@.subrange(0, i as int)),
        decreases n - i,
    {
        let c = s.get_char(i);
        if c == '"' || c == '\\' {
            push_char(out, '\\');
            push_char(out, c);
        } else {
            push_char(out, c);
        }
        proof {
            lemma_esc_seq_push(s@.subrange(0, i as int), s@[i as int]);
            assert(s@.subrange(0, i + 1) =~= s@.subrange(0, i as int).push(s@[i as int]));
            assert(out@ =~= old(out)@ + esc_seq(s@.subrange(0, i + 1)));
        }
        i = i + 1;
    }
    proof {
        assert(s@.subrange(0, n as int) =~= s@);
    }
}

/// Writes the record in its canonical JSON form, exactly [`json_of`] its
/// model.
pub fn stats_to_json(stats: &PageStats) -> (r: String)
    ensures
        r@ == json_of(stats@),
{
    let mut r = String::new();
    r.append("{\"slug\":\"");
    append_escaped(&mut r, stats.slug.as_str());
    r.append("\",\"reads\":");
    r.append(u64_to_string(stats.reads).as_str());
    r.append(",\"views\":");
    r.append(u64_to_string(stats.views).as_str());
    r.append(",\"likes\":");
    r.append(u64_to_string(stats.likes).as_str());
    r.append(",\"time\":");
    r.append(u64_to_string(stats.time).as_str());
    r.append("}");
    proof {
        reveal_strlit("{\"slug\":\"");
        reveal_strlit("\",\"reads\":");
        reveal_strlit(",\"views\":");
        reveal_strlit(",\"likes\":");
        reveal_strlit(",\"time\":");
        reveal_strlit("}");
        assert("{\"slug\":\""@ =~= tok_open());
        assert("\",\"reads\":"@ =~= seq!['"'] + tok_reads());
        assert(",\"views\":"@ =~= tok_views());
        assert(",\"likes\":"@ =~= tok_likes());
        assert(",\"time\":"@ =~= tok_time());
        assert("}"@ =~= seq!['}']);
        assert(r@ =~= json_of(stats@));
    }
    r
}

// ---------------------------------------------------------------------------
// The parser, specification side.
// ---------------------------------------------------------------------------

/// The token `t` stands in `s` at position `i`.
pub open spec fn match_tok(s: Seq<char>, i: int, t: Seq<char>) -> bool {
    0 <= i && i + t.len() <= s.len() && s.subrange(i, i + t.len()) == t
}

/// Reads a string value from position `i` (just after its opening quote) up
/// to and including its closing quote.  Returns the unescaped content and
/// the position after the closing quote, or nothing when the value never
/// closes.
pub open spec fn scan_string(s: Seq<char>, i: int) -> Option<(Seq<char>, int)>
    decreases s.len() - i,
{
    if i < 0 || i >= s.len() {
        None
    } else if s[i] == '"' {
        Some((Seq::<char>::empty(), i + 1))
    } else if s[i] == '\\' {
        if i + 1 >= s.len() {
            None
        } else {
            match scan_string(s, i + 2) {
                Some(p) => Some((seq![s[i + 1]] + p.0, p.1)),
                None => None,
            }
        }
    } else {
        match scan_string(s, i + 1) {
            Some(p) => Some((seq![s[i]] + p.0, p.1)),
            None => None,
        }
    }
}

/// The position just after the run of digit characters that starts at `i`.
pub open spec fn digit_run_end(s: Seq<char>, i: int) -> int
    decreases s.len() - i,
{
    if i < 0 || i >= s.len() || !is_digit(s[i]) {
        i
    } else {
        digit_run_end(s, i + 1)
    }
}

/// Reads an unsigned number from position `i`: the longest run of digits,
/// as a value, provided the run is not empty and the value fits in 64 bits.
pub open spec fn scan_u64(s: Seq<char>, i: int) -> Option<(u64, int)> {
    let j = digit_run_end(s, i);
    if j == i {
        None
    } else if val_of_digits(s.subrange(i, j)) > u64::MAX {
        None
    } else {
        Some((val_of_digits(s.subrange(i, j)) as u64, j))
    }
}

/// Reads a whole record: the five fields in their canonical order, nothing
/// before the opening brace and nothing after the closing one.
pub open spec fn parse_stats(s: Seq<char>) -> Option<StatsModel> {
    if !match_tok(s, 0, tok_open()) {
        None
    } else {
        match scan_string(s, tok_open().len() as int) {
            None => None,
            Some((slug, i1)) => {
                if !match_tok(s, i1, tok_reads()) {
                    None
                } else {
                    match scan_u64(s, i1 + tok_reads().len()) {
                        None => None,
                        Some((reads, i2)) => {
                            if !match_tok(s, i2, tok_views()) {
                                None
                            } else {
                                match scan_u64(s, i2 + tok_views().len()) {
                                    None => None,
                                    Some((views, i3)) => {
                                        if !match_tok(s, i3, tok_likes()) {
                                            None
                                        } else {
                                            match scan_u64(s, i3 + tok_likes().len()) {
                                                None => None,
                                                Some((likes, i4)) => {
                                                    if !match_tok(s, i4, tok_time()) {
                                                        None
                                                    } else {
                                                        match scan_u64(s, i4 + tok_time().len()) {
                                                            None => None,
                                                            Some((time, i5)) => {
                                                                if i5 + 1 == s.len() && s[i5]
                                                                    == '}' {
                                                                    Some(
                                                                        StatsModel {
                                                                            slug,
                                                                            reads,
                                                                            views,
                                                                            likes,
                                                                            time,
                                                                        },
                                                                    )
                                                                } else {
                                                                    None
                                                                }
                                                            },
                                                        }
                                                    }
                                                },
                                            }
                                        }
                                    },
                                }
                            }
                        },
                    }
                }
            },
        }
    }
}

/// What [`stats_from_json`] promises: its result is exactly the model-level
/// parse of the input.
pub open spec fn parse_result_matches(r: Option<PageStats>, s: Seq<char>) -> bool {
    match r {
        Some(ps) => parse_stats(s) == Some(ps@),
        None => parse_stats(s) is None,
    }
}

// ---------------------------------------------------------------------------
// The parser, executable side.
// ---------------------------------------------------------------------------

/// Whether the token `t` stands in `s` at character position `i`.
pub(crate) fn tok_at(s: &str, i: usize, t: &str) -> (b: bool)
    ensures
        b == match_tok(s@, i as int, t@),
{
    let n = s.unicode_len();
    let tn = t.unicode_len();
    if i > n || tn > n - i {
        return false;
    }
    let mut j: usize = 0;
    while j < tn
        invariant
            n == s@.len(),
            tn == t@.len(),
            i + tn <= n,
            j <= tn,
            forall|k: int| 0 <= k < j ==> s@[i + k] == t@[k],
        decreases tn - j,
    {
        if s.get_char(i + j) != t.get_char(j) {
            proof {
                assert(s@.subrange(i as int, i + tn) != t@) by {
                    assert(s@.subrange(i as int, i + tn)[j as int] != t@[j as int]);
                }
            }
            return false;
        }
        j = j + 1;
    }
    proof {
        assert(s@.subrange(i as int, i + tn) =~= t@);
    }
    true
}

fn is_digit_ch(c: char) -> (b: bool)
    ensures
        b == is_digit(c),
{
    c == '0' || c == '1' || c == '2' || c == '3' || c == '4' || c == '5' || c == '6' || c == '7'
        || c == '8' || c == '9'
}

fn digit_val_ch(c: char) -> (d: u64)
    requires
        is_digit(c),
    ensures
        d == digit_val(c),
{
    if c == '0' {
        0
    } else if c == '1' {
        1
    } else if c == '2' {
        2
    } else if c == '3' {
        3
    } else if c == '4' {
        4
    } else if c == '5' {
        5
    } else if c == '6' {
        6
    } else if c == '7' {
        7
    } else if c == '8' {
        8
    } else {
        9
    }
}

/// Reads a string value, as [`scan_string`] describes.
pub(crate) fn scan_string_exec(s: &str, i: usize) -> (r: Option<(String, usize)>)
    requires
        i <= s@.len(),
    ensures
        (match r {
            Some(p) => scan_string(s@, i as int) == Some((p.0@, p.1 as int)) && p.1 <= s@.len(),
            None => scan_string(s@, i as int) is None,
        }),
{
    let n = s.unicode_len();
    let mut j: usize = i;
    let mut acc = String::new();
    proof {
        assert forall|t: Seq<char>| #[trigger] (acc@ + t) == t by {
            assert(acc@ + t =~= t);
        }
    }
    loop
        invariant
            n == s@.len(),
            i <= j <= n,
            (scan_string(s@, i as int) == match scan_string(s@, j as int) {
                Some(p) => Some::<(Seq<char>, int)>((acc@ + p.0, p.1)),
                None => None::<(Seq<char>, int)>,
            }),
        decreases n - j,
    {
        if j >= n {
            return None;
        }
        let c = s.get_char(j);
        if c == '"' {
            proof {
                assert(scan_string(s@, j as int) == Some::<(Seq<char>, int)>((
                    Seq::<char>::empty(),
                    j + 1,
                )));
                assert(acc@ + Seq::<char>::empty() =~= acc@);
            }
            return Some((acc, j + 1));
        }
        if c == '\\' {
            if j + 1 >= n {
                return None;
            }
            let e = s.get_char(j + 1);
            let ghost a0 = acc@;
            push_char(&mut acc, e);
            proof {
                assert forall|t: Seq<char>| #[trigger] (acc@ + t) == a0 + (seq![e] + t) by {
                    assert(acc@ + t =~= a0 + (seq![e] + t));
                }
            }
            j = j + 2;
        } else {
            let ghost a0 = acc@;
            push_char(&mut acc, c);
            proof {
                assert forall|t: Seq<char>| #[trigger] (acc@ + t) == a0 + (seq![c] + t) by {
                    assert(acc@ + t =~= a0 + (seq![c] + t));
                }
            }
            j = j + 1;
        }
    }
}

/// Reads an unsigned number, as [`scan_u64`] describes.
pub(crate) fn scan_u64_exec(s: &str, i: usize) -> (r: Option<(u64, usize)>)
    requires
        i <= s@.len(),
    ensures
        (match r {
            Some(p) => scan_u64(s@, i as int) == Some((p.0, p.1 as int)) && p.1 <= s@.len(),
            None => scan_u64(s@, i as int) is None,
        }),
{
    let n = s.unicode_len();
    let mut j: usize = i;
    let mut acc: u64 = 0;
    while j < n && is_digit_ch(s.get_char(j))
        invariant
            n == s@.len(),
            i <= j <= n,
            digit_run_end(s@, i as int) == digit_run_end(s@, j as int),
            acc == val_of_digits(s@.subrange(i as int, j as int)),
        decreases n - j,
    {
        let c = s.get_char(j);
        let d = digit_val_ch(c);
        proof {
            assert(s@.subrange(i as int, j + 1).drop_last() =~= s@.subrange(i as int, j as int));
            assert(s@.subrange(i as int, j + 1).last() == s@[j as int]);
        }
        if acc > (u64::MAX - d) / 10 {
            proof {
                lemma_scan_overflow(s@, i as int, j as int, d);
            }
            return None;
        }
        proof {
            assert(acc * 10 + d <= u64::MAX) by {
                let m = (u64::MAX - d) as int;
                assert(m == 10 * (m / 10) + (m % 10));
                assert(acc * 10 <= (m / 10) * 10);
            }
        }
        acc = acc * 10 + d;
        j = j + 1;
    }
    proof {
        assert(digit_run_end(s@, j as int) == j as int);
    }
    if j == i {
        return None;
    }
    Some((acc, j))
}

/// A run of digits already too large to fit leaves the whole number unread.
proof fn lemma_scan_overflow(s: Seq<char>, i: int, j: int, d: u64)
    requires
        0 <= i <= j < s.len(),
        is_digit(s[j]),
        d == digit_val(s[j]),
        digit_run_end(s, i) == digit_run_end(s, j),
        val_of_digits(s.subrange(i, j)) * 10 + d > u64::MAX,
    ensures
        scan_u64(s, i) is None,
{
    let e = digit_run_end(s, i);
    lemma_digit_run_end_props(s, j);
    assert(digit_run_end(s, j) == digit_run_end(s, j + 1));
    lemma_digit_run_end_props(s, j + 1);
    assert(j + 1 <= e <= s.len());
    assert(s.subrange(i, j + 1).drop_last() =~= s.subrange(i, j));
    assert(s.subrange(i, j + 1).last() == s[j]);
    assert(val_of_digits(s.subrange(i, j + 1)) > u64::MAX);
    let t = s.subrange(i, e);
    lemma_val_of_digits_prefix(t, j + 1 - i);
    assert(t.subrange(0, j + 1 - i) =~= s.subrange(i, j + 1));
    assert(val_of_digits(s.subrange(i, e)) > u64::MAX);
}

/// From any position, the digit run ends between it and the end of the
/// string, runs over digits only, and stops only at the end or at a
/// non-digit.
pub proof fn lemma_digit_run_end_props(s: Seq<char>, i: int)
    requires
        0 <= i <= s.len(),
    ensures
        i <= digit_run_end(s, i) <= s.len(),
        forall|k: int| i <= k < digit_run_end(s, i) ==> is_digit(s[k]),
        digit_run_end(s, i) == s.len() || !is_digit(s[digit_run_end(s, i)]),
    decreases s.len() - i,
{
    if i < s.len() && is_digit(s[i]) {
        lemma_digit_run_end_props(s, i + 1);
    }
}

/// Reads a record from its canonical JSON text, as [`parse_stats`]
/// describes; anything else is rejected.
pub fn stats_from_json(s: &str) -> (r: Option<PageStats>)
    ensures
        parse_result_matches(r, s@),
{
    proof {
        reveal_strlit("{\"slug\":\"");
        reveal_strlit(",\"reads\":");
        reveal_strlit(",\"views\":");
        reveal_strlit(",\"likes\":");
        reveal_strlit(",\"time\":");
        assert("{\"slug\":\""@ =~= tok_open());
        assert(",\"reads\":"@ =~= tok_reads());
        assert(",\"views\":"@ =~= tok_views());
        assert(",\"likes\":"@ =~= tok_likes());
        assert(",\"time\":"@ =~= tok_time());
    }
    let n = s.unicode_len();
    if !tok_at(s, 0, "{\"slug\":\"") {
        return None;
    }
    let (slug, i1) = match scan_string_exec(s, 9) {
        None => {
            return None;
        },
        Some(p) => p,
    };
    if !tok_at(s, i1, ",\"reads\":") {
        return None;
    }
    let (reads, i2) = match scan_u64_exec(s, i1 + 9) {
        None => {
            return None;
        },
        Some(p) => p,
    };
    if !tok_at(s, i2, ",\"views\":") {
        return None;
    }
    let (views, i3) = match scan_u64_exec(s, i2 + 9) {
        None => {
            return None;
        },
        Some(p) => p,
    };
    if !tok_at(s, i3, ",\"likes\":") {
        return None;
    }
    let (likes, i4) = match scan_u64_exec(s, i3 + 9) {
        None => {
            return None;
        },
        Some(p) => p,
    };
    if !tok_at(s, i4, ",\"time\":") {
        return None;
    }
    let (time, i5) = match scan_u64_exec(s, i4 + 8) {
        None => {
            return None;
        },
        Some(p) => p,
    };
    if !(i5 < n && i5 + 1 == n && s.get_char(i5) == '}') {
        return None;
    }
    Some(PageStats { slug, reads, views, likes, time })
}

// ---------------------------------------------------------------------------
// Round trip: parsing what was written gives the record back.
// ---------------------------------------------------------------------------

/// Reading a string value at the start of `esc_seq(x) + '"' + …` yields
/// exactly `x` and stops just after the quote.
proof fn lemma_scan_string_esc(s: Seq<char>, i: int, x: Seq<char>)
    requires
        0 <= i,
        i + esc_seq(x).len() + 1 <= s.len(),
        s.subrange(i, i + esc_seq(x).len() + 1) == esc_seq(x) + seq!['"'],
    ensures
        scan_string(s, i) == Some((x, i + esc_seq(x).len() + 1)),
    decreases x.len(),
{
    let w = s.subrange(i, i + esc_seq(x).len() + 1);
    if x.len() == 0 {
        assert(esc_seq(x) =~= Seq::<char>::empty());
        assert(s[i] == w[0]);
        assert(w[0] == '"');
        assert(scan_string(s, i) == Some::<(Seq<char>, int)>((Seq::<char>::empty(), i + 1)));
        assert(x =~= Seq::<char>::empty());
    } else {
        let c = x[0];
        let rest = x.subrange(1, x.len() as int);
        assert(esc_seq(x) == esc_char(c) + esc_seq(rest));
        let lr = esc_seq(rest).len() as int;
        if c == '"' || c == '\\' {
            assert(esc_char(c) =~= seq!['\\', c]);
            assert(s[i] == w[0] && w[0] == '\\');
            assert(s[i + 1] == w[1] && w[1] == c);
            assert(s.subrange(i + 2, i + 2 + lr + 1) =~= esc_seq(rest) + seq!['"']) by {
                assert forall|k: int| 0 <= k < lr + 1 implies s.subrange(i + 2, i + 2 + lr + 1)[k]
                    == (esc_seq(rest) + seq!['"'])[k] by {
                    assert(s.subrange(i + 2, i + 2 + lr + 1)[k] == s[i + 2 + k]);
                    assert(s[i + 2 + k] == w[2 + k]);
                    assert(w[2 + k] == (esc_seq(rest) + seq!['"'])[k]);
                }
            }
            lemma_scan_string_esc(s, i + 2, rest);
            assert(seq![s[i + 1]] + rest =~= x);
        } else {
            assert(esc_char(c) =~= seq![c]);
            assert(s[i] == w[0] && w[0] == c);
            assert(s[i] != '"' && s[i] != '\\');
            assert(s.subrange(i + 1, i + 1 + lr + 1) =~= esc_seq(rest) + seq!['"']) by {
                assert forall|k: int| 0 <= k < lr + 1 implies s.subrange(i + 1, i + 1 + lr + 1)[k]
                    == (esc_seq(rest) + seq!['"'])[k] by {
                    assert(s.subrange(i + 1, i + 1 + lr + 1)[k] == s[i + 1 + k]);
                    assert(s[i + 1 + k] == w[1 + k]);
                    assert(w[1 + k] == (esc_seq(rest) + seq!['"'])[k]);
                }
            }
            lemma_scan_string_esc(s, i + 1, rest);
            assert(seq![s[i]] + rest =~= x);
        }
    }
}

/// The digit run starting at `i` ends exactly at `e` when everything before
/// `e` is a digit and `e` is the end or a non-digit.
proof fn lemma_digit_run_end_is(s: Seq<char>, i: int, e: int)
    requires
        0 <= i <= e <= s.len(),
        forall|k: int| i <= k < e ==> is_digit(#[trigger] s[k]),
        e == s.len() || !is_digit(s[e]),
    ensures
        digit_run_end(s, i) == e,
    decreases e - i,
{
    if i < e {
        lemma_digit_run_end_is(s, i + 1, e);
    }
}

/// Reading a number at the start of `dec_seq(n) + …` yields exactly `n`
/// when the next character is not a digit.
proof fn lemma_scan_u64_dec(s: Seq<char>, i: int, v: u64)
    requires
        0 <= i,
        i + dec_seq(v as nat).len() < s.len(),
        s.subrange(i, i + dec_seq(v as nat).len()) == dec_seq(v as nat),
        !is_digit(s[i + dec_seq(v as nat).len()]),
    ensures
        scan_u64(s, i) == Some((v, i + dec_seq(v as nat).len())),
{
    let d = dec_seq(v as nat);
    let e = i + d.len();
    lemma_dec_seq_digits(v as nat);
    assert forall|k: int| i <= k < e implies is_digit(#[trigger] s[k]) by {
        assert(s[k] == s.subrange(i, e)[k - i]);
        assert(d[k - i] == s.subrange(i, e)[k - i]);
    }
    lemma_digit_run_end_is(s, i, e);
    lemma_val_of_dec_seq(v as nat);
    assert(val_of_digits(s.subrange(i, e)) == v);
}

/// Round trip of the record format: the canonical JSON text of any record
/// parses back to exactly that record.
#[verifier::rlimit(100)]
pub proof fn lemma_parse_of_json(m: StatsModel)
    ensures
        parse_stats(json_of(m)) == Some(m),
{
    let s = json_of(m);
    let e = esc_seq(m.slug);
    let dr = dec_seq(m.reads as nat);
    let dv = dec_seq(m.views as nat);
    let dl = dec_seq(m.likes as nat);
    let dt = dec_seq(m.time as nat);
    lemma_dec_seq_digits(m.reads as nat);
    lemma_dec_seq_digits(m.views as nat);
    lemma_dec_seq_digits(m.likes as nat);
    lemma_dec_seq_digits(m.time as nat);
    let i1: int = 9 + e.len() as int + 1;
    let i2: int = i1 + 9 + dr.len() as int;
    let i3: int = i2 + 9 + dv.len() as int;
    let i4: int = i3 + 9 + dl.len() as int;
    let i5: int = i4 + 8 + dt.len() as int;
    assert(s.len() == i5 + 1);

    assert(s.subrange(0, 9) =~= tok_open());
    assert(match_tok(s, 0, tok_open()));

    assert(s.subrange(9, 9 + e.len() as int + 1) =~= e + seq!['"']);
    lemma_scan_string_esc(s, 9, m.slug);
    assert(scan_string(s, tok_open().len() as int) == Some((m.slug, i1 as int)));

    assert(s.subrange(i1 as int, i1 + 9) =~= tok_reads());
    assert(match_tok(s, i1 as int, tok_reads()));
    assert(s.subrange(i1 + 9, i1 + 9 + dr.len()) =~= dr);
    assert(s[i1 + 9 + dr.len()] == ',');
    lemma_scan_u64_dec(s, i1 + 9, m.reads);
    assert(scan_u64(s, i1 + tok_reads().len()) == Some((m.reads, i2 as int)));

    assert(s.subrange(i2 as int, i2 + 9) =~= tok_views());
    assert(match_tok(s, i2 as int, tok_views()));
    assert(s.subrange(i2 + 9, i2 + 9 + dv.len()) =~= dv);
    assert(s[i2 + 9 + dv.len()] == ',');
    lemma_scan_u64_dec(s, i2 + 9, m.views);
    assert(scan_u64(s, i2 + tok_views().len()) == Some((m.views, i3 as int)));

    assert(s.subrange(i3 as int, i3 + 9) =~= tok_likes());
    assert(match_tok(s, i3 as int, tok_likes()));
    assert(s.subrange(i3 + 9, i3 + 9 + dl.len()) =~= dl);
    assert(s[i3 + 9 + dl.len()] == ',');
    lemma_scan_u64_dec(s, i3 + 9, m.likes);
    assert(scan_u64(s, i3 + tok_likes().len()) == Some((m.likes, i4 as int)));

    assert(s.subrange(i4 as int, i4 + 8) =~= tok_time());
    assert(match_tok(s, i4 as int, tok_time()));
    assert(s.subrange(i4 + 8, i4 + 8 + dt.len()) =~= dt);
    assert(s[i4 + 8 + dt.len()] == '}');
    lemma_scan_u64_dec(s, i4 + 8, m.time);
    assert(scan_u64(s, i4 + tok_time().len()) == Some((m.time, i5 as int)));

    assert(s[i5 as int] == '}');
    assert(parse_stats(s) == Some(m));
}

} // verus!
