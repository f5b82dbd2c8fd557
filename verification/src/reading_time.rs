//! Reading-time estimation over Markdown text.
//!
//! A word is a maximal run of non-whitespace characters.  Lines that are
//! pure Markdown syntax — headers, fence markers, rules — are skipped, and
//! inline emphasis marks are not words, so they are removed before
//! counting.  The estimate assumes a pace of 200 words per minute.

use vstd::prelude::*;
use vstd::string::StrSliceExecFns;
use vstd::string::StringExecFns;
use crate::decimal::dec_seq;
use crate::decimal::u64_to_string;

verus! {

/// The characters Rust's standard library treats as whitespace: the
/// Unicode `White_Space` set.
pub open spec fn is_space(c: char) -> bool {
    c == ' ' || c == '\t' || c == '\n' || c == '\r' || c == '\u{000B}' || c == '\u{000C}'
        || c == '\u{0085}' || c == '\u{00A0}' || c == '\u{1680}' || c == '\u{2000}'
        || c == '\u{2001}' || c == '\u{2002}' || c == '\u{2003}' || c == '\u{2004}'
        || c == '\u{2005}' || c == '\u{2006}' || c == '\u{2007}' || c == '\u{2008}'
        || c == '\u{2009}' || c == '\u{200A}' || c == '\u{2028}' || c == '\u{2029}'
        || c == '\u{202F}' || c == '\u{205F}' || c == '\u{3000}'
}

/// The inline emphasis marks that are removed before counting: asterisk,
/// backtick, underscore.
pub open spec fn is_mark(c: char) -> bool {
    c == '*' || c == '`' || c == '_'
}

/// The position just after the run of whitespace that starts at `i`.
pub open spec fn space_run_end(s: Seq<char>, i: int) -> int
    decreases s.len() - i,
{
    if i < 0 || i >= s.len() || !is_space(s[i]) {
        i
    } else {
        space_run_end(s, i + 1)
    }
}

/// `s` with every emphasis mark removed.
pub open spec fn strip_marks(s: Seq<char>) -> Seq<char>
    decreases s.len(),
{
    if s.len() == 0 {
        Seq::<char>::empty()
    } else {
        strip_marks(s.drop_last()) + (if is_mark(s.last()) {
            Seq::<char>::empty()
        } else {
            seq![s.last()]
        })
    }
}

/// The number of words that start at or after position `i`, given whether
/// position `i` is already inside a word.
pub open spec fn words_from(s: Seq<char>, i: int, in_word: bool) -> nat
    decreases s.len() - i,
{
    if i < 0 || i >= s.len() {
        0
    } else {
        (if !is_space(s[i]) && !in_word {
            1nat
        } else {
            0nat
        }) + words_from(s, i + 1, !is_space(s[i]))
    }
}

/// The number of words of a text: its maximal non-whitespace runs.
pub open spec fn word_count(s: Seq<char>) -> nat {
    words_from(s, 0, false)
}

/// What one line contributes to the word count.  A line whose first
/// non-whitespace content is a header mark, a code fence or a rule — or
/// that has no content at all — contributes nothing; any other line
/// contributes its word count with emphasis marks removed.
pub open spec fn line_contribution(line: Seq<char>) -> nat {
    let a = space_run_end(line, 0);
    if a == line.len() || line[a] == '#' || (a + 3 <= line.len() && line[a] == '`' && line[a + 1]
        == '`' && line[a + 2] == '`') || (a + 3 <= line.len() && line[a] == '-' && line[a + 1]
        == '-' && line[a + 2] == '-') {
        0
    } else {
        word_count(strip_marks(line))
    }
}

/// The position of the line break that ends the line holding position
/// `i`, or the end of the text.
pub open spec fn line_end(s: Seq<char>, i: int) -> int
    decreases s.len() - i,
{
    if i < 0 || i >= s.len() || s[i] == '\n' {
        i
    } else {
        line_end(s, i + 1)
    }
}

/// The line break search stays within the text, runs over non-breaks
/// only, and stops only at the end or at a break.
pub proof fn lemma_line_end_props(s: Seq<char>, i: int)
    requires
        0 <= i <= s.len(),
    ensures
        i <= line_end(s, i) <= s.len(),
        forall|k: int| i <= k < line_end(s, i) ==> s[k] != '\n',
        line_end(s, i) == s.len() || s[line_end(s, i)] == '\n',
    decreases s.len() - i,
{
    if i < s.len() && s[i] != '\n' {
        lemma_line_end_props(s, i + 1);
    }
}

/// The words of the text from position `i` on, summed line by line.
pub open spec fn count_from(s: Seq<char>, i: int) -> nat
    decreases s.len() - i,
{
    if i < 0 || i > s.len() {
        0
    } else {
        let e = line_end(s, i);
        proof {
            lemma_line_end_props(s, i);
        }
        line_contribution(s.subrange(i, e)) + (if e >= s.len() {
            0nat
        } else {
            count_from(s, e + 1)
        })
    }
}

/// The number of words of a Markdown text, line by line, skipping pure
/// syntax lines and emphasis marks.
pub open spec fn count_words_spec(s: Seq<char>) -> nat {
    count_from(s, 0)
}

/// There are never more words than characters.
pub proof fn lemma_words_from_le(s: Seq<char>, i: int, in_word: bool)
    requires
        0 <= i <= s.len(),
    ensures
        words_from(s, i, in_word) <= s.len() - i,
    decreases s.len() - i,
{
    if i < s.len() {
        lemma_words_from_le(s, i + 1, !is_space(s[i]));
    }
}

/// Removing marks never lengthens a text.
pub proof fn lemma_strip_marks_le(s: Seq<char>)
    ensures
        strip_marks(s).len() <= s.len(),
    decreases s.len(),
{
    if s.len() > 0 {
        lemma_strip_marks_le(s.drop_last());
    }
}

fn is_space_ch(c: char) -> (b: bool)
    ensures
        b == is_space(c),
{
    c == ' ' || c == '\t' || c == '\n' || c == '\r' || c == '\u{000B}' || c == '\u{000C}'
        || c == '\u{0085}' || c == '\u{00A0}' || c == '\u{1680}' || c == '\u{2000}'
        || c == '\u{2001}' || c == '\u{2002}' || c == '\u{2003}' || c == '\u{2004}'
        || c == '\u{2005}' || c == '\u{2006}' || c == '\u{2007}' || c == '\u{2008}'
        || c == '\u{2009}' || c == '\u{200A}' || c == '\u{2028}' || c == '\u{2029}'
        || c == '\u{202F}' || c == '\u{205F}' || c == '\u{3000}'
}

fn is_mark_ch(c: char) -> (b: bool)
    ensures
        b == is_mark(c),
{
    c == '*' || c == '`' || c == '_'
}

/// What one line contributes, as [`line_contribution`] says.
fn line_words(line: &str) -> (r: usize)
    ensures
        r == line_contribution(line@),
        r <= line@.len(),
{
    let n = line.unicode_len();
    let mut a: usize = 0;
    while a < n && is_space_ch(line.get_char(a))
        invariant
            n == line@.len(),
            a <= n,
            space_run_end(line@, 0) == space_run_end(line@, a as int),
        decreases n - a,
    {
        a = a + 1;
    }
    proof {
        assert(space_run_end(line@, a as int) == a as int);
    }
    if a == n {
        return 0;
    }
    let first = line.get_char(a);
    if first == '#' {
        return 0;
    }
    if n - a >= 3 {
        let c0 = line.get_char(a);
        let c1 = line.get_char(a + 1);
        let c2 = line.get_char(a + 2);
        if (c0 == '`' && c1 == '`' && c2 == '`') || (c0 == '-' && c1 == '-' && c2 == '-') {
            return 0;
        }
    }
    let mut stripped: Vec<char> = Vec::new();
    let mut t: usize = 0;
    proof {
        assert(line@.subrange(0, 0) =~= Seq::<char>::empty());
        assert(stripped@ =~= strip_marks(line@.subrange(0, 0)));
    }
    while t < n
        invariant
            n == line@.len(),
            t <= n,
            stripped@ == strip_marks(line@.subrange(0, t as int)),
            stripped@.len() <= t,
        decreases n - t,
    {
        let c = line.get_char(t);
        proof {
            assert(line@.subrange(0, t + 1).drop_last() =~= line@.subrange(0, t as int));
            assert(line@.subrange(0, t + 1).last() == line@[t as int]);
        }
        if !is_mark_ch(c) {
            stripped.push(c);
            proof {
                assert(stripped@ =~= strip_marks(line@.subrange(0, t + 1)));
            }
        } else {
            proof {
                assert(strip_marks(line@.subrange(0, t + 1)) =~= strip_marks(
                    line@.subrange(0, t as int),
                ) + Seq::<char>::empty());
                assert(stripped@ =~= strip_marks(line@.subrange(0, t + 1)));
            }
        }
        t = t + 1;
    }
    proof {
        assert(line@.subrange(0, n as int) =~= line@);
    }
    let m = stripped.len();
    let mut k: usize = 0;
    let mut cnt: usize = 0;
    let mut in_word = false;
    while k < m
        invariant
            m == stripped@.len(),
            k <= m,
            cnt <= k,
            word_count(stripped@) == cnt + words_from(stripped@, k as int, in_word),
        decreases m - k,
    {
        let c = stripped[k];
        if !is_space_ch(c) && !in_word {
            cnt = cnt + 1;
        }
        in_word = !is_space_ch(c);
        k = k + 1;
    }
    proof {
        assert(words_from(stripped@, m as int, in_word) == 0);
        assert(cnt == line_contribution(line@));
    }
    cnt
}

/// Counts the words of a Markdown text, as [`count_words_spec`] says.
pub fn count_words(content: &str) -> (r: usize)
    ensures
        r == count_words_spec(content@),
{
    let n = content.unicode_len();
    let mut total: usize = 0;
    let mut i: usize = 0;
    loop
        invariant
            n == content@.len(),
            i <= n,
            total <= i,
            count_from(content@, 0) == total + count_from(content@, i as int),
        decreases n - i,
    {
        let mut e: usize = i;
        while e < n && content.get_char(e) != '\n'
            invariant
                n == content@.len(),
                i <= e <= n,
                line_end(content@, i as int) == line_end(content@, e as int),
            decreases n - e,
        {
            e = e + 1;
        }
        proof {
            assert(line_end(content@, e as int) == e as int);
        }
        let line = content.substring_char(i, e);
        let c = line_words(line);
        proof {
            lemma_words_from_le(strip_marks(line@), 0, false);
            lemma_strip_marks_le(line@);
        }
        total = total + c;
        if e == n {
            return total;
        }
        i = e + 1;
    }
}

/// The estimated seconds it takes to read a Markdown text, at 200 words
/// per minute, rounded down.
pub fn calculate_reading_time(content: &str) -> (r: u64)
    ensures
        r == (count_words_spec(content@) * 60) / 200,
{
    let word_count = count_words(content);
    if word_count == 0 {
        return 0;
    }
    let seconds: u128 = (word_count as u128) * 60 / 200;
    proof {
        assert(word_count * 60 / 200 <= word_count) by {
            assert(word_count * 60 <= word_count * 200) by (nonlinear_arith);
            assert(word_count * 60 / 200 <= word_count * 200 / 200) by {
                vstd::arithmetic::div_mod::lemma_div_is_ordered(
                    (word_count * 60) as int,
                    (word_count * 200) as int,
                    200,
                );
            }
            vstd::arithmetic::div_mod::lemma_div_multiples_vanish(word_count as int, 200);
        }
    }
    seconds as u64
}

/// The rough display form of a reading time: whole hours and leftover
/// whole minutes.
pub fn _format_reading_time(seconds: u64) -> (r: String)
    ensures
        r@ == dec_seq((seconds / 3600) as nat) + seq!['h', ' '] + dec_seq(
            ((seconds % 3600) / 60) as nat,
        ) + seq!['m'],
{
    proof {
        reveal_strlit("h ");
        reveal_strlit("m");
        assert("h "@ =~= seq!['h', ' ']);
        assert("m"@ =~= seq!['m']);
    }
    let mut r = u64_to_string(seconds / 3600);
    r.append("h ");
    r.append(u64_to_string((seconds % 3600) / 60).as_str());
    r.append("m");
    proof {
        assert(r@ =~= dec_seq((seconds / 3600) as nat) + seq!['h', ' '] + dec_seq(
            ((seconds % 3600) / 60) as nat,
        ) + seq!['m']);
    }
    r
}

} // verus!
