//! The two-pass cleanup of a past-event date cell.
//!
//! The upstream page writes a date range as e.g. `May 12, 2023 <dash> May 14,
//! 2023, CTF, Jeopardy` (with an em-dash between spaces). Pass one removes
//! everything from the first comma up to, but not including, the ` - `-like
//! separator; pass two removes the 11 characters starting at the first comma
//! of what remains. The offsets are tuned to this one date format and are a
//! documented fragility, kept on purpose; an input where the pattern is not
//! found is rejected rather than cut blindly.
use vstd::prelude::*;

verus! {

/// `i` is the first position where character `c` occurs in `s`.
pub open spec fn is_first_at(s: Seq<char>, c: char, i: int) -> bool {
    &&& 0 <= i < s.len()
    &&& s[i] == c
    &&& forall|j: int| 0 <= j < i ==> s[j] != c
}

/// `c` occurs somewhere in `s`.
pub open spec fn has_char(s: Seq<char>, c: char) -> bool {
    exists|i: int| 0 <= i < s.len() && s[i] == c
}

/// The first position of `c` in `s`; meaningful only when `has_char` holds.
pub open spec fn first_pos(s: Seq<char>, c: char) -> int {
    choose|i: int| is_first_at(s, c, i)
}

/// The em-dash separator pattern ` - ` (with an em-dash) starts at `i`.
pub open spec fn dash_at(s: Seq<char>, i: int) -> bool {
    &&& 0 <= i
    &&& i + 3 <= s.len()
    &&& s[i] == ' '
    &&& s[i + 1] == '\u{2014}'
    &&& s[i + 2] == ' '
}

/// `i` is the first position where the separator pattern starts in `s`.
pub open spec fn is_first_dash_at(s: Seq<char>, i: int) -> bool {
    &&& dash_at(s, i)
    &&& forall|j: int| 0 <= j < i ==> !dash_at(s, j)
}

/// The separator pattern occurs somewhere in `s`.
pub open spec fn has_dash(s: Seq<char>) -> bool {
    exists|i: int| dash_at(s, i)
}

/// The first position where the separator pattern starts; meaningful only
/// when `has_dash` holds.
pub open spec fn first_dash(s: Seq<char>) -> int {
    choose|i: int| is_first_dash_at(s, i)
}

/// Whenever `c` occurs at all, it has a first occurrence.
proof fn lemma_first_exists(s: Seq<char>, c: char)
    requires
        has_char(s, c),
    ensures
        exists|i: int| is_first_at(s, c, i),
    decreases s.len(),
{
    if s[0] == c {
        assert(is_first_at(s, c, 0));
    } else {
        let w = choose|i: int| 0 <= i < s.len() && s[i] == c;
        assert(s.drop_first()[w - 1] == c);
        lemma_first_exists(s.drop_first(), c);
        let i = choose|i: int| is_first_at(s.drop_first(), c, i);
        assert(forall|j: int| 0 <= j < i + 1 ==> s[j] != c) by {
            assert(forall|j: int| 1 <= j < i + 1 ==> s[j] == s.drop_first()[j - 1]);
        }
        assert(is_first_at(s, c, i + 1));
    }
}

/// A position known to be the first occurrence of `c` pins `first_pos` down.
proof fn lemma_first_pos_agrees(s: Seq<char>, c: char, i: int)
    requires
        is_first_at(s, c, i),
    ensures
        has_char(s, c),
        first_pos(s, c) == i,
{
    assert(has_char(s, c));
    lemma_first_exists(s, c);
}

/// Whenever the separator occurs at all, it has a first occurrence.
proof fn lemma_first_dash_exists(s: Seq<char>)
    requires
        has_dash(s),
    ensures
        exists|i: int| is_first_dash_at(s, i),
    decreases s.len(),
{
    if dash_at(s, 0) {
        assert(is_first_dash_at(s, 0));
    } else {
        let w = choose|i: int| dash_at(s, i);
        assert(dash_at(s.drop_first(), w - 1));
        lemma_first_dash_exists(s.drop_first());
        let i = choose|i: int| is_first_dash_at(s.drop_first(), i);
        assert(forall|j: int| 0 <= j < i + 1 ==> !dash_at(s, j)) by {
            assert(forall|j: int| 1 <= j < i + 1 && dash_at(s, j) ==> dash_at(
                s.drop_first(),
                j - 1,
            ));
        }
        assert(dash_at(s, i + 1));
        assert(is_first_dash_at(s, i + 1));
    }
}

/// A position known to be the first separator start pins `first_dash` down.
proof fn lemma_first_dash_agrees(s: Seq<char>, i: int)
    requires
        is_first_dash_at(s, i),
    ensures
        has_dash(s),
        first_dash(s) == i,
{
    assert(has_dash(s));
    lemma_first_dash_exists(s);
}

/// What remains of the date cell after pass one: the text before the first
/// comma, then the text from the separator on.
pub open spec fn pass1_of(s: Seq<char>) -> Seq<char> {
    s.take(first_pos(s, ',')) + s.skip(first_dash(s))
}

/// The date cell fits the expected shape: it has a comma, the separator
/// comes no earlier than that comma, and after pass one there is a comma
/// with at least 11 characters from it to the end.
pub open spec fn date_wf(s: Seq<char>) -> bool {
    &&& has_char(s, ',')
    &&& has_dash(s)
    &&& first_pos(s, ',') <= first_dash(s)
    &&& has_char(pass1_of(s), ',')
    &&& first_pos(pass1_of(s), ',') + 11 <= pass1_of(s).len()
}

/// The cleaned date: pass one, then the 11 characters at the now-first
/// comma removed.
pub open spec fn clean_date_spec(s: Seq<char>) -> Seq<char> {
    let p = pass1_of(s);
    let c2 = first_pos(p, ',');
    p.take(c2) + p.skip(c2 + 11)
}

/// The position of the first occurrence of `c` in `s`, or `None` when `c`
/// does not occur.
pub fn find_char_pos(s: &str, c: char) -> (r: Option<usize>)
    ensures
        r matches Some(i) ==> is_first_at(s@, c, i as int),
        r is None ==> !has_char(s@, c),
{
    let n = s.unicode_len();
    let mut i: usize = 0;
    while i < n
        invariant
            i <= n,
            n == s@.len(),
            forall|j: int| 0 <= j < i ==> s@[j] != c,
        decreases n - i,
    {
        if s.get_char(i) == c {
            return Some(i);
        }
        i = i + 1;
    }
    None
}

/// The position where the separator pattern first starts in `s`, or `None`
/// when it does not occur.
pub fn find_dash_pos(s: &str) -> (r: Option<usize>)
    ensures
        r matches Some(i) ==> is_first_dash_at(s@, i as int),
        r is None ==> !has_dash(s@),
{
    let n = s.unicode_len();
    if n < 3 {
        return None;
    }
    let mut i: usize = 0;
    while i <= n - 3
        invariant
            3 <= n,
            i <= n - 2,
            n == s@.len(),
            forall|j: int| 0 <= j < i ==> !dash_at(s@, j),
        decreases n - i,
    {
        if s.get_char(i) == ' ' && s.get_char(i + 1) == '\u{2014}' && s.get_char(i + 2) == ' ' {
            return Some(i);
        }
        i = i + 1;
    }
    None
}

/// Clean one date cell by the two-pass rule, or reject a cell where the
/// expected pattern is missing (such a row is dropped by the extractor
/// rather than cut at a wrong offset).
pub fn clean_date(s: &str) -> (r: Option<String>)
    ensures
        r is Some <==> date_wf(s@),
        r matches Some(t) ==> t@ == clean_date_spec(s@),
{
    let c1 = match find_char_pos(s, ',') {
        Some(i) => i,
        None => {
            return None;
        },
    };
    let d = match find_dash_pos(s) {
        Some(i) => i,
        None => {
            return None;
        },
    };
    proof {
        lemma_first_pos_agrees(s@, ',', c1 as int);
        lemma_first_dash_agrees(s@, d as int);
    }
    if c1 > d {
        return None;
    }
    let n = s.unicode_len();
    let head = s.substring_char(0, c1);
    let tail = s.substring_char(d, n);
    let p1 = head.to_owned().concat(tail);
    proof {
        assert(p1@ == pass1_of(s@));
    }
    let c2 = match find_char_pos(p1.as_str(), ',') {
        Some(i) => i,
        None => {
            return None;
        },
    };
    proof {
        lemma_first_pos_agrees(p1@, ',', c2 as int);
    }
    let m = p1.as_str().unicode_len();
    if m < 11 || c2 > m - 11 {
        return None;
    }
    let kept_head = p1.as_str().substring_char(0, c2);
    let kept_tail = p1.as_str().substring_char(c2 + 11, m);
    Some(kept_head.to_owned().concat(kept_tail))
}

/// A needle occurs as a contiguous run inside a haystack.
pub open spec fn contains_seq(h: Seq<char>, n: Seq<char>) -> bool {
    exists|i: int| 0 <= i <= h.len() - n.len() && #[trigger] h.subrange(i, i + n.len()) == n
}

/// The cleaned date contains neither of the two spans that the cleanup
/// removed - the comma-to-separator span of pass one and the 11-character
/// span of pass two - as long as neither span happens to reoccur in the
/// text that survives after the second cut (each span begins with a comma,
/// and everything the cleanup keeps before that position is comma-free).
pub proof fn lemma_clean_date_removes_spans(s: Seq<char>)
    requires
        date_wf(s),
        first_pos(s, ',') < first_dash(s),
        !contains_seq(
            pass1_of(s).skip(first_pos(pass1_of(s), ',') + 11),
            s.subrange(first_pos(s, ','), first_dash(s)),
        ),
        !contains_seq(
            pass1_of(s).skip(first_pos(pass1_of(s), ',') + 11),
            pass1_of(s).subrange(first_pos(pass1_of(s), ','), first_pos(pass1_of(s), ',') + 11),
        ),
    ensures
        !contains_seq(clean_date_spec(s), s.subrange(first_pos(s, ','), first_dash(s))),
        !contains_seq(
            clean_date_spec(s),
            pass1_of(s).subrange(first_pos(pass1_of(s), ','), first_pos(pass1_of(s), ',') + 11),
        ),
{
    let c1 = first_pos(s, ',');
    let d = first_dash(s);
    let p = pass1_of(s);
    let c2 = first_pos(p, ',');
    let r = clean_date_spec(s);
    let t = p.skip(c2 + 11);
    let span1 = s.subrange(c1, d);
    let span2 = p.subrange(c2, c2 + 11);
    assert(is_first_at(s, ',', c1)) by {
        lemma_first_exists(s, ',');
    }
    assert(is_first_at(p, ',', c2)) by {
        lemma_first_exists(p, ',');
    }
    assert(is_first_dash_at(s, d)) by {
        lemma_first_dash_exists(s);
    }
    assert(span1[0] == ',');
    assert(span2[0] == ',');
    assert(r == p.take(c2) + t);
    lemma_no_reoccurrence(r, t, span1, c2);
    lemma_no_reoccurrence(r, t, span2, c2);
}

/// Helper: a needle that begins with a comma cannot occur in `front + t`
/// when the front part (of length `c2`, comma-free as the prefix before a
/// first comma) hides no comma and the needle does not occur in `t`.
proof fn lemma_no_reoccurrence(r: Seq<char>, t: Seq<char>, needle: Seq<char>, c2: int)
    requires
        0 <= c2,
        r.len() == c2 + t.len(),
        forall|j: int| 0 <= j < c2 ==> r[j] != ',',
        forall|j: int| 0 <= j < t.len() ==> r[c2 + j] == t[j],
        needle.len() > 0,
        needle[0] == ',',
        !contains_seq(t, needle),
    ensures
        !contains_seq(r, needle),
{
    if contains_seq(r, needle) {
        let i = choose|i: int|
            0 <= i <= r.len() - needle.len() && #[trigger] r.subrange(i, i + needle.len())
                == needle;
        assert(r[i] == needle[0]);
        assert(i >= c2);
        let k = i - c2;
        assert(t.subrange(k, k + needle.len()) =~= needle) by {
            assert(forall|j: int|
                0 <= j < needle.len() ==> t[k + j] == r[i + j] && r[i + j] == needle[j]);
        }
        assert(contains_seq(t, needle));
    }
}

} // verus!
