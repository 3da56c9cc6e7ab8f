//! Character classes, and the runs of one class that word moves and word
//! deletion skip.
use crate::lines::{is_whitespace, is_ws};
use vstd::prelude::*;

verus! {

/// The classes that words are made of.
#[derive(PartialEq, Eq, Structural, Clone, Copy, Debug)]
pub enum CharType {
    Kanji,
    Hiragana,
    Katakana,
    Alphanumeric,
    Punctuation,
    Whitespace,
    Other,
}

/// The class of a character: whitespace, the Japanese full stop and comma,
/// ASCII and full-width letters and digits, hiragana, katakana, kanji
/// (CJK unified ideographs), or anything else.
pub open spec fn char_type(c: char) -> CharType {
    let u = c as u32;
    if is_ws(c) {
        CharType::Whitespace
    } else if u == 0x3002 || u == 0x3001 {
        CharType::Punctuation
    } else if (0x30 <= u <= 0x39) || (0x41 <= u <= 0x5a) || (0x61 <= u <= 0x7a) {
        CharType::Alphanumeric
    } else if 0x3040 <= u <= 0x309f {
        CharType::Hiragana
    } else if 0x30a0 <= u <= 0x30ff {
        CharType::Katakana
    } else if 0x4e00 <= u <= 0x9fff {
        CharType::Kanji
    } else if (0xff10 <= u <= 0xff19) || (0xff21 <= u <= 0xff3a) || (0xff41 <= u <= 0xff5a) {
        CharType::Alphanumeric
    } else {
        CharType::Other
    }
}

/// The class of a character.
pub fn get_char_type(ch: char) -> (r: CharType)
    ensures
        r == char_type(ch),
{
    let u = ch as u32;
    if is_whitespace(ch) {
        CharType::Whitespace
    } else if u == 0x3002 || u == 0x3001 {
        CharType::Punctuation
    } else if (0x30 <= u && u <= 0x39) || (0x41 <= u && u <= 0x5a) || (0x61 <= u && u <= 0x7a) {
        CharType::Alphanumeric
    } else if 0x3040 <= u && u <= 0x309f {
        CharType::Hiragana
    } else if 0x30a0 <= u && u <= 0x30ff {
        CharType::Katakana
    } else if 0x4e00 <= u && u <= 0x9fff {
        CharType::Kanji
    } else if (0xff10 <= u && u <= 0xff19) || (0xff21 <= u && u <= 0xff3a) || (0xff41 <= u && u
        <= 0xff5a) {
        CharType::Alphanumeric
    } else {
        CharType::Other
    }
}

/// `j` is where the run of class `t` that ends at index `i` of `s` starts.
pub open spec fn is_run_start(s: Seq<char>, i: int, t: CharType, j: int) -> bool {
    &&& 0 <= j <= i <= s.len()
    &&& forall|m: int| j <= m < i ==> char_type(#[trigger] s[m]) == t
    &&& j > 0 ==> char_type(s[j - 1]) != t
}

/// Where the run of class `t` that ends at index `i` of `s` starts.
pub open spec fn run_start(s: Seq<char>, i: int, t: CharType) -> int {
    choose|j: int| is_run_start(s, i, t, j)
}

/// `e` is where the run of class `t` that starts at index `i` of `s` ends.
pub open spec fn is_run_end(s: Seq<char>, i: int, t: CharType, e: int) -> bool {
    &&& 0 <= i <= e <= s.len()
    &&& forall|m: int| i <= m < e ==> char_type(#[trigger] s[m]) == t
    &&& e < s.len() ==> char_type(s[e]) != t
}

/// Where the run of class `t` that starts at index `i` of `s` ends.
pub open spec fn run_end(s: Seq<char>, i: int, t: CharType) -> int {
    choose|e: int| is_run_end(s, i, t, e)
}

pub proof fn lemma_run_start(s: Seq<char>, i: int, t: CharType, j: int)
    requires
        is_run_start(s, i, t, j),
    ensures
        run_start(s, i, t) == j,
{
    let c = run_start(s, i, t);
    assert(is_run_start(s, i, t, c));
    if c < j {
        assert(char_type(s[j - 1]) == t);
    } else if j < c {
        assert(char_type(s[c - 1]) == t);
    }
}

pub proof fn lemma_run_end(s: Seq<char>, i: int, t: CharType, e: int)
    requires
        is_run_end(s, i, t, e),
    ensures
        run_end(s, i, t) == e,
{
    let c = run_end(s, i, t);
    assert(is_run_end(s, i, t, c));
    if c < e {
        assert(char_type(s[c]) == t);
    } else if e < c {
        assert(char_type(s[e]) == t);
    }
}

/// The start of the run of class `t` that ends at index `i` of `v`.
pub fn run_start_of(v: &Vec<char>, i: usize, t: CharType) -> (j: usize)
    requires
        i <= v.len(),
    ensures
        j == run_start(v@, i as int, t),
        is_run_start(v@, i as int, t, j as int),
        j <= i,
{
    let mut j = i;
    while j > 0 && get_char_type(v[j - 1]) == t
        invariant
            j <= i <= v.len(),
            forall|m: int| j <= m < i ==> char_type(#[trigger] v@[m]) == t,
        decreases j,
    {
        j = j - 1;
    }
    proof {
        lemma_run_start(v@, i as int, t, j as int);
    }
    j
}

/// The end of the run of class `t` that starts at index `i` of `v`.
pub fn run_end_of(v: &Vec<char>, i: usize, t: CharType) -> (e: usize)
    requires
        i <= v.len(),
    ensures
        e == run_end(v@, i as int, t),
        is_run_end(v@, i as int, t, e as int),
        i <= e <= v.len(),
{
    let mut e = i;
    while e < v.len() && get_char_type(v[e]) == t
        invariant
            i <= e <= v.len(),
            forall|m: int| i <= m < e ==> char_type(#[trigger] v@[m]) == t,
        decreases v.len() - e,
    {
        e = e + 1;
    }
    proof {
        lemma_run_end(v@, i as int, t, e as int);
    }
    e
}

/// The character index where word deletion to the left of index `k > 0`
/// stops: the start of the run of the character before `k` (just that
/// character if it is whitespace), and then of the whitespace before it.
pub open spec fn word_delete_start(s: Seq<char>, k: int) -> int {
    let t = char_type(s[k - 1]);
    let b = if t == CharType::Whitespace {
        k - 1
    } else {
        run_start(s, k, t)
    };
    run_start(s, b, CharType::Whitespace)
}

/// The character index where a move one word left from index `k` stops:
/// back over whitespace, then over the run of the character before.
pub open spec fn word_left_stop(s: Seq<char>, k: int) -> int {
    let b = run_start(s, k, CharType::Whitespace);
    if b > 0 {
        run_start(s, b, char_type(s[b - 1]))
    } else {
        b
    }
}

/// The character index where a move one word right from index `k` stops:
/// over whitespace, then over the run of the character after.
pub open spec fn word_right_stop(s: Seq<char>, k: int) -> int {
    let e = run_end(s, k, CharType::Whitespace);
    if e < s.len() {
        run_end(s, e, char_type(s[e]))
    } else {
        e
    }
}

/// The character index where word deletion left of index `k > 0` stops.
pub fn find_word_boundary_left(v: &Vec<char>, k: usize) -> (r: usize)
    requires
        0 < k <= v.len(),
    ensures
        r == word_delete_start(v@, k as int),
        r < k,
{
    let t = get_char_type(v[k - 1]);
    let b = if t == CharType::Whitespace {
        k - 1
    } else {
        run_start_of(v, k, t)
    };
    proof {
        if t != CharType::Whitespace {
            assert(char_type(v@[k - 1]) == t);
            if b == k {
                assert(false);
            }
        }
    }
    run_start_of(v, b, CharType::Whitespace)
}

/// The character index where a move one word left from index `k` stops.
pub fn word_left_of(v: &Vec<char>, k: usize) -> (r: usize)
    requires
        k <= v.len(),
    ensures
        r == word_left_stop(v@, k as int),
        r <= k,
        k > 0 ==> r < k,
{
    proof {
        if k > 0 {
            law_word_left_crosses_a_word(v@, k as int);
        }
    }
    let b = run_start_of(v, k, CharType::Whitespace);
    if b > 0 {
        run_start_of(v, b, get_char_type(v[b - 1]))
    } else {
        b
    }
}

/// The character index where a move one word right from index `k` stops.
pub fn word_right_of(v: &Vec<char>, k: usize) -> (r: usize)
    requires
        k <= v.len(),
    ensures
        r == word_right_stop(v@, k as int),
        k <= r <= v.len(),
        k < v.len() ==> k < r,
{
    proof {
        if k < v.len() {
            law_word_right_crosses_a_word(v@, k as int);
        }
    }
    let e = run_end_of(v, k, CharType::Whitespace);
    if e < v.len() {
        run_end_of(v, e, get_char_type(v[e]))
    } else {
        e
    }
}

/// The run of class `t` that starts at index `i` ends somewhere.
pub proof fn lemma_run_end_exists(s: Seq<char>, i: int, t: CharType)
    requires
        0 <= i <= s.len(),
    ensures
        is_run_end(s, i, t, run_end(s, i, t)),
    decreases s.len() - i,
{
    if i == s.len() || char_type(s[i]) != t {
        lemma_run_end(s, i, t, i);
    } else {
        lemma_run_end_exists(s, i + 1, t);
        let e = run_end(s, i + 1, t);
        assert(is_run_end(s, i, t, e)) by {
            assert forall|m: int| i <= m < e implies char_type(#[trigger] s[m]) == t by {
                if m > i {
                    assert(i + 1 <= m < e);
                }
            }
        }
        lemma_run_end(s, i, t, e);
    }
}

/// The run of class `t` that ends at index `i` starts somewhere.
pub proof fn lemma_run_start_exists(s: Seq<char>, i: int, t: CharType)
    requires
        0 <= i <= s.len(),
    ensures
        is_run_start(s, i, t, run_start(s, i, t)),
    decreases i,
{
    if i == 0 || char_type(s[i - 1]) != t {
        lemma_run_start(s, i, t, i);
    } else {
        lemma_run_start_exists(s, i - 1, t);
        let j = run_start(s, i - 1, t);
        assert(is_run_start(s, i, t, j)) by {
            assert forall|m: int| j <= m < i implies char_type(#[trigger] s[m]) == t by {
                if m < i - 1 {
                    assert(j <= m < i - 1);
                }
            }
        }
        lemma_run_start(s, i, t, j);
    }
}

/// The classes of characters: ASCII and full-width letters and digits are
/// alphanumeric, the Japanese full stop and comma are punctuation, and
/// hiragana, katakana and the CJK unified ideographs (kanji) each form a
/// class of their own; spaces, tabs and line breaks are whitespace.
pub proof fn law_character_classes(c: char)
    ensures
        (0x30 <= c as u32 <= 0x39 || 0x41 <= c as u32 <= 0x5a || 0x61 <= c as u32 <= 0x7a)
            ==> char_type(c) == CharType::Alphanumeric,
        (0xff10 <= c as u32 <= 0xff19 || 0xff21 <= c as u32 <= 0xff3a || 0xff41 <= c as u32
            <= 0xff5a) ==> char_type(c) == CharType::Alphanumeric,
        (c as u32 == 0x3001 || c as u32 == 0x3002) ==> char_type(c) == CharType::Punctuation,
        0x3040 <= c as u32 <= 0x309f ==> char_type(c) == CharType::Hiragana,
        0x30a0 <= c as u32 <= 0x30ff ==> char_type(c) == CharType::Katakana,
        0x4e00 <= c as u32 <= 0x9fff ==> char_type(c) == CharType::Kanji,
        (c == ' ' || c == '\t' || c == '\n' || c == '\r') ==> char_type(c) == CharType::Whitespace,
{
}

/// A move one word right from a character of a line goes past it: over the
/// whitespace that starts at the cursor, and then to the end of the run of
/// characters of the class of the first character after that whitespace.
pub proof fn law_word_right_crosses_a_word(s: Seq<char>, k: int)
    requires
        0 <= k < s.len(),
    ensures
        k < word_right_stop(s, k) <= s.len(),
        forall|m: int|
            #[trigger] is_run_end(s, k, CharType::Whitespace, m) ==> if m < s.len() {
                &&& m < word_right_stop(s, k)
                &&& is_run_end(s, m, char_type(s[m]), word_right_stop(s, k))
            } else {
                word_right_stop(s, k) == s.len()
            },
{
    lemma_run_end_exists(s, k, CharType::Whitespace);
    let e = run_end(s, k, CharType::Whitespace);
    if e < s.len() {
        lemma_run_end_exists(s, e, char_type(s[e]));
    }
    assert forall|m: int| #[trigger] is_run_end(s, k, CharType::Whitespace, m) implies if m
        < s.len() {
        &&& m < word_right_stop(s, k)
        &&& is_run_end(s, m, char_type(s[m]), word_right_stop(s, k))
    } else {
        word_right_stop(s, k) == s.len()
    } by {
        lemma_run_end(s, k, CharType::Whitespace, m);
    }
}

/// A move one word left from inside or at the end of a line goes before
/// the cursor: back over the whitespace that ends at the cursor, and then
/// to the start of the run of characters of the class of the character
/// before that whitespace.
pub proof fn law_word_left_crosses_a_word(s: Seq<char>, k: int)
    requires
        0 < k <= s.len(),
    ensures
        0 <= word_left_stop(s, k) < k,
        forall|m: int|
            #[trigger] is_run_start(s, k, CharType::Whitespace, m) ==> if m > 0 {
                &&& word_left_stop(s, k) < m
                &&& is_run_start(s, m, char_type(s[m - 1]), word_left_stop(s, k))
            } else {
                word_left_stop(s, k) == 0
            },
{
    lemma_run_start_exists(s, k, CharType::Whitespace);
    let b = run_start(s, k, CharType::Whitespace);
    if b > 0 {
        lemma_run_start_exists(s, b, char_type(s[b - 1]));
    }
    assert forall|m: int| #[trigger] is_run_start(s, k, CharType::Whitespace, m) implies if m
        > 0 {
        &&& word_left_stop(s, k) < m
        &&& is_run_start(s, m, char_type(s[m - 1]), word_left_stop(s, k))
    } else {
        word_left_stop(s, k) == 0
    } by {
        lemma_run_start(s, k, CharType::Whitespace, m);
    }
}

/// Word deletion left of the cursor removes the character before it and,
/// unless that is whitespace, the rest of its run of one class; then the
/// whitespace before that.
pub proof fn law_word_delete_crosses_a_word(s: Seq<char>, k: int)
    requires
        0 < k <= s.len(),
    ensures
        0 <= word_delete_start(s, k) < k,
        forall|b: int|
            #[trigger] is_run_start(s, k, char_type(s[k - 1]), b) ==> is_run_start(
                s,
                if char_type(s[k - 1]) == CharType::Whitespace {
                    k - 1
                } else {
                    b
                },
                CharType::Whitespace,
                word_delete_start(s, k),
            ),
{
    let t = char_type(s[k - 1]);
    lemma_run_start_exists(s, k, t);
    let b0 = run_start(s, k, t);
    let b = if t == CharType::Whitespace {
        k - 1
    } else {
        b0
    };
    lemma_run_start_exists(s, b, CharType::Whitespace);
    assert forall|b1: int| #[trigger] is_run_start(s, k, t, b1) implies is_run_start(
        s,
        if t == CharType::Whitespace {
            k - 1
        } else {
            b1
        },
        CharType::Whitespace,
        word_delete_start(s, k),
    ) by {
        lemma_run_start(s, k, t, b1);
    }
}

} // verus!
