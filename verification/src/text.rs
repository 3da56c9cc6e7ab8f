//! Character sequences, their UTF-8 byte offsets, and the string helpers the
//! editor is built on.
//!
//! Lines are viewed as `Seq<char>`; cursor columns are byte offsets into the
//! UTF-8 encoding of a line, as `String` indices are.
use vstd::prelude::*;

verus! {

/// Number of bytes that the UTF-8 encoding of `c` takes.
pub open spec fn utf8_width(c: char) -> nat {
    if (c as u32) < 0x80 {
        1
    } else if (c as u32) < 0x800 {
        2
    } else if (c as u32) < 0x10000 {
        3
    } else {
        4
    }
}

/// Byte length of the UTF-8 encoding of a character sequence.
pub open spec fn byte_len(s: Seq<char>) -> nat
    decreases s.len(),
{
    if s.len() == 0 {
        0
    } else {
        byte_len(s.drop_last()) + utf8_width(s.last())
    }
}

/// `x` is the byte offset of a character boundary of `s` (the end included).
pub open spec fn is_boundary(s: Seq<char>, x: int) -> bool {
    exists|k: int| 0 <= k <= s.len() && #[trigger] byte_len(s.take(k)) == x
}

/// The number of characters that precede byte offset `x` of `s`.
pub open spec fn char_index(s: Seq<char>, x: int) -> int {
    choose|k: int| 0 <= k <= s.len() && #[trigger] byte_len(s.take(k)) == x
}

/// The characters of `s` before byte offset `x`.
pub open spec fn take_bytes(s: Seq<char>, x: int) -> Seq<char> {
    s.take(char_index(s, x))
}

/// The characters of `s` from byte offset `x` on.
pub open spec fn skip_bytes(s: Seq<char>, x: int) -> Seq<char> {
    s.skip(char_index(s, x))
}

/// The characters of `s` between byte offsets `x` and `y`.
pub open spec fn bytes_between(s: Seq<char>, x: int, y: int) -> Seq<char> {
    s.subrange(char_index(s, x), char_index(s, y))
}

/// `s` with `t` inserted at byte offset `x`.
pub open spec fn insert_at(s: Seq<char>, x: int, t: Seq<char>) -> Seq<char> {
    take_bytes(s, x) + t + skip_bytes(s, x)
}

/// `s` without the characters between byte offsets `x` and `y`.
pub open spec fn remove_between(s: Seq<char>, x: int, y: int) -> Seq<char> {
    take_bytes(s, x) + skip_bytes(s, y)
}

/// Byte length is additive over concatenation.
pub proof fn lemma_byte_len_concat(a: Seq<char>, b: Seq<char>)
    ensures
        byte_len(a + b) == byte_len(a) + byte_len(b),
    decreases b.len(),
{
    if b.len() == 0 {
        assert(a + b =~= a);
    } else {
        assert((a + b).drop_last() =~= a + b.drop_last());
        assert((a + b).last() == b.last());
        lemma_byte_len_concat(a, b.drop_last());
    }
}

/// Every character takes at least one byte and at most four.
pub proof fn lemma_byte_len_bounds(s: Seq<char>)
    ensures
        s.len() <= byte_len(s) <= 4 * s.len(),
    decreases s.len(),
{
    if s.len() > 0 {
        lemma_byte_len_bounds(s.drop_last());
    }
}

/// Byte length of the first `k + 1` characters.
pub proof fn lemma_byte_len_take_succ(s: Seq<char>, k: int)
    requires
        0 <= k < s.len(),
    ensures
        byte_len(s.take(k + 1)) == byte_len(s.take(k)) + utf8_width(s[k]),
{
    assert(s.take(k + 1).drop_last() =~= s.take(k));
}

/// Longer prefixes have strictly more bytes.
pub proof fn lemma_byte_len_take_strict(s: Seq<char>, i: int, j: int)
    requires
        0 <= i <= j <= s.len(),
    ensures
        byte_len(s.take(i)) + (j - i) <= byte_len(s.take(j)),
        i < j ==> byte_len(s.take(i)) < byte_len(s.take(j)),
        byte_len(s.take(j)) <= byte_len(s),
    decreases j - i,
{
    if i < j {
        lemma_byte_len_take_strict(s, i, j - 1);
        lemma_byte_len_take_succ(s, j - 1);
    }
    assert(s.take(s.len() as int) =~= s);
    assert(s =~= s.take(j) + s.skip(j));
    lemma_byte_len_concat(s.take(j), s.skip(j));
}

/// A prefix length determines the number of characters in the prefix.
pub proof fn lemma_char_index_unique(s: Seq<char>, k: int)
    requires
        0 <= k <= s.len(),
    ensures
        is_boundary(s, byte_len(s.take(k)) as int),
        char_index(s, byte_len(s.take(k)) as int) == k,
{
    let x = byte_len(s.take(k)) as int;
    assert(is_boundary(s, x));
    let j = char_index(s, x);
    if j < k {
        lemma_byte_len_take_strict(s, j, k);
    } else if k < j {
        lemma_byte_len_take_strict(s, k, j);
    }
}

/// Facts about a boundary: its character index and the split it induces.
pub proof fn lemma_boundary(s: Seq<char>, x: int)
    requires
        is_boundary(s, x),
    ensures
        0 <= char_index(s, x) <= s.len(),
        byte_len(s.take(char_index(s, x))) == x,
        byte_len(take_bytes(s, x)) == x,
        0 <= x <= byte_len(s),
        take_bytes(s, x) + skip_bytes(s, x) == s,
        byte_len(skip_bytes(s, x)) == byte_len(s) - x,
{
    let k = char_index(s, x);
    lemma_byte_len_take_strict(s, k, s.len() as int);
    lemma_byte_len_take_strict(s, 0, k);
    assert(s.take(0) =~= Seq::<char>::empty());
    assert(s.take(k) + s.skip(k) =~= s);
    lemma_byte_len_concat(s.take(k), s.skip(k));
}

/// The start and the end of a sequence are boundaries.
pub proof fn lemma_boundary_ends(s: Seq<char>)
    ensures
        is_boundary(s, 0),
        char_index(s, 0) == 0,
        is_boundary(s, byte_len(s) as int),
        char_index(s, byte_len(s) as int) == s.len(),
        take_bytes(s, 0) == Seq::<char>::empty(),
        skip_bytes(s, 0) == s,
        take_bytes(s, byte_len(s) as int) == s,
        skip_bytes(s, byte_len(s) as int) == Seq::<char>::empty(),
{
    assert(s.take(0) =~= Seq::<char>::empty());
    lemma_char_index_unique(s, 0);
    assert(s.take(s.len() as int) =~= s);
    lemma_char_index_unique(s, s.len() as int);
    assert(s.skip(0) =~= s);
    assert(s.skip(s.len() as int) =~= Seq::<char>::empty());
}

/// In `a + b`, the byte offsets of `a` keep their meaning.
pub proof fn lemma_boundary_concat_left(a: Seq<char>, b: Seq<char>, x: int)
    requires
        is_boundary(a, x),
    ensures
        is_boundary(a + b, x),
        char_index(a + b, x) == char_index(a, x),
        take_bytes(a + b, x) == take_bytes(a, x),
        skip_bytes(a + b, x) == skip_bytes(a, x) + b,
{
    let k = char_index(a, x);
    lemma_boundary(a, x);
    assert((a + b).take(k) =~= a.take(k));
    lemma_char_index_unique(a + b, k);
    assert((a + b).skip(k) =~= a.skip(k) + b);
}

/// In `a + b`, the byte offsets of `b` are shifted by the bytes of `a`.
pub proof fn lemma_boundary_concat_right(a: Seq<char>, b: Seq<char>, x: int)
    requires
        is_boundary(b, x),
    ensures
        is_boundary(a + b, byte_len(a) + x),
        char_index(a + b, byte_len(a) + x) == a.len() + char_index(b, x),
        take_bytes(a + b, byte_len(a) + x) == a + take_bytes(b, x),
        skip_bytes(a + b, byte_len(a) + x) == skip_bytes(b, x),
{
    let k = char_index(b, x);
    lemma_boundary(b, x);
    assert((a + b).take(a.len() + k) =~= a + b.take(k));
    lemma_byte_len_concat(a, b.take(k));
    lemma_char_index_unique(a + b, a.len() + k);
    assert((a + b).skip(a.len() + k) =~= b.skip(k));
}

/// The boundary right after a prefix `a` of `a + b`.
pub proof fn lemma_boundary_concat_mid(a: Seq<char>, b: Seq<char>)
    ensures
        is_boundary(a + b, byte_len(a) as int),
        take_bytes(a + b, byte_len(a) as int) == a,
        skip_bytes(a + b, byte_len(a) as int) == b,
{
    lemma_boundary_ends(b);
    lemma_boundary_concat_right(a, b, 0);
    assert(a + Seq::<char>::empty() =~= a);
}

/// Exact value of `utf8_width`.
pub fn char_utf8_width(c: char) -> (w: usize)
    ensures
        w == utf8_width(c),
        1 <= w <= 4,
{
    let u = c as u32;
    if u < 0x80 {
        1
    } else if u < 0x800 {
        2
    } else if u < 0x10000 {
        3
    } else {
        4
    }
}

/// Length in bytes of a string slice.
#[verifier::external_body]
pub fn str_byte_len(s: &str) -> (n: usize)
    ensures
        n == byte_len(s@),
{
    s.len()
}

/// Appends one character to a string.
#[verifier::external_body]
pub fn push_char(s: &mut String, c: char)
    ensures
        final(s)@ == old(s)@.push(c),
{
    s.push(c)
}

/// The characters of a string slice, in order.
pub fn chars_of(s: &str) -> (v: Vec<char>)
    ensures
        v@ == s@,
{
    broadcast use vstd::string::group_string_axioms;

    let mut v: Vec<char> = Vec::new();
    for c in it: s.chars()
        invariant
            v@ == it.seq().take(it.index() as int),
    {
        v.push(c);
    }
    v
}

/// A string made of the characters of `v[from..to]`.
pub fn string_of_range(v: &Vec<char>, from: usize, to: usize) -> (s: String)
    requires
        from <= to <= v.len(),
    ensures
        s@ == v@.subrange(from as int, to as int),
{
    let mut s = String::new();
    let mut i = from;
    while i < to
        invariant
            from <= i <= to <= v.len(),
            s@ == v@.subrange(from as int, i as int),
        decreases to - i,
    {
        push_char(&mut s, v[i]);
        assert(v@.subrange(from as int, i + 1) =~= v@.subrange(from as int, i as int).push(v@[i as int]));
        i = i + 1;
    }
    s
}

/// A string made of the characters of `v`.
pub fn string_of(v: &Vec<char>) -> (s: String)
    ensures
        s@ == v@,
{
    let s = string_of_range(v, 0, v.len());
    assert(v@.subrange(0, v@.len() as int) =~= v@);
    s
}

/// Characters of `a` followed by those of `b`.
pub fn concat_chars(a: &Vec<char>, b: &Vec<char>) -> (r: Vec<char>)
    ensures
        r@ == a@ + b@,
{
    let mut r = a.clone();
    let mut i: usize = 0;
    while i < b.len()
        invariant
            i <= b.len(),
            r@ == a@ + b@.take(i as int),
        decreases b.len() - i,
    {
        r.push(b[i]);
        assert(b@.take(i + 1) =~= b@.take(i as int).push(b@[i as int]));
        assert(a@ + b@.take(i + 1) =~= (a@ + b@.take(i as int)).push(b@[i as int]));
        i = i + 1;
    }
    assert(b@.take(b.len() as int) =~= b@);
    r
}

/// The string `a` followed by `b`.
pub fn concat_strings(a: &str, b: &str) -> (r: String)
    ensures
        r@ == a@ + b@,
{
    let va = chars_of(a);
    let vb = chars_of(b);
    let v = concat_chars(&va, &vb);
    string_of(&v)
}

/// The number of characters before byte offset `x`, if `x` is a boundary.
pub fn char_index_of(v: &Vec<char>, x: usize) -> (r: Option<usize>)
    ensures
        r is Some <==> is_boundary(v@, x as int),
        r matches Some(k) ==> k <= v.len() && k == char_index(v@, x as int) && byte_len(
            v@.take(k as int),
        ) == x,
{
    let mut k: usize = 0;
    let mut acc: usize = 0;
    assert(v@.take(0) =~= Seq::<char>::empty());
    while k < v.len() && acc < x
        invariant
            k <= v.len(),
            acc <= x,
            acc == byte_len(v@.take(k as int)),
            forall|j: int| 0 <= j < k ==> byte_len(#[trigger] v@.take(j)) < x,
        decreases v.len() - k,
    {
        let w = char_utf8_width(v[k]);
        proof {
            lemma_byte_len_take_succ(v@, k as int);
        }
        if w > x - acc {
            proof {
                assert forall|j: int| 0 <= j <= v.len() implies byte_len(#[trigger] v@.take(j))
                    != x by {
                    if j > k {
                        lemma_byte_len_take_strict(v@, k + 1, j);
                    }
                }
            }
            return None;
        }
        acc = acc + w;
        k = k + 1;
    }
    if acc == x {
        proof {
            lemma_char_index_unique(v@, k as int);
        }
        Some(k)
    } else {
        proof {
            assert forall|j: int| 0 <= j <= v.len() implies byte_len(#[trigger] v@.take(j)) != x by {
                if j > k {
                    lemma_byte_len_take_strict(v@, k as int, j);
                }
            }
        }
        None
    }
}

/// Byte offset of the first `k` characters of `v`.
pub fn byte_offset_of(v: &Vec<char>, k: usize) -> (x: usize)
    requires
        k <= v.len(),
        byte_len(v@) <= usize::MAX,
    ensures
        x == byte_len(v@.take(k as int)),
{
    let mut i: usize = 0;
    let mut acc: usize = 0;
    assert(v@.take(0) =~= Seq::<char>::empty());
    while i < k
        invariant
            i <= k <= v.len(),
            byte_len(v@) <= usize::MAX,
            acc == byte_len(v@.take(i as int)),
        decreases k - i,
    {
        proof {
            lemma_byte_len_take_succ(v@, i as int);
            lemma_byte_len_take_strict(v@, i + 1, v.len() as int);
        }
        acc = acc + char_utf8_width(v[i]);
        i = i + 1;
    }
    acc
}

/// Byte length of a character vector.
pub fn chars_byte_len(v: &Vec<char>) -> (n: usize)
    requires
        byte_len(v@) <= usize::MAX,
    ensures
        n == byte_len(v@),
{
    assert(v@.take(v.len() as int) =~= v@);
    byte_offset_of(v, v.len())
}

/// Whether two character sequences are equal.
pub fn chars_eq(a: &Vec<char>, b: &Vec<char>) -> (r: bool)
    ensures
        r == (a@ == b@),
{
    if a.len() != b.len() {
        return false;
    }
    let mut i: usize = 0;
    while i < a.len()
        invariant
            i <= a.len() == b.len(),
            forall|j: int| 0 <= j < i ==> a@[j] == b@[j],
        decreases a.len() - i,
    {
        if a[i] != b[i] {
            return false;
        }
        i = i + 1;
    }
    assert(a@ =~= b@);
    true
}

/// Whether a string equals a given character sequence.
pub fn str_eq(s: &str, t: &str) -> (r: bool)
    ensures
        r == (s@ == t@),
{
    let a = chars_of(s);
    let b = chars_of(t);
    chars_eq(&a, &b)
}


/// Columns that `unicode-width` gives a character (`None` for control
/// characters).
pub uninterp spec fn unicode_width(c: char) -> Option<usize>;

/// Display width of a character, by `unicode_width::UnicodeWidthChar::width`.
#[verifier::external_body]
pub fn char_width(c: char) -> (w: Option<usize>)
    ensures
        w == unicode_width(c),
        (c as u32) < 0x20 ==> w is None,
        0x7f <= (c as u32) < 0xa0 ==> w is None,
        0x20 <= (c as u32) < 0x7f ==> w == Some(1usize),
        w matches Some(n) ==> n <= 3,
{
    unicode_width::UnicodeWidthChar::width(c)
}

/// Tab stops are four columns apart.
pub const TAB_STOP: usize = 4;

/// Columns that `c` takes when it starts at column `col`: a tab reaches the
/// next tab stop, a control character takes none.
pub open spec fn char_columns(c: char, col: nat) -> nat {
    if c == '\t' {
        (TAB_STOP - col % (TAB_STOP as nat)) as nat
    } else {
        match unicode_width(c) {
            Some(w) => w as nat,
            None => 0,
        }
    }
}

/// `n`, or the largest `usize` if `n` is larger.
pub open spec fn saturate(n: nat) -> nat {
    if n > usize::MAX {
        usize::MAX as nat
    } else {
        n
    }
}

/// Columns that a character sequence takes on screen (counted up to the
/// largest `usize`).
pub open spec fn display_width(s: Seq<char>) -> nat
    decreases s.len(),
{
    if s.len() == 0 {
        0
    } else {
        let w = display_width(s.drop_last());
        saturate(w + char_columns(s.last(), w))
    }
}

/// `i` is the number of boundaries of `s` below byte offset `x` (the end
/// counts as a boundary).
pub open spec fn is_boundary_count(s: Seq<char>, x: int, i: int) -> bool {
    &&& 0 <= i <= s.len() + 1
    &&& forall|j: int| 0 <= j < i ==> byte_len(#[trigger] s.take(j)) < x
    &&& i <= s.len() ==> byte_len(s.take(i)) >= x
}

/// The number of boundaries of `s` below byte offset `x`.
pub open spec fn boundaries_below(s: Seq<char>, x: int) -> int {
    choose|i: int| is_boundary_count(s, x, i)
}

/// The number of characters of `s` that start before byte offset `x`.
pub open spec fn chars_before(s: Seq<char>, x: int) -> int {
    let b = boundaries_below(s, x);
    if b > s.len() {
        s.len() as int
    } else {
        b
    }
}

/// The largest boundary of `s` below byte offset `x`, for `x > 0`.
pub open spec fn prev_boundary(s: Seq<char>, x: int) -> int {
    byte_len(s.take(boundaries_below(s, x) - 1)) as int
}

/// The smallest boundary of `s` from byte offset `x` on, for
/// `x <= byte_len(s)`.
pub open spec fn next_boundary(s: Seq<char>, x: int) -> int {
    byte_len(s.take(boundaries_below(s, x))) as int
}

/// Columns taken by the characters of `s` that start before byte offset `x`.
pub open spec fn width_before(s: Seq<char>, x: int) -> nat {
    display_width(s.take(chars_before(s, x)))
}

/// `k` characters of `s` fit before column `dx`: the scan stops at the
/// first character that starts at or after `dx` or would end after it.
pub open spec fn is_column_stop(s: Seq<char>, dx: int, k: int) -> bool {
    &&& 0 <= k <= s.len()
    &&& forall|j: int|
        0 <= j < k ==> display_width(#[trigger] s.take(j)) < dx && display_width(s.take(j + 1))
            <= dx
    &&& k < s.len() ==> display_width(s.take(k)) >= dx || display_width(s.take(k + 1)) > dx
}

/// The number of characters of `s` placed before column `dx`.
pub open spec fn column_stop(s: Seq<char>, dx: int) -> int {
    choose|k: int| is_column_stop(s, dx, k)
}

pub proof fn lemma_boundary_count_unique(s: Seq<char>, x: int, i: int)
    requires
        is_boundary_count(s, x, i),
    ensures
        boundaries_below(s, x) == i,
{
    let b = boundaries_below(s, x);
    assert(is_boundary_count(s, x, b));
    if b < i {
        assert(byte_len(s.take(b)) < x);
    } else if i < b {
        assert(byte_len(s.take(i)) < x);
    }
}

pub proof fn lemma_column_stop_unique(s: Seq<char>, dx: int, k: int)
    requires
        is_column_stop(s, dx, k),
    ensures
        column_stop(s, dx) == k,
{
    let c = column_stop(s, dx);
    assert(is_column_stop(s, dx, c));
    if c < k {
        assert(display_width(s.take(c)) < dx);
    } else if k < c {
        assert(display_width(s.take(k)) < dx);
    }
}

/// Width of a prefix one character longer.
pub proof fn lemma_display_width_take_succ(s: Seq<char>, k: int)
    requires
        0 <= k < s.len(),
    ensures
        display_width(s.take(k + 1)) == saturate(
            display_width(s.take(k)) + char_columns(s[k], display_width(s.take(k))),
        ),
{
    assert(s.take(k + 1).drop_last() =~= s.take(k));
}

/// Columns that `c` takes when it starts at column `col`.
pub fn columns_of(c: char, col: usize) -> (n: usize)
    ensures
        n == char_columns(c, col as nat),
        n <= 4,
{
    if c == '\t' {
        TAB_STOP - (col % TAB_STOP)
    } else {
        match char_width(c) {
            Some(w) => w,
            None => 0,
        }
    }
}

/// Columns taken by the characters of `line` that start before byte
/// offset `until_byte`.
pub fn width_until(line: &Vec<char>, until_byte: usize) -> (w: usize)
    requires
        byte_len(line@) <= usize::MAX,
    ensures
        w == width_before(line@, until_byte as int),
{
    let s = Ghost(line@);
    let mut width: usize = 0;
    let mut bytes: usize = 0;
    let mut i: usize = 0;
    assert(line@.take(0) =~= Seq::<char>::empty());
    while i < line.len() && bytes < until_byte
        invariant
            i <= line.len(),
            s@ == line@,
            byte_len(s@) <= usize::MAX,
            bytes == byte_len(s@.take(i as int)),
            width == display_width(s@.take(i as int)),
            forall|j: int| 0 <= j < i ==> byte_len(#[trigger] s@.take(j)) < until_byte,
        decreases line.len() - i,
    {
        let c = line[i];
        proof {
            lemma_display_width_take_succ(s@, i as int);
            lemma_byte_len_take_succ(s@, i as int);
            lemma_byte_len_take_strict(s@, i + 1, s@.len() as int);
            lemma_byte_len_bounds(s@);
        }
        let n = columns_of(c, width);
        width = width.saturating_add(n);
        bytes = bytes + char_utf8_width(c);
        i = i + 1;
    }
    proof {
        if i < line.len() || bytes >= until_byte {
            lemma_boundary_count_unique(s@, until_byte as int, i as int);
        } else {
            lemma_boundary_count_unique(s@, until_byte as int, i + 1);
        }
    }
    width
}

/// The byte offset and the column of the first character of `line` that
/// does not fit before column `display_x`.
pub fn position_for_column(line: &Vec<char>, display_x: usize) -> (r: (usize, usize))
    requires
        byte_len(line@) <= usize::MAX,
    ensures
        r.0 == byte_len(line@.take(column_stop(line@, display_x as int))),
        r.1 == display_width(line@.take(column_stop(line@, display_x as int))),
        0 <= column_stop(line@, display_x as int) <= line@.len(),
{
    let s = Ghost(line@);
    let mut cur: usize = 0;
    let mut byte_pos: usize = 0;
    let mut i: usize = 0;
    assert(line@.take(0) =~= Seq::<char>::empty());
    while i < line.len()
        invariant
            i <= line.len(),
            s@ == line@,
            byte_len(s@) <= usize::MAX,
            byte_pos == byte_len(s@.take(i as int)),
            cur == display_width(s@.take(i as int)),
            forall|j: int|
                0 <= j < i ==> display_width(#[trigger] s@.take(j)) < display_x
                    && display_width(s@.take(j + 1)) <= display_x,
        decreases line.len() - i,
    {
        let c = line[i];
        proof {
            lemma_display_width_take_succ(s@, i as int);
            lemma_byte_len_take_succ(s@, i as int);
            lemma_byte_len_take_strict(s@, i + 1, s@.len() as int);
        }
        if cur >= display_x {
            proof {
                lemma_column_stop_unique(s@, display_x as int, i as int);
            }
            return (byte_pos, cur);
        }
        let next = cur.saturating_add(columns_of(c, cur));
        if next > display_x {
            proof {
                lemma_column_stop_unique(s@, display_x as int, i as int);
            }
            return (byte_pos, cur);
        }
        cur = next;
        byte_pos = byte_pos + char_utf8_width(c);
        i = i + 1;
    }
    proof {
        lemma_column_stop_unique(s@, display_x as int, i as int);
    }
    (byte_pos, cur)
}

/// The largest boundary of `v` below byte offset `x`.
pub fn prev_boundary_of(v: &Vec<char>, x: usize) -> (r: usize)
    requires
        x > 0,
        byte_len(v@) <= usize::MAX,
    ensures
        r == prev_boundary(v@, x as int),
        r < x,
        is_boundary(v@, r as int),
{
    let s = Ghost(v@);
    let mut i: usize = 0;
    let mut acc: usize = 0;
    let mut prev: usize = 0;
    assert(v@.take(0) =~= Seq::<char>::empty());
    // invariant: acc = bytes of the first i characters; all of them end below x
    while i < v.len() && acc < x
        invariant
            i <= v.len(),
            s@ == v@,
            byte_len(s@) <= usize::MAX,
            acc == byte_len(s@.take(i as int)),
            forall|j: int| 0 <= j < i ==> byte_len(#[trigger] s@.take(j)) < x,
            i > 0 ==> prev == byte_len(s@.take(i - 1)),
        decreases v.len() - i,
    {
        proof {
            lemma_byte_len_take_succ(s@, i as int);
            lemma_byte_len_take_strict(s@, i + 1, s@.len() as int);
        }
        prev = acc;
        acc = acc + char_utf8_width(v[i]);
        i = i + 1;
    }
    proof {
        if i < v.len() || acc >= x {
            lemma_boundary_count_unique(s@, x as int, i as int);
        } else {
            lemma_boundary_count_unique(s@, x as int, i + 1);
        }
    }
    if i < v.len() || acc >= x {
        proof {
            lemma_char_index_unique(s@, i - 1);
        }
        prev
    } else {
        proof {
            lemma_char_index_unique(s@, i as int);
        }
        acc
    }
}

/// The smallest boundary of `v` from byte offset `x` on.
pub fn next_boundary_of(v: &Vec<char>, x: usize) -> (r: usize)
    requires
        x <= byte_len(v@) <= usize::MAX,
    ensures
        r == next_boundary(v@, x as int),
        x <= r <= byte_len(v@),
        is_boundary(v@, r as int),
{
    let s = Ghost(v@);
    let mut i: usize = 0;
    let mut acc: usize = 0;
    assert(v@.take(0) =~= Seq::<char>::empty());
    assert(v@.take(v.len() as int) =~= v@);
    while i < v.len() && acc < x
        invariant
            i <= v.len(),
            s@ == v@,
            x <= byte_len(s@) <= usize::MAX,
            acc == byte_len(s@.take(i as int)),
            forall|j: int| 0 <= j < i ==> byte_len(#[trigger] s@.take(j)) < x,
            s@.take(s@.len() as int) == s@,
        decreases v.len() - i,
    {
        proof {
            lemma_byte_len_take_succ(s@, i as int);
            lemma_byte_len_take_strict(s@, i + 1, s@.len() as int);
        }
        acc = acc + char_utf8_width(v[i]);
        i = i + 1;
    }
    proof {
        lemma_boundary_count_unique(s@, x as int, i as int);
        lemma_char_index_unique(s@, i as int);
        lemma_byte_len_take_strict(s@, i as int, s@.len() as int);
    }
    acc
}


/// `s` without its last character (`String::pop`), or `s` when empty.
pub fn without_last_char(s: &str) -> (r: String)
    ensures
        r@ == if s@.len() == 0 {
            s@
        } else {
            s@.drop_last()
        },
{
    let v = chars_of(s);
    if v.len() == 0 {
        return string_of(&v);
    }
    let r = string_of_range(&v, 0, v.len() - 1);
    assert(v@.subrange(0, v.len() - 1) =~= v@.drop_last());
    r
}

/// Between two boundaries, the one with fewer bytes has fewer characters.
pub proof fn lemma_char_index_monotone(s: Seq<char>, x: int, y: int)
    requires
        is_boundary(s, x),
        is_boundary(s, y),
        x <= y,
    ensures
        char_index(s, x) <= char_index(s, y),
{
    lemma_boundary(s, x);
    lemma_boundary(s, y);
    if char_index(s, y) < char_index(s, x) {
        lemma_byte_len_take_strict(s, char_index(s, y), char_index(s, x));
    }
}


/// The decimal digits of `n`.
pub open spec fn decimal(n: nat) -> Seq<char>
    decreases n,
{
    if n < 10 {
        seq![(48 + n) as char]
    } else {
        decimal(n / 10).push((48 + n % 10) as char)
    }
}

/// The decimal digits of `n`, as a string.
pub fn decimal_string(n: usize) -> (s: String)
    ensures
        s@ == decimal(n as nat),
    decreases n,
{
    let d: u8 = (n % 10) as u8;
    let c = (d + 48) as char;
    assert(c == (48 + n % 10) as char);
    if n < 10 {
        let mut s = String::new();
        push_char(&mut s, c);
        assert(s@ =~= decimal(n as nat));
        s
    } else {
        let mut s = decimal_string(n / 10);
        push_char(&mut s, c);
        s
    }
}


/// A sequence of ASCII characters takes one byte per character.
pub proof fn lemma_byte_len_ascii(s: Seq<char>)
    requires
        forall|i: int| 0 <= i < s.len() ==> (#[trigger] s[i] as u32) < 0x80,
    ensures
        byte_len(s) == s.len(),
    decreases s.len(),
{
    if s.len() > 0 {
        lemma_byte_len_ascii(s.drop_last());
    }
}

} // verus!
