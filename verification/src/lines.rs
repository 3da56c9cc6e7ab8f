//! Whitespace, trimming and prefixes of lines viewed as character sequences.
use crate::document::view_lines;
use crate::text::{chars_of, string_of};
use vstd::prelude::*;

verus! {

/// The Unicode `White_Space` property, which `char::is_whitespace` tests.
pub open spec fn is_ws(c: char) -> bool {
    let u = c as u32;
    ||| 0x9 <= u <= 0xd
    ||| u == 0x20
    ||| u == 0x85
    ||| u == 0xa0
    ||| u == 0x1680
    ||| 0x2000 <= u <= 0x200a
    ||| u == 0x2028
    ||| u == 0x2029
    ||| u == 0x202f
    ||| u == 0x205f
    ||| u == 0x3000
}

/// Whether `c` is whitespace, as `char::is_whitespace` says.
pub fn is_whitespace(c: char) -> (r: bool)
    ensures
        r == is_ws(c),
{
    let u = c as u32;
    (0x9 <= u && u <= 0xd) || u == 0x20 || u == 0x85 || u == 0xa0 || u == 0x1680 || (0x2000 <= u
        && u <= 0x200a) || u == 0x2028 || u == 0x2029 || u == 0x202f || u == 0x205f || u == 0x3000
}

/// `k` is the number of whitespace characters that `s` starts with.
pub open spec fn is_ws_run(s: Seq<char>, k: int) -> bool {
    &&& 0 <= k <= s.len()
    &&& forall|j: int| 0 <= j < k ==> is_ws(#[trigger] s[j])
    &&& k < s.len() ==> !is_ws(s[k])
}

/// The number of whitespace characters that `s` starts with.
pub open spec fn leading_ws(s: Seq<char>) -> int {
    choose|k: int| is_ws_run(s, k)
}

/// `k` is the number of whitespace characters that `s` ends with.
pub open spec fn is_ws_tail(s: Seq<char>, k: int) -> bool {
    &&& 0 <= k <= s.len()
    &&& forall|j: int| s.len() - k <= j < s.len() ==> is_ws(#[trigger] s[j])
    &&& k < s.len() ==> !is_ws(s[s.len() - 1 - k])
}

/// The number of whitespace characters that `s` ends with.
pub open spec fn trailing_ws(s: Seq<char>) -> int {
    choose|k: int| is_ws_tail(s, k)
}

/// `s` without its leading whitespace (`str::trim_start`).
pub open spec fn trim_start(s: Seq<char>) -> Seq<char> {
    s.skip(leading_ws(s))
}

/// `s` without leading and trailing whitespace (`str::trim`).
pub open spec fn trim(s: Seq<char>) -> Seq<char> {
    let t = trim_start(s);
    t.take(t.len() - trailing_ws(t))
}

/// `s` starts with `p`.
pub open spec fn has_prefix(s: Seq<char>, p: Seq<char>) -> bool {
    p.len() <= s.len() && s.take(p.len() as int) == p
}

/// Every character of `s` is whitespace.
pub open spec fn all_ws(s: Seq<char>) -> bool {
    forall|j: int| 0 <= j < s.len() ==> is_ws(#[trigger] s[j])
}

pub proof fn lemma_leading_ws(s: Seq<char>, k: int)
    requires
        is_ws_run(s, k),
    ensures
        leading_ws(s) == k,
{
    let c = leading_ws(s);
    assert(is_ws_run(s, c));
    if c < k {
        assert(is_ws(s[c]));
    } else if k < c {
        assert(is_ws(s[k]));
    }
}

pub proof fn lemma_trailing_ws(s: Seq<char>, k: int)
    requires
        is_ws_tail(s, k),
    ensures
        trailing_ws(s) == k,
{
    let c = trailing_ws(s);
    assert(is_ws_tail(s, c));
    if c < k {
        assert(is_ws(s[s.len() - 1 - c]));
    } else if k < c {
        assert(is_ws(s[s.len() - 1 - k]));
    }
}

proof fn lemma_ws_run_exists(s: Seq<char>, k: int)
    requires
        0 <= k <= s.len(),
        forall|j: int| 0 <= j < k ==> is_ws(#[trigger] s[j]),
    ensures
        is_ws_run(s, leading_ws(s)),
    decreases s.len() - k,
{
    if k < s.len() && is_ws(s[k]) {
        lemma_ws_run_exists(s, k + 1);
    } else {
        lemma_leading_ws(s, k);
    }
}

proof fn lemma_ws_tail_exists(s: Seq<char>, k: int)
    requires
        0 <= k <= s.len(),
        forall|j: int| s.len() - k <= j < s.len() ==> is_ws(#[trigger] s[j]),
    ensures
        is_ws_tail(s, trailing_ws(s)),
    decreases s.len() - k,
{
    if k < s.len() && is_ws(s[s.len() - 1 - k]) {
        lemma_ws_tail_exists(s, k + 1);
    } else {
        lemma_trailing_ws(s, k);
    }
}

/// Facts about the leading whitespace of `s`.
pub proof fn lemma_leading_ws_facts(s: Seq<char>)
    ensures
        is_ws_run(s, leading_ws(s)),
        0 <= leading_ws(s) <= s.len(),
{
    lemma_ws_run_exists(s, 0);
}

/// Trimming leaves nothing exactly when every character is whitespace.
pub proof fn lemma_trim_empty(s: Seq<char>)
    ensures
        (trim(s).len() == 0) == all_ws(s),
{
    lemma_leading_ws_facts(s);
    let l = leading_ws(s);
    let t = trim_start(s);
    lemma_ws_tail_exists(t, 0);
    let k = trailing_ws(t);
    if all_ws(s) {
        if l < s.len() {
            assert(is_ws(s[l]));
        }
        assert(t.len() == 0);
    } else {
        let i = choose|i: int| 0 <= i < s.len() && !is_ws(#[trigger] s[i]);
        if l > i {
            assert(is_ws(s[i]));
        }
        assert(l < s.len());
        assert(t[0] == s[l]);
        if k == t.len() {
            assert(is_ws(t[0]));
        }
    }
}

/// The number of whitespace characters at the start of `v`.
pub fn leading_ws_count(v: &Vec<char>) -> (k: usize)
    ensures
        k == leading_ws(v@),
        k <= v.len(),
{
    let mut k: usize = 0;
    while k < v.len() && is_whitespace(v[k])
        invariant
            k <= v.len(),
            forall|j: int| 0 <= j < k ==> is_ws(#[trigger] v@[j]),
        decreases v.len() - k,
    {
        k = k + 1;
    }
    proof {
        lemma_leading_ws(v@, k as int);
    }
    k
}

/// The number of whitespace characters at the end of `v`.
pub fn trailing_ws_count(v: &Vec<char>) -> (k: usize)
    ensures
        k == trailing_ws(v@),
        k <= v.len(),
{
    let mut k: usize = 0;
    while k < v.len() && is_whitespace(v[v.len() - 1 - k])
        invariant
            k <= v.len(),
            forall|j: int| v.len() - k <= j < v.len() ==> is_ws(#[trigger] v@[j]),
        decreases v.len() - k,
    {
        k = k + 1;
    }
    proof {
        lemma_trailing_ws(v@, k as int);
    }
    k
}

/// `v` without its leading whitespace.
pub fn trim_start_of(v: &Vec<char>) -> (r: Vec<char>)
    ensures
        r@ == trim_start(v@),
{
    let k = leading_ws_count(v);
    let mut r: Vec<char> = Vec::new();
    let mut i = k;
    while i < v.len()
        invariant
            k <= i <= v.len(),
            r@ == v@.subrange(k as int, i as int),
        decreases v.len() - i,
    {
        r.push(v[i]);
        i = i + 1;
        assert(r@ =~= v@.subrange(k as int, i as int));
    }
    assert(r@ =~= v@.skip(k as int));
    r
}

/// `v` without leading and trailing whitespace.
pub fn trim_of(v: &Vec<char>) -> (r: Vec<char>)
    ensures
        r@ == trim(v@),
{
    let t = trim_start_of(v);
    let e = trailing_ws_count(&t);
    let mut r: Vec<char> = Vec::new();
    let mut i: usize = 0;
    while i < t.len() - e
        invariant
            e <= t.len(),
            i <= t.len() - e,
            r@ == t@.take(i as int),
        decreases t.len() - e - i,
    {
        r.push(t[i]);
        i = i + 1;
        assert(r@ =~= t@.take(i as int));
    }
    r
}

/// Whether `v`, from index `from` on, starts with `p`.
pub fn has_prefix_at(v: &Vec<char>, from: usize, p: &Vec<char>) -> (r: bool)
    requires
        from <= v.len(),
    ensures
        r == has_prefix(v@.skip(from as int), p@),
{
    if p.len() > v.len() - from {
        return false;
    }
    let mut i: usize = 0;
    while i < p.len()
        invariant
            from <= v.len(),
            p.len() <= v.len() - from,
            i <= p.len(),
            forall|j: int| 0 <= j < i ==> v@[from + j] == p@[j],
        decreases p.len() - i,
    {
        if v[from + i] != p[i] {
            assert(v@.skip(from as int).take(p.len() as int)[i as int] != p@[i as int]);
            return false;
        }
        i = i + 1;
    }
    assert(v@.skip(from as int).take(p.len() as int) =~= p@);
    true
}

/// Whether every character of `v[from..to]` is whitespace.
pub fn all_whitespace(v: &Vec<char>, from: usize, to: usize) -> (r: bool)
    requires
        from <= to <= v.len(),
    ensures
        r == all_ws(v@.subrange(from as int, to as int)),
{
    let mut i = from;
    while i < to
        invariant
            from <= i <= to <= v.len(),
            forall|j: int| from <= j < i ==> is_ws(#[trigger] v@[j]),
        decreases to - i,
    {
        if !is_whitespace(v[i]) {
            assert(!is_ws(v@.subrange(from as int, to as int)[i - from]));
            return false;
        }
        i = i + 1;
    }
    assert forall|j: int| 0 <= j < v@.subrange(from as int, to as int).len() implies is_ws(
        #[trigger] v@.subrange(from as int, to as int)[j],
    ) by {
        assert(v@.subrange(from as int, to as int)[j] == v@[from + j]);
    }
    true
}

/// The lines joined into one text, with `'\n'` between consecutive lines.
pub open spec fn join_sep(ls: Seq<Seq<char>>) -> Seq<char>
    decreases ls.len(),
{
    if ls.len() == 0 {
        Seq::empty()
    } else if ls.len() == 1 {
        ls[0]
    } else {
        join_sep(ls.drop_last()) + seq!['\n'] + ls.last()
    }
}

/// The pieces of `s` between the `'\n'` characters (`str::split('\n')`):
/// one more piece than there are `'\n'` characters.
pub open spec fn split_sep(s: Seq<char>) -> Seq<Seq<char>>
    decreases s.len(),
{
    if s.len() == 0 {
        seq![Seq::empty()]
    } else {
        let r = split_sep(s.drop_last());
        if s.last() == '\n' {
            r.push(Seq::empty())
        } else {
            r.update(r.len() - 1, r.last().push(s.last()))
        }
    }
}

pub proof fn lemma_split_sep_len(s: Seq<char>)
    ensures
        split_sep(s).len() >= 1,
    decreases s.len(),
{
    if s.len() > 0 {
        lemma_split_sep_len(s.drop_last());
    }
}

/// The lines joined with `'\n'` between them.
pub fn join_lines(lines: &Vec<String>) -> (r: String)
    ensures
        r@ == join_sep(view_lines(lines@)),
{
    let ghost ls = view_lines(lines@);
    let mut acc: Vec<char> = Vec::new();
    let mut i: usize = 0;
    assert(ls.take(0) =~= Seq::<Seq<char>>::empty());
    while i < lines.len()
        invariant
            i <= lines.len(),
            ls == view_lines(lines@),
            acc@ == join_sep(ls.take(i as int)),
        decreases lines.len() - i,
    {
        let cs = chars_of(lines[i].as_str());
        assert(ls.take(i + 1).drop_last() =~= ls.take(i as int));
        if i > 0 {
            acc.push('\n');
        }
        let ghost before = acc@;
        let mut j: usize = 0;
        while j < cs.len()
            invariant
                j <= cs.len(),
                acc@ == before + cs@.take(j as int),
            decreases cs.len() - j,
        {
            acc.push(cs[j]);
            j = j + 1;
            assert(acc@ =~= before + cs@.take(j as int));
        }
        assert(cs@.take(cs.len() as int) =~= cs@);
        i = i + 1;
        proof {
            if i == 1 {
                assert(acc@ =~= join_sep(ls.take(i as int)));
            } else {
                assert(acc@ =~= join_sep(ls.take(i as int)));
            }
        }
    }
    assert(ls.take(lines.len() as int) =~= ls);
    string_of(&acc)
}

/// The pieces of `s` between its `'\n'` characters.
pub fn split_on_newline(s: &str) -> (r: Vec<String>)
    ensures
        view_lines(r@) == split_sep(s@),
        r.len() >= 1,
{
    let cs = chars_of(s);
    let mut done: Vec<String> = Vec::new();
    let mut cur: Vec<char> = Vec::new();
    let mut i: usize = 0;
    assert(cs@.take(0) =~= Seq::<char>::empty());
    while i < cs.len()
        invariant
            i <= cs.len(),
            view_lines(done@).push(cur@) == split_sep(cs@.take(i as int)),
        decreases cs.len() - i,
    {
        let c = cs[i];
        assert(cs@.take(i + 1).drop_last() =~= cs@.take(i as int));
        let ghost r0 = split_sep(cs@.take(i as int));
        if c == '\n' {
            let line = string_of(&cur);
            done.push(line);
            cur = Vec::new();
            i = i + 1;
            assert(view_lines(done@).push(cur@) =~= r0.push(Seq::empty()));
        } else {
            cur.push(c);
            i = i + 1;
            assert(view_lines(done@).push(cur@) =~= r0.update(r0.len() - 1, r0.last().push(c)));
        }
    }
    assert(cs@.take(cs.len() as int) =~= cs@);
    done.push(string_of(&cur));
    assert(view_lines(done@) =~= split_sep(s@));
    done
}

} // verus!
