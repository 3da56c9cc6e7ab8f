//! Backups of files: where they go, and how their names are made and read.
use crate::editor::command::strip_all_prefixes;
use crate::lines::{has_prefix, has_prefix_at};
use crate::persistence::{hex_of, hex_string, sha256, sha256_of_text};
use crate::text::{chars_of, concat_strings, string_of, string_of_range};
use vstd::prelude::*;

verus! {

/// `b` appended to the path `a`, with a `/` between them when `a` does not
/// already end with one.
pub open spec fn join_path(a: Seq<char>, b: Seq<char>) -> Seq<char> {
    if a.len() == 0 {
        b
    } else if a.last() == '/' {
        a + b
    } else {
        a + seq!['/'] + b
    }
}

fn join_path_of(a: &str, b: &str) -> (r: String)
    ensures
        r@ == join_path(a@, b@),
{
    let va = chars_of(a);
    if va.len() == 0 {
        proof {
            reveal_strlit("");
            assert(""@ + b@ =~= b@);
        }
        return concat_strings("", b);
    }
    if va[va.len() - 1] == '/' {
        concat_strings(a, b)
    } else {
        let with_slash = concat_strings(a, "/");
        proof {
            reveal_strlit("/");
        }
        concat_strings(with_slash.as_str(), b)
    }
}

/// `s` ends with `p`.
pub open spec fn has_suffix(s: Seq<char>, p: Seq<char>) -> bool {
    p.len() <= s.len() && s.skip(s.len() - p.len()) == p
}

/// `s` without every trailing copy of `p` (`str::trim_end_matches`).
pub open spec fn strip_all_suffixes(s: Seq<char>, p: Seq<char>) -> Seq<char>
    decreases s.len(),
{
    if p.len() > 0 && has_suffix(s, p) {
        strip_all_suffixes(s.take(s.len() - p.len()), p)
    } else {
        s
    }
}

/// The timestamp in the name of a backup of the file whose backup names
/// start with `prefix`: what is left of a name that starts with `prefix`
/// and ends with `.bak` once the prefix, the dots after it and the `.bak`
/// endings are taken off.
pub open spec fn timestamp_part(name: Seq<char>, prefix: Seq<char>) -> Option<Seq<char>> {
    if has_prefix(name, prefix) && has_suffix(name, ".bak"@) {
        Some(
            strip_all_suffixes(
                strip_all_prefixes(strip_all_prefixes(name, prefix), seq!['.']),
                ".bak"@,
            ),
        )
    } else {
        None
    }
}

/// The index of the last `c` in `s`, or -1.
pub open spec fn last_index_of(s: Seq<char>, c: char) -> int
    decreases s.len(),
{
    if s.len() == 0 {
        -1
    } else if s.last() == c {
        s.len() - 1
    } else {
        last_index_of(s.drop_last(), c)
    }
}

/// For the cleaning of old backups: the piece before the last of the
/// `.`-separated pieces of `name`, when there are at least three pieces
/// and the last is `bak`.
pub open spec fn expiry_part(name: Seq<char>) -> Option<Seq<char>> {
    let i = last_index_of(name, '.');
    let j = last_index_of(name.take(i), '.');
    if i >= 0 && name.skip(i + 1) == "bak"@ && j >= 0 {
        Some(name.subrange(j + 1, i))
    } else {
        None
    }
}

/// The moment, in seconds since the epoch read as UTC, that the text of a
/// backup timestamp (`%Y%m%d%H%M%S`) names, if it names one.
pub uninterp spec fn backup_time(text: Seq<char>) -> Option<i64>;

/// Parses a backup timestamp with `chrono::NaiveDateTime::parse_from_str`
/// and the format `%Y%m%d%H%M%S`, and gives its seconds since the epoch read
/// as UTC. Claimed: the result depends on the text alone.
#[verifier::external_body]
pub(crate) fn parse_backup_time(text: &str) -> (r: Option<i64>)
    ensures
        r == backup_time(text@),
{
    match chrono::NaiveDateTime::parse_from_str(text, "%Y%m%d%H%M%S") {
        Ok(t) => Some(t.and_utc().timestamp()),
        Err(_) => None,
    }
}

/// Reads a backup timestamp (`%Y%m%d%H%M%S`) as a time of the machine's
/// time zone, with `chrono::NaiveDateTime::parse_from_str` and
/// `chrono::Local`'s `from_local_datetime(..).single()`, and gives its
/// seconds since the epoch. The result depends on the time zone, so it has
/// no name; what holds of every outcome: there is none for a text that does
/// not parse, and one lies within a day (the bound of a
/// `chrono::FixedOffset`) of the moment that the text names read as UTC.
/// Left unsaid: which offset the zone has, and that a local time skipped or
/// repeated by a clock change gives none.
#[verifier::external_body]
fn local_backup_time(stamp: &str) -> (r: Option<i64>)
    ensures
        r matches Some(t) ==> backup_time(stamp@) matches Some(u) && u - 86400 < t < u + 86400,
{
    let naive = match chrono::NaiveDateTime::parse_from_str(stamp, "%Y%m%d%H%M%S") {
        Ok(n) => n,
        Err(_) => return None,
    };
    match chrono::TimeZone::from_local_datetime(&chrono::Local, &naive).single() {
        Some(t) => Some(t.timestamp()),
        None => None,
    }
}

/// The start of the names of the backups of a file named `file_name`
/// whose canonical path is `canonical_path`: the name, a dash and the first
/// eight hexadecimal digits of the SHA-256 of the path.
pub open spec fn backup_prefix(file_name: Seq<char>, canonical_path: Seq<char>) -> Seq<char> {
    file_name + seq!['-'] + hex_of(sha256_of_text(canonical_path)).take(8)
}

/// Where the backups of the files go, and how their names are made.
pub struct BackupManager {
    backup_dir: String,
}

impl BackupManager {
    /// The directory that holds the backups.
    pub closed spec fn dir(&self) -> Seq<char> {
        self.backup_dir@
    }

    /// The backups kept under the base directory `base_dir` (the home
    /// directory by default): in `.dmacs/backup` there.
    pub fn new_with_base_dir(base_dir: &str) -> (m: Self)
        ensures
            m.dir() == join_path(join_path(base_dir@, ".dmacs"@), "backup"@),
    {
        let dmacs = join_path_of(base_dir, ".dmacs");
        Self { backup_dir: join_path_of(dmacs.as_str(), "backup") }
    }

    /// The directory that holds the backups.
    pub fn backup_dir(&self) -> (r: &str)
        ensures
            r@ == self.dir(),
    {
        self.backup_dir.as_str()
    }

    /// The path of the backup file named `name`.
    pub fn backup_path(&self, name: &str) -> (r: String)
        ensures
            r@ == join_path(self.dir(), name@),
    {
        join_path_of(self.backup_dir.as_str(), name)
    }

    /// The start of the names of the backups of a file named `file_name`
    /// whose canonical path is `canonical_path`.
    pub fn get_backup_file_prefix(&self, file_name: &str, canonical_path: &str) -> (r: String)
        ensures
            r@ == backup_prefix(file_name@, canonical_path@),
    {
        let digest = sha256(canonical_path);
        let hex = chars_of(hex_string(&digest).as_str());
        proof {
            lemma_hex_len(digest@);
        }
        let short = string_of_range(&hex, 0, 8);
        let dashed = concat_strings(file_name, "-");
        proof {
            reveal_strlit("-");
            assert(hex@.subrange(0, 8) =~= hex@.take(8));
        }
        concat_strings(dashed.as_str(), short.as_str())
    }
}

proof fn lemma_hex_len(b: Seq<u8>)
    ensures
        hex_of(b).len() == 2 * b.len(),
    decreases b.len(),
{
    if b.len() > 0 {
        lemma_hex_len(b.drop_last());
    }
}

/// The name of the backup made at `timestamp` of a file whose backup names
/// start with `prefix`: `<prefix>.<timestamp>.bak`.
pub fn backup_file_name(prefix: &str, timestamp: &str) -> (r: String)
    ensures
        r@ == prefix@ + seq!['.'] + timestamp@ + ".bak"@,
{
    let a = concat_strings(prefix, ".");
    let b = concat_strings(a.as_str(), timestamp);
    proof {
        reveal_strlit(".");
    }
    concat_strings(b.as_str(), ".bak")
}

fn strip_prefix_runs(v: &Vec<char>, from: usize, p: &Vec<char>) -> (i: usize)
    requires
        from <= v.len(),
    ensures
        from <= i <= v.len(),
        v@.skip(i as int) == strip_all_prefixes(v@.skip(from as int), p@),
{
    let mut i = from;
    if p.len() == 0 {
        return i;
    }
    while has_prefix_at(v, i, p)
        invariant
            from <= i <= v.len(),
            p.len() > 0,
            strip_all_prefixes(v@.skip(from as int), p@) == strip_all_prefixes(
                v@.skip(i as int),
                p@,
            ),
        decreases v.len() - i,
    {
        assert(v@.skip(i as int).skip(p.len() as int) =~= v@.skip(i + p.len()));
        i = i + p.len();
    }
    i
}

fn has_suffix_in(v: &Vec<char>, from: usize, to: usize, p: &Vec<char>) -> (r: bool)
    requires
        from <= to <= v.len(),
    ensures
        r == has_suffix(v@.subrange(from as int, to as int), p@),
{
    let ghost s = v@.subrange(from as int, to as int);
    if p.len() > to - from {
        return false;
    }
    let start = to - p.len();
    let mut k: usize = 0;
    while k < p.len()
        invariant
            k <= p.len(),
            start == to - p.len(),
            from <= start,
            to <= v.len(),
            s == v@.subrange(from as int, to as int),
            forall|j: int| 0 <= j < k ==> v@[start + j] == p@[j],
        decreases p.len() - k,
    {
        if v[start + k] != p[k] {
            assert(s.skip(s.len() - p.len())[k as int] == v@[start + k]);
            return false;
        }
        k = k + 1;
    }
    assert(s.skip(s.len() - p.len()) =~= p@);
    true
}

fn strip_suffix_runs(v: &Vec<char>, from: usize, to: usize, p: &Vec<char>) -> (j: usize)
    requires
        from <= to <= v.len(),
    ensures
        from <= j <= to,
        v@.subrange(from as int, j as int) == strip_all_suffixes(
            v@.subrange(from as int, to as int),
            p@,
        ),
{
    let mut j = to;
    if p.len() == 0 {
        return j;
    }
    while has_suffix_in(v, from, j, p)
        invariant
            from <= j <= to,
            to <= v.len(),
            p.len() > 0,
            strip_all_suffixes(v@.subrange(from as int, to as int), p@) == strip_all_suffixes(
                v@.subrange(from as int, j as int),
                p@,
            ),
        decreases j,
    {
        assert(v@.subrange(from as int, j as int).take(j - from - p.len()) =~= v@.subrange(
            from as int,
            j - p.len(),
        ));
        j = j - p.len();
    }
    j
}

/// The timestamp in the name of a backup of the file whose backup names
/// start with `prefix`, if `name` is the name of such a backup.
pub fn timestamp_of(name: &str, prefix: &str) -> (r: Option<String>)
    ensures
        match r {
            Some(t) => timestamp_part(name@, prefix@) == Some(t@),
            None => timestamp_part(name@, prefix@) is None,
        },
{
    let v = chars_of(name);
    let p = chars_of(prefix);
    let bak = vec!['.', 'b', 'a', 'k'];
    proof {
        reveal_strlit(".bak");
        assert(bak@ =~= ".bak"@);
        assert(v@.skip(0) =~= v@);
        assert(v@.subrange(0, v.len() as int) =~= v@);
    }
    if !has_prefix_at(&v, 0, &p) || !has_suffix_in(&v, 0, v.len(), &bak) {
        return None;
    }
    let i = strip_prefix_runs(&v, 0, &p);
    let dot = vec!['.'];
    let k = strip_prefix_runs(&v, i, &dot);
    let j = strip_suffix_runs(&v, k, v.len(), &bak);
    proof {
        assert(v@.skip(k as int) =~= v@.subrange(k as int, v.len() as int));
        assert(dot@ =~= seq!['.']);
    }
    Some(string_of_range(&v, k, j))
}

fn last_index_in(v: &Vec<char>, to: usize, c: char) -> (r: Option<usize>)
    requires
        to <= v.len(),
    ensures
        match r {
            Some(i) => i < to && i == last_index_of(v@.take(to as int), c),
            None => last_index_of(v@.take(to as int), c) == -1,
        },
{
    let mut i = to;
    while i > 0
        invariant
            i <= to <= v.len(),
            last_index_of(v@.take(to as int), c) == last_index_of(v@.take(i as int), c),
        decreases i,
    {
        if v[i - 1] == c {
            return Some(i - 1);
        }
        assert(v@.take(i as int).drop_last() =~= v@.take(i - 1));
        i = i - 1;
    }
    None
}

/// The timestamp piece of a backup name as the cleaning of old backups
/// reads it, if the name has one.
pub fn expiry_timestamp_of(name: &str) -> (r: Option<String>)
    ensures
        match r {
            Some(t) => expiry_part(name@) == Some(t@),
            None => expiry_part(name@) is None,
        },
{
    let v = chars_of(name);
    proof {
        assert(v@.take(v.len() as int) =~= v@);
        reveal_strlit("bak");
    }
    let i = match last_index_in(&v, v.len(), '.') {
        Some(i) => i,
        None => return None,
    };
    let is_bak = v.len() - i == 4 && v[i + 1] == 'b' && v[i + 2] == 'a' && v[i + 3] == 'k';
    proof {
        if v.len() - i == 4 {
            if is_bak {
                assert(v@.skip(i + 1) =~= "bak"@);
            } else {
                assert(v@.skip(i + 1) != "bak"@) by {
                    if v@.skip(i + 1) == "bak"@ {
                        assert(v@.skip(i + 1)[0] == 'b');
                        assert(v@.skip(i + 1)[1] == 'a');
                        assert(v@.skip(i + 1)[2] == 'k');
                    }
                }
            }
        } else {
            assert(v@.skip(i + 1).len() != "bak"@.len());
        }
        assert(v@.take(i as int) =~= v@.take(i as int).take(i as int));
    }
    if !is_bak {
        return None;
    }
    match last_index_in(&v, i, '.') {
        Some(j) => {
            proof {
                assert(v@.take(i as int).len() == i);
            }
            Some(string_of_range(&v, j + 1, i))
        },
        None => None,
    }
}

/// What the moment `stamp`, found for the backup named `name`, may be: none
/// when the name has no expiry timestamp, and otherwise within a day of
/// the moment that the timestamp names read as UTC.
pub open spec fn local_time_fits(name: Seq<char>, stamp: Option<i64>) -> bool {
    stamp matches Some(t) ==> expiry_part(name) matches Some(p) && backup_time(p) matches Some(u)
        && u - 86400 < t < u + 86400
}

/// The moments that the backup names `names` give for the cleaning of old
/// backups, their timestamps read in the machine's time zone.
pub fn backup_times(names: &Vec<String>) -> (r: Vec<Option<i64>>)
    ensures
        r.len() == names.len(),
        forall|i: int| 0 <= i < names.len() ==> local_time_fits(names@[i]@, #[trigger] r@[i]),
{
    let mut r: Vec<Option<i64>> = Vec::new();
    let mut k: usize = 0;
    while k < names.len()
        invariant
            k <= names.len(),
            r.len() == k,
            forall|i: int| 0 <= i < k ==> local_time_fits(names@[i]@, #[trigger] r@[i]),
        decreases names.len() - k,
    {
        let t = match expiry_timestamp_of(names[k].as_str()) {
            Some(stamp) => local_backup_time(stamp.as_str()),
            None => None,
        };
        r.push(t);
        k = k + 1;
    }
    r
}

/// The backup named `name`, made at the moment `stamp`, is due for
/// deletion at `cutoff`: its name has an expiry timestamp and the moment
/// comes before the cutoff.
pub open spec fn expired(name: Seq<char>, stamp: Option<i64>, cutoff: i64) -> bool {
    &&& expiry_part(name) is Some
    &&& stamp matches Some(t) && t < cutoff
}

/// The indices, in increasing order, of the backups due for deletion at
/// `cutoff`, of the names `names` made at the moments `stamps`.
pub fn expired_backups(names: &Vec<String>, stamps: &Vec<Option<i64>>, cutoff: i64) -> (r: Vec<
    usize,
>)
    requires
        names.len() == stamps.len(),
    ensures
        forall|k: int|
            0 <= k < r.len() ==> r@[k] < names.len() && expired(
                names@[r@[k] as int]@,
                stamps@[r@[k] as int],
                cutoff,
            ),
        forall|k: int, l: int| 0 <= k < l < r.len() ==> r@[k] < r@[l],
        forall|i: int|
            0 <= i < names.len() && expired(names@[i]@, stamps@[i], cutoff) ==> r@.contains(
                i as usize,
            ),
{
    let mut r: Vec<usize> = Vec::new();
    let mut k: usize = 0;
    while k < names.len()
        invariant
            k <= names.len(),
            names.len() == stamps.len(),
            forall|j: int|
                0 <= j < r.len() ==> r@[j] < k && expired(
                    names@[r@[j] as int]@,
                    stamps@[r@[j] as int],
                    cutoff,
                ),
            forall|j: int, l: int| 0 <= j < l < r.len() ==> r@[j] < r@[l],
            forall|i: int|
                0 <= i < k && expired(names@[i]@, stamps@[i], cutoff) ==> r@.contains(i as usize),
        decreases names.len() - k,
    {
        let has_part = expiry_timestamp_of(names[k].as_str()).is_some();
        let due = match stamps[k] {
            Some(t) => t < cutoff,
            None => false,
        };
        if has_part && due {
            let ghost r0 = r@;
            r.push(k);
            proof {
                assert forall|i: int|
                    0 <= i < k + 1 && expired(names@[i]@, stamps@[i], cutoff) implies r@.contains(
                    i as usize,
                ) by {
                    if i < k {
                        let w = choose|w: int| 0 <= w < r0.len() && r0[w] == i as usize;
                        assert(r@[w] == i as usize);
                    } else {
                        assert(r@[r0.len() as int] == k);
                    }
                }
            }
        }
        k = k + 1;
    }
    r
}

/// A time of `t` whole seconds comes before the moment `secs` seconds and
/// `nanos` nanoseconds after the epoch.
pub open spec fn before_moment(t: int, secs: int, nanos: int) -> bool {
    t < secs || (t == secs && nanos > 0)
}

/// The cutoff in whole seconds for a moment `secs` seconds and
/// `subsec_nanos` nanoseconds after the epoch: the first whole second that
/// is not before it, so that a backup made at a whole second comes before
/// the moment exactly when it comes before the cutoff.
pub fn cutoff_second(secs: i64, subsec_nanos: u32) -> (r: i64)
    requires
        secs < i64::MAX,
    ensures
        r == if subsec_nanos > 0 {
            secs + 1
        } else {
            secs as int
        },
        forall|t: i64| #[trigger] before_moment(t as int, secs as int, subsec_nanos as int) <==> t < r,
{
    if subsec_nanos > 0 {
        secs + 1
    } else {
        secs
    }
}

/// Whether a backup of the text `content` is to be written, given the text
/// of the latest backup, if one could be read: not for an empty text, nor
/// when the latest backup holds the same text.
pub fn backup_needed(content: &str, latest: Option<&str>) -> (r: bool)
    ensures
        r == (content@.len() > 0 && !(latest matches Some(l) && (l@ == content@))),
{
    proof {
        crate::text::lemma_byte_len_bounds(content@);
    }
    if crate::text::str_byte_len(content) == 0 {
        return false;
    }
    match latest {
        Some(l) => !crate::text::str_eq(l, content),
        None => true,
    }
}

/// The moment that the name of a backup of the file whose backup names
/// start with `prefix` gives, if it is such a name and its timestamp parses.
pub open spec fn backup_time_of(name: Seq<char>, prefix: Seq<char>) -> Option<i64> {
    match timestamp_part(name, prefix) {
        Some(t) => backup_time(t),
        None => None,
    }
}

/// Of the file names `names`, the index of the latest backup of the file
/// whose backup names start with `prefix`: the first of those with the
/// greatest moment.
pub fn latest_backup(names: &Vec<String>, prefix: &str) -> (r: Option<usize>)
    ensures
        r is None <==> forall|i: int|
            0 <= i < names@.len() ==> #[trigger] backup_time_of(names@[i]@, prefix@) is None,
        r matches Some(i) ==> i < names@.len() && backup_time_of(names@[i as int]@, prefix@) is Some
            && forall|j: int|
            0 <= j < names@.len() && #[trigger] backup_time_of(names@[j]@, prefix@) is Some ==> {
                let tj = backup_time_of(names@[j]@, prefix@)->0;
                let ti = backup_time_of(names@[i as int]@, prefix@)->0;
                &&& tj <= ti
                &&& j < i ==> tj < ti
            },
{
    let mut best: Option<(usize, i64)> = None;
    let mut k: usize = 0;
    while k < names.len()
        invariant
            k <= names@.len(),
            best is None <==> forall|i: int|
                0 <= i < k ==> #[trigger] backup_time_of(names@[i]@, prefix@) is None,
            best matches Some(b) ==> b.0 < k && backup_time_of(names@[b.0 as int]@, prefix@)
                == Some(b.1) && forall|j: int|
                0 <= j < k && #[trigger] backup_time_of(names@[j]@, prefix@) is Some ==> {
                    let tj = backup_time_of(names@[j]@, prefix@)->0;
                    &&& tj <= b.1
                    &&& j < b.0 ==> tj < b.1
                },
        decreases names.len() - k,
    {
        let t = match timestamp_of(names[k].as_str(), prefix) {
            Some(ts) => parse_backup_time(ts.as_str()),
            None => None,
        };
        assert(t == backup_time_of(names@[k as int]@, prefix@));
        match t {
            Some(tv) => {
                let better = match best {
                    None => true,
                    Some(b) => tv > b.1,
                };
                if better {
                    best = Some((k, tv));
                }
            },
            None => {},
        }
        k = k + 1;
    }
    match best {
        Some(b) => Some(b.0),
        None => None,
    }
}

} // verus!
