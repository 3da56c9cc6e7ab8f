//! Remembering where the cursor was in a file between sessions.
use sha2::Digest;
use vstd::prelude::*;

verus! {

/// How long a file's cursor record is kept, in seconds (three days).
pub const CLEANUP_THRESHOLD_SECS: u64 = 259200;

/// A moment, as seconds and nanoseconds since the Unix epoch.
#[derive(Debug, Clone, Copy, PartialEq, Eq, Structural)]
pub struct FileTime {
    pub secs: u64,
    pub nanos: u32,
}

/// Where the cursor and the scroll position were when a file was left, and
/// when the file was last modified then.
#[derive(Debug, Clone)]
pub struct CursorPosition {
    pub file_path: String,
    pub last_modified: FileTime,
    pub cursor_x: usize,
    pub cursor_y: usize,
    pub scroll_row_offset: usize,
    pub scroll_col_offset: usize,
}

/// The SHA-256 digest of the UTF-8 encoding of `text`.
pub uninterp spec fn sha256_of_text(text: Seq<char>) -> Seq<u8>;

/// The SHA-256 digest of `text`, computed by `sha2::Sha256::digest` on the
/// string's UTF-8 bytes. Claimed: the digest depends on the text alone and
/// has 32 bytes (the output size of SHA-256).
#[verifier::external_body]
pub(crate) fn sha256(text: &str) -> (r: Vec<u8>)
    ensures
        r@ == sha256_of_text(text@),
        r@.len() == 32,
{
    sha2::Sha256::digest(text.as_bytes()).to_vec()
}

/// The lowercase hexadecimal digit of `d`.
pub open spec fn hex_digit(d: u8) -> char {
    if d < 10 {
        ((48 + d) as u8) as char
    } else {
        ((87 + d) as u8) as char
    }
}

/// The lowercase hexadecimal text of `bytes`, two digits a byte.
pub open spec fn hex_of(bytes: Seq<u8>) -> Seq<char>
    decreases bytes.len(),
{
    if bytes.len() == 0 {
        Seq::empty()
    } else {
        hex_of(bytes.drop_last()) + seq![
            hex_digit(bytes.last() / 16),
            hex_digit(bytes.last() % 16),
        ]
    }
}

fn hex_digit_of(d: u8) -> (c: char)
    requires
        d < 16,
    ensures
        c == hex_digit(d),
{
    if d < 10 {
        (48 + d) as char
    } else {
        (87 + d) as char
    }
}

/// The lowercase hexadecimal text of `bytes`.
pub fn hex_string(bytes: &Vec<u8>) -> (s: String)
    ensures
        s@ == hex_of(bytes@),
{
    let mut s = String::new();
    let mut i: usize = 0;
    assert(bytes@.take(0) =~= Seq::<u8>::empty());
    while i < bytes.len()
        invariant
            i <= bytes.len(),
            s@ == hex_of(bytes@.take(i as int)),
        decreases bytes.len() - i,
    {
        let b = bytes[i];
        crate::text::push_char(&mut s, hex_digit_of(b / 16));
        crate::text::push_char(&mut s, hex_digit_of(b % 16));
        assert(bytes@.take(i + 1).drop_last() =~= bytes@.take(i as int));
        i = i + 1;
    }
    assert(bytes@.take(bytes.len() as int) =~= bytes@);
    s
}

/// The name of the file that keeps the cursor record of `file_path`: the
/// hexadecimal SHA-256 of the path, then `.json`.
pub open spec fn cursor_record_name(file_path: Seq<char>) -> Seq<char> {
    hex_of(sha256_of_text(file_path)) + ".json"@
}

/// The name of the file that keeps the cursor record of `file_path`.
pub fn cursor_file_name(file_path: &str) -> (r: String)
    ensures
        r@ == cursor_record_name(file_path@),
{
    let digest = sha256(file_path);
    let hex = hex_string(&digest);
    crate::text::concat_strings(hex.as_str(), ".json")
}

/// The cursor and scroll position `(x, y, row offset, column offset)` to
/// restore from a stored record: only when the file was not modified since
/// the record was made.
pub fn get_cursor_position(stored: Option<CursorPosition>, last_modified: FileTime) -> (r: Option<
    (usize, usize, usize, usize),
>)
    ensures
        r == match stored {
            Some(pos) => if pos.last_modified == last_modified {
                Some((pos.cursor_x, pos.cursor_y, pos.scroll_row_offset, pos.scroll_col_offset))
            } else {
                None
            },
            None => None,
        },
{
    match stored {
        Some(pos) => {
            if pos.last_modified == last_modified {
                Some((pos.cursor_x, pos.cursor_y, pos.scroll_row_offset, pos.scroll_col_offset))
            } else {
                None
            }
        },
        None => None,
    }
}

/// `a` is strictly earlier than `b`.
pub open spec fn earlier(a: FileTime, b: FileTime) -> bool {
    a.secs < b.secs || (a.secs == b.secs && a.nanos < b.nanos)
}

/// Whether a cursor record last modified at `modified` is out of date at
/// `now`: older than the threshold. Moments before the threshold can be
/// counted from the epoch keep every record.
pub fn is_expired_record(modified: FileTime, now: FileTime) -> (r: bool)
    ensures
        r == (now.secs >= CLEANUP_THRESHOLD_SECS && earlier(
            modified,
            (FileTime { secs: (now.secs - CLEANUP_THRESHOLD_SECS) as u64, nanos: now.nanos }),
        )),
{
    if now.secs < CLEANUP_THRESHOLD_SECS {
        return false;
    }
    let threshold = FileTime { secs: now.secs - CLEANUP_THRESHOLD_SECS, nanos: now.nanos };
    modified.secs < threshold.secs || (modified.secs == threshold.secs && modified.nanos
        < threshold.nanos)
}

} // verus!
