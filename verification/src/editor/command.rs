//! Commands written on a line and run when Enter is pressed at its end.
use crate::lines::{has_prefix, is_whitespace, trim, trim_of};
use crate::text::{chars_eq, chars_of, concat_strings, string_of, string_of_range};
use vstd::prelude::*;

verus! {

broadcast use vstd::string::group_string_axioms;

/// What running a command gives.
#[derive(Debug, Clone)]
pub enum CommandResult {
    /// The command ran: the command line is replaced by `new_line_content`
    /// when there is one, and the status shows `status_message`.
    Success { new_line_content: Option<String>, status_message: String },
    /// The command failed with this message.
    Error(String),
    /// The line is no command.
    NoCommand,
}

/// The commands that a line can hold.
#[derive(Debug, Clone, Copy, PartialEq, Eq, Structural)]
pub enum Command {
    /// `/today`: today's date.
    Today,
    /// `/now`: the date and time.
    Now,
    /// `/tweet <message>`: posts the message.
    Tweet,
    NoCommand,
}

pub open spec fn today_word() -> Seq<char> {
    seq!['/', 't', 'o', 'd', 'a', 'y']
}

pub open spec fn now_word() -> Seq<char> {
    seq!['/', 'n', 'o', 'w']
}

pub open spec fn tweet_word() -> Seq<char> {
    seq!['/', 't', 'w', 'e', 'e', 't', ' ']
}

/// The command on a line: a line that starts with `/` and trims to
/// `/today` or `/now`, or that starts with `/tweet `.
pub open spec fn command_of(line: Seq<char>) -> Command {
    if !(line.len() > 0 && line[0] == '/') {
        Command::NoCommand
    } else if trim(line) == today_word() {
        Command::Today
    } else if trim(line) == now_word() {
        Command::Now
    } else if has_prefix(line, tweet_word()) {
        Command::Tweet
    } else {
        Command::NoCommand
    }
}

/// The command on a line.
pub fn parse_command(line: &Vec<char>) -> (c: Command)
    ensures
        c == command_of(line@),
{
    if !(line.len() > 0 && line[0] == '/') {
        return Command::NoCommand;
    }
    let t = trim_of(line);
    let today = vec!['/', 't', 'o', 'd', 'a', 'y'];
    let now = vec!['/', 'n', 'o', 'w'];
    let tweet = vec!['/', 't', 'w', 'e', 'e', 't', ' '];
    assert(today@ =~= today_word());
    assert(now@ =~= now_word());
    assert(tweet@ =~= tweet_word());
    if chars_eq(&t, &today) {
        Command::Today
    } else if chars_eq(&t, &now) {
        Command::Now
    } else if crate::lines::has_prefix_at(line, 0, &tweet) {
        assert(line@.skip(0) =~= line@);
        Command::Tweet
    } else {
        assert(line@.skip(0) =~= line@);
        Command::NoCommand
    }
}

/// `c` is an ASCII digit.
pub open spec fn is_digit(c: char) -> bool {
    '0' <= c && c <= '9'
}

/// `s` is a date as the format `%Y-%m-%d` writes it: the year, of at least
/// four digits and with a sign before it outside the years 0 to 9999, then
/// a dash, the month in two digits, a dash and the day in two digits.
pub open spec fn date_shaped(s: Seq<char>) -> bool {
    let n = s.len() as int;
    &&& n >= 10
    &&& is_digit(s[0]) || s[0] == '+' || s[0] == '-'
    &&& forall|i: int| 1 <= i < n - 6 ==> is_digit(#[trigger] s[i])
    &&& s[n - 6] == '-'
    &&& is_digit(s[n - 5]) && is_digit(s[n - 4])
    &&& s[n - 3] == '-'
    &&& is_digit(s[n - 2]) && is_digit(s[n - 1])
}

/// `s` is a date and time as the format `%Y-%m-%d %H:%M` writes it: a
/// date, a space, the hour in two digits, a colon and the minute in two
/// digits.
pub open spec fn date_time_shaped(s: Seq<char>) -> bool {
    let n = s.len() as int;
    &&& n >= 16
    &&& date_shaped(s.take(n - 6))
    &&& s[n - 6] == ' '
    &&& is_digit(s[n - 5]) && is_digit(s[n - 4])
    &&& s[n - 3] == ':'
    &&& is_digit(s[n - 2]) && is_digit(s[n - 1])
}

/// Today's date in the local time zone, by
/// `chrono::Local::now().format("%Y-%m-%d")`. It depends on the clock:
/// what is stated holds of every outcome, the shape that the format writes
/// (chrono's `write_year` and `write_two`); which date it is stays unsaid.
#[verifier::external_body]
fn local_date() -> (r: String)
    ensures
        date_shaped(r@),
{
    chrono::Local::now().format("%Y-%m-%d").to_string()
}

/// The local date and time, by
/// `chrono::Local::now().format("%Y-%m-%d %H:%M")`. It depends on the
/// clock: what is stated holds of every outcome, the shape that the format
/// writes; which moment it is stays unsaid.
#[verifier::external_body]
fn local_date_time() -> (r: String)
    ensures
        date_time_shaped(r@),
{
    chrono::Local::now().format("%Y-%m-%d %H:%M").to_string()
}

/// Runs the command on `line` that the editor runs itself: `/today` and
/// `/now` give the date (and time) in place of the line. A `/tweet` line is
/// posted by the caller of the editor, and any other line is no command.
pub fn execute_command(line: &str) -> (r: CommandResult)
    ensures
        command_of(line@) == Command::Today ==> (r matches CommandResult::Success {
            new_line_content: Some(c),
            status_message,
        } && date_shaped(c@) && status_message@ == today_word()),
        command_of(line@) == Command::Now ==> (r matches CommandResult::Success {
            new_line_content: Some(c),
            status_message,
        } && date_time_shaped(c@) && status_message@ == now_word()),
        command_of(line@) == Command::Tweet || command_of(line@) == Command::NoCommand
            ==> r is NoCommand,
{
    let v = chars_of(line);
    match parse_command(&v) {
        Command::Today => {
            let w = vec!['/', 't', 'o', 'd', 'a', 'y'];
            assert(w@ =~= today_word());
            CommandResult::Success { new_line_content: Some(local_date()), status_message: string_of(&w) }
        },
        Command::Now => {
            let w = vec!['/', 'n', 'o', 'w'];
            assert(w@ =~= now_word());
            CommandResult::Success {
                new_line_content: Some(local_date_time()),
                status_message: string_of(&w),
            }
        },
        _ => CommandResult::NoCommand,
    }
}

/// `s` without every leading copy of `p` (`str::trim_start_matches`).
pub open spec fn strip_all_prefixes(s: Seq<char>, p: Seq<char>) -> Seq<char>
    decreases s.len(),
{
    if p.len() > 0 && has_prefix(s, p) {
        strip_all_prefixes(s.skip(p.len() as int), p)
    } else {
        s
    }
}

/// The message of a `/tweet` line: the line without its leading `/tweet `
/// words, trimmed.
pub open spec fn tweet_message(line: Seq<char>) -> Seq<char> {
    trim(strip_all_prefixes(line, tweet_word()))
}

/// The request body that posts the message of a `/tweet` line:
/// `{"text":"<message>"}`.
pub open spec fn tweet_payload(line: Seq<char>) -> Seq<char> {
    seq!['{', '"', 't', 'e', 'x', 't', '"', ':', '"'] + tweet_message(line) + seq!['"', '}']
}

/// The request body that posts the message of a `/tweet` line.
pub fn tweet_payload_of(line: &Vec<char>) -> (r: String)
    ensures
        r@ == tweet_payload(line@),
{
    let tweet = vec!['/', 't', 'w', 'e', 'e', 't', ' '];
    assert(tweet@ =~= tweet_word());
    let mut i: usize = 0;
    assert(line@.skip(0) =~= line@);
    while line.len() - i >= 7 && crate::lines::has_prefix_at(line, i, &tweet)
        invariant
            i <= line.len(),
            tweet@ == tweet_word(),
            strip_all_prefixes(line@, tweet_word()) == strip_all_prefixes(line@.skip(i as int), tweet_word()),
        decreases line.len() - i,
    {
        assert(line@.skip(i as int).skip(7) =~= line@.skip(i + 7));
        assert(has_prefix(line@.skip(i as int), tweet_word()));
        assert(strip_all_prefixes(line@.skip(i as int), tweet_word()) == strip_all_prefixes(
            line@.skip(i as int).skip(7),
            tweet_word(),
        ));
        i = i + 7;
    }
    proof {
        if !(line.len() - i >= 7) {
            assert(!has_prefix(line@.skip(i as int), tweet_word()));
        }
    }
    let rest = string_of_range(line, i, line.len());
    assert(line@.subrange(i as int, line.len() as int) =~= line@.skip(i as int));
    let rest_chars = chars_of(rest.as_str());
    let message = trim_of(&rest_chars);
    let head = vec!['{', '"', 't', 'e', 'x', 't', '"', ':', '"'];
    let tail = vec!['"', '}'];
    let a = crate::text::concat_chars(&head, &message);
    let b = crate::text::concat_chars(&a, &tail);
    assert(b@ =~= tweet_payload(line@));
    string_of(&b)
}

/// The result of a `/tweet` line once the message was posted: the line is
/// commented out with `# `.
pub fn tweet_posted(line: &str) -> (r: CommandResult)
    ensures
        r matches CommandResult::Success { new_line_content: Some(c), status_message } && c@
            == seq!['#', ' '] + line@ && status_message@ == seq!['/', 't', 'w', 'e', 'e', 't'],
{
    let hash = vec!['#', ' '];
    let word = vec!['/', 't', 'w', 'e', 'e', 't'];
    let h = string_of(&hash);
    let content = concat_strings(h.as_str(), line);
    CommandResult::Success { new_line_content: Some(content), status_message: string_of(&word) }
}

} // verus!
