use vstd::prelude::*;
use vstd::string::StrSliceExecFns;
use vstd::string::StringExecFns;

verus! {

/// Characters that separate tokens in a line of typed-in paths.
pub open spec fn is_delimiter(c: char) -> bool {
    c == ' ' || c == ',' || c == '\n'
}

/// The tokens produced by scanning `s` character by character, starting with
/// quoting state `in_quotes` and the partial token `acc` already accumulated.
///
/// A `"` toggles the quoting state and is never part of any token.  A
/// delimiter outside quotes ends the current token if one has accumulated;
/// inside quotes it is an ordinary character.  A non-empty accumulator left
/// at the end of the input becomes the final token.
pub open spec fn tokenize_from(s: Seq<char>, in_quotes: bool, acc: Seq<char>) -> Seq<Seq<char>>
    decreases s.len(),
{
    if s.len() == 0 {
        if acc.len() > 0 {
            seq![acc]
        } else {
            Seq::empty()
        }
    } else if s[0] == '"' {
        tokenize_from(s.drop_first(), !in_quotes, acc)
    } else if is_delimiter(s[0]) && !in_quotes {
        if acc.len() > 0 {
            seq![acc] + tokenize_from(s.drop_first(), in_quotes, Seq::empty())
        } else {
            tokenize_from(s.drop_first(), in_quotes, acc)
        }
    } else {
        tokenize_from(s.drop_first(), in_quotes, acc.push(s[0]))
    }
}

/// The tokens of one full line of input: scan from the start, outside quotes,
/// with nothing accumulated.
pub open spec fn tokenize(s: Seq<char>) -> Seq<Seq<char>> {
    tokenize_from(s, false, Seq::empty())
}

/// Whitespace for the purpose of trimming a typed-in directory path: the
/// Unicode `White_Space` characters, the same set `char::is_whitespace`
/// recognises and `str::trim` removes.
pub open spec fn is_space(c: char) -> bool {
    let u = c as int;
    u == 0x20 || (0x09 <= u && u <= 0x0d) || u == 0x85 || u == 0xa0 || u == 0x1680 || (0x2000 <= u
        && u <= 0x200a) || u == 0x2028 || u == 0x2029 || u == 0x202f || u == 0x205f || u == 0x3000
}

/// `s` without its leading whitespace.
pub open spec fn drop_leading_spaces(s: Seq<char>) -> Seq<char>
    decreases s.len(),
{
    if s.len() > 0 && is_space(s[0]) {
        drop_leading_spaces(s.drop_first())
    } else {
        s
    }
}

/// `s` without its trailing whitespace.
pub open spec fn drop_trailing_spaces(s: Seq<char>) -> Seq<char>
    decreases s.len(),
{
    if s.len() > 0 && is_space(s.last()) {
        drop_trailing_spaces(s.drop_last())
    } else {
        s
    }
}

/// `s` without leading and trailing whitespace.
pub open spec fn trimmed(s: Seq<char>) -> Seq<char> {
    drop_trailing_spaces(drop_leading_spaces(s))
}

/// The status line a queue entry is replaced with after a successful
/// conversion of the path `orig`.
pub open spec fn success_status(orig: Seq<char>) -> Seq<char> {
    "Converted "@ + orig + " successfully"@
}

/// The status line a queue entry is replaced with after a failed conversion
/// of the path `orig`, where `err` describes the failure.
pub open spec fn error_status(orig: Seq<char>, err: Seq<char>) -> Seq<char> {
    "Error converting "@ + orig + ": "@ + err
}

/// Relies on std's `String::push`: appends the given character to the end of
/// the string.
#[verifier::external_body]
pub(crate) fn push_char(s: &mut String, c: char)
    ensures
        final(s)@ == old(s)@.push(c),
{
    s.push(c);
}

/// Whether `c` counts as whitespace when trimming.
pub fn is_space_char(c: char) -> (r: bool)
    ensures
        r == is_space(c),
{
    let u = c as u32;
    u == 0x20 || (0x09 <= u && u <= 0x0d) || u == 0x85 || u == 0xa0 || u == 0x1680 || (0x2000 <= u
        && u <= 0x200a) || u == 0x2028 || u == 0x2029 || u == 0x202f || u == 0x205f || u == 0x3000
}

/// `s` with leading and trailing whitespace removed.
pub fn trim_spaces(s: &str) -> (r: String)
    ensures
        r@ == trimmed(s@),
{
    let len: usize = s.unicode_len();
    proof {
        assert(s@.subrange(0, len as int) =~= s@);
    }
    let mut start: usize = 0;
    while start < len && is_space_char(s.get_char(start))
        invariant
            start <= len,
            len == s@.len(),
            drop_leading_spaces(s@) == drop_leading_spaces(
                s@.subrange(start as int, len as int),
            ),
        decreases len - start,
    {
        proof {
            assert(s@.subrange(start as int, len as int).drop_first() =~= s@.subrange(
                start as int + 1,
                len as int,
            ));
        }
        start = start + 1;
    }
    proof {
        assert(drop_leading_spaces(s@) =~= s@.subrange(start as int, len as int));
    }
    let mut end: usize = len;
    while end > start && is_space_char(s.get_char(end - 1))
        invariant
            start <= end <= len,
            len == s@.len(),
            drop_leading_spaces(s@) == s@.subrange(start as int, len as int),
            trimmed(s@) == drop_trailing_spaces(s@.subrange(start as int, end as int)),
        decreases end,
    {
        proof {
            assert(s@.subrange(start as int, end as int).drop_last() =~= s@.subrange(
                start as int,
                end as int - 1,
            ));
        }
        end = end - 1;
    }
    proof {
        assert(trimmed(s@) =~= s@.subrange(start as int, end as int));
    }
    String::from_str(s.substring_char(start, end))
}

/// The status line for a conversion of `orig` that succeeded.
pub fn success_message(orig: &str) -> (r: String)
    ensures
        r@ == success_status(orig@),
{
    let mut r = String::from_str("Converted ");
    r.append(orig);
    r.append(" successfully");
    proof {
        assert(r@ =~= success_status(orig@));
    }
    r
}

/// The status line one conversion outcome leaves in place of the queued
/// path `orig`: the success line exactly when the converter returned `Ok`,
/// and otherwise the error line carrying the reported message.
pub fn status_of(orig: &str, res: Result<(), String>) -> (r: String)
    ensures
        res is Ok ==> r@ == success_status(orig@),
        (res matches Err(e) ==> r@ == error_status(orig@, e@)),
{
    match res {
        Ok(_) => success_message(orig),
        Err(e) => error_message(orig, e.as_str()),
    }
}

/// The status line for a conversion of `orig` that failed with message `err`.
pub fn error_message(orig: &str, err: &str) -> (r: String)
    ensures
        r@ == error_status(orig@, err@),
{
    let mut r = String::from_str("Error converting ");
    r.append(orig);
    r.append(": ");
    r.append(err);
    proof {
        assert(r@ =~= error_status(orig@, err@));
    }
    r
}

} // verus!
