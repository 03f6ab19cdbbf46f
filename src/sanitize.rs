//! The wordlist filter: which lines of a raw corpus become candidate paths,
//! and the line written for each.
use vstd::prelude::*;
use vstd::string::{is_ascii_spec_bytes, StrSliceExecFns, StringExecFns};
use vstd::utf8::is_ascii_chars;

verus! {

/// The longest entry kept, in bytes.
pub const MAX_ENTRY_LEN: usize = 7;

/// An ASCII uppercase letter.
pub open spec fn is_upper_letter(c: char) -> bool {
    'A' <= c <= 'Z'
}

/// ASCII uppercasing of one character.
pub open spec fn ascii_upper_char(c: char) -> char {
    if 'a' <= c <= 'z' {
        ((c as u32) - 32) as char
    } else {
        c
    }
}

/// ASCII uppercasing of a text.
pub open spec fn ascii_upper(s: Seq<char>) -> Seq<char> {
    s.map_values(|c: char| ascii_upper_char(c))
}

/// A line is kept when it is all ASCII, every character is an uppercase
/// letter, and it is at most `MAX_ENTRY_LEN` long.
pub open spec fn qualifies(line: Seq<char>) -> bool {
    &&& is_ascii_chars(line)
    &&& forall|i: int| 0 <= i < line.len() ==> is_upper_letter(#[trigger] line[i])
    &&& line.len() <= MAX_ENTRY_LEN
}

/// Relies on `char::is_uppercase`: on ASCII it holds of `A` to `Z` alone.
#[verifier::external_body]
fn is_uppercase(c: char) -> (r: bool)
    ensures
        '\0' <= c <= '\u{7f}' ==> (r <==> is_upper_letter(c)),
{
    c.is_uppercase()
}

/// The line to append for a corpus line: the line uppercased, with a newline,
/// when it qualifies; nothing otherwise.
pub fn sanitized_entry(line: &str) -> (r: Option<String>)
    ensures
        r is Some <==> qualifies(line@),
        r is Some ==> r->0@ == ascii_upper(line@).push('\n'),
{
    if !line.is_ascii() {
        return None;
    }
    proof {
        is_ascii_spec_bytes(line);
    }
    if line.len() > MAX_ENTRY_LEN {
        return None;
    }
    let n = line.unicode_len();
    let mut i: usize = 0;
    while i < n
        invariant
            n == line@.len(),
            i <= n,
            is_ascii_chars(line@),
            forall|j: int| 0 <= j < i ==> is_upper_letter(#[trigger] line@[j]),
        decreases n - i,
    {
        let c = line.get_char(i);
        if !is_uppercase(c) {
            return None;
        }
        i = i + 1;
    }
    let mut entry = String::from_str(line);
    entry.append("\n");
    proof {
        reveal_strlit("\n");
        assert(ascii_upper(line@) =~= line@);
    }
    Some(entry)
}

} // verus!
