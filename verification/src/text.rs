//! Text operations that the standard library provides.

use vstd::prelude::*;
use vstd::string::*;

verus! {

/// The lowercase form of a text, as `str::to_lowercase` computes it from the
/// Unicode tables.
pub uninterp spec fn lowercase_of(s: Seq<char>) -> Seq<char>;

/// Calls `str::to_lowercase`. The result is a function of the characters of
/// the argument alone; nothing else is claimed of it.
#[verifier::external_body]
pub(crate) fn lowercase(s: &str) -> (r: String)
    ensures
        r@ == lowercase_of(s@),
{
    s.to_lowercase()
}

/// The text of a string in double quotes, with escapes, as
/// `<str as Debug>::fmt` writes it.
pub uninterp spec fn quoted(s: Seq<char>) -> Seq<char>;

/// Formats a string with `{:?}`, that is with `<str as Debug>::fmt`. The result
/// is a function of the characters of the argument alone; nothing else is
/// claimed of it.
#[verifier::external_body]
pub(crate) fn quote(s: &str) -> (r: String)
    ensures
        r@ == quoted(s@),
{
    format!("{:?}", s)
}

/// The text with a backslash before each double quote.
pub open spec fn escaped_quotes(s: Seq<char>) -> Seq<char>
    decreases s.len(),
{
    if s.len() == 0 {
        Seq::empty()
    } else if s.last() == '"' {
        escaped_quotes(s.drop_last()) + seq!['\\', '"']
    } else {
        escaped_quotes(s.drop_last()).push(s.last())
    }
}

/// Calls `str::replace` with the double quote as the pattern and a backslash
/// and a double quote as the replacement: every double quote of the text is
/// replaced, and nothing else is changed.
#[verifier::external_body]
pub(crate) fn escape_quotes(s: &str) -> (r: String)
    ensures
        r@ == escaped_quotes(s@),
{
    s.replace('"', "\\\"")
}

/// The texts of a sequence of strings, in order.
pub open spec fn texts(v: Seq<String>) -> Seq<Seq<char>> {
    Seq::new(v.len(), |i: int| v[i]@)
}

/// The lines with a line feed between each two of them.
pub open spec fn joined_lines(lines: Seq<Seq<char>>) -> Seq<char>
    decreases lines.len(),
{
    if lines.len() == 0 {
        Seq::empty()
    } else if lines.len() == 1 {
        lines[0]
    } else {
        joined_lines(lines.drop_last()) + "\n"@ + lines.last()
    }
}

/// Joins lines with a line feed between each two of them.
pub fn join_lines(lines: &Vec<String>) -> (r: String)
    ensures
        r@ == joined_lines(texts(lines@)),
{
    let ghost all = texts(lines@);
    let mut out = String::new();
    let mut i: usize = 0;
    while i < lines.len()
        invariant
            i <= lines.len(),
            all == texts(lines@),
            out@ == joined_lines(all.take(i as int)),
        decreases lines.len() - i,
    {
        if i > 0 {
            out.append("\n");
        }
        out.append(lines[i].as_str());
        proof {
            assert(all.take(i + 1).drop_last() == all.take(i as int));
            assert(all.take(i + 1).last() == lines[i as int]@);
        }
        i = i + 1;
    }
    proof {
        assert(all.take(i as int) == all);
    }
    out
}

/// The texts of a sequence with one more string are the texts of the sequence
/// with one more text.
pub proof fn lemma_texts_push(v: Seq<String>, s: String)
    ensures
        texts(v.push(s)) == texts(v).push(s@),
{
}

/// Adds a line to a list of lines.
pub fn push_line(lines: &mut Vec<String>, line: String)
    ensures
        texts(final(lines)@) == texts(old(lines)@).push(line@),
{
    proof {
        lemma_texts_push(lines@, line);
    }
    lines.push(line);
}

/// Adds a line of fixed text to a list of lines.
pub fn push_text(lines: &mut Vec<String>, line: &str)
    ensures
        texts(final(lines)@) == texts(old(lines)@).push(line@),
{
    push_line(lines, String::from_str(line));
}

} // verus!
