//! Record formatting: one delimited text line per successfully hashed file,
//! `label D digest_1 D ... D digest_n D size D path`, with the path quoted so
//! the line stays delimiter-parseable even when the path contains the
//! delimiter.

use vstd::prelude::*;

use crate::text::chars_to_string;
use crate::text::dec_chars;
use crate::text::dec_chars_vec;
use crate::text::to_chars;

verus! {

/// The pieces joined with the delimiter between each pair; no delimiter is
/// added for an empty or a singleton sequence of pieces.
pub open spec fn joined(parts: Seq<Seq<char>>, delim: Seq<char>) -> Seq<char>
    decreases parts.len(),
{
    if parts.len() == 0 {
        Seq::empty()
    } else if parts.len() == 1 {
        parts[0]
    } else {
        joined(parts.drop_last(), delim) + delim + parts.last()
    }
}

/// A path character as it appears inside the quotes: quotes and backslashes
/// get a leading backslash, everything else stands as it is.
pub open spec fn escaped_char(c: char) -> Seq<char> {
    if c == '"' || c == '\\' {
        seq!['\\', c]
    } else {
        seq![c]
    }
}

/// The path's characters with quotes and backslashes escaped.
pub open spec fn escaped(path: Seq<char>) -> Seq<char>
    decreases path.len(),
{
    if path.len() == 0 {
        Seq::empty()
    } else {
        escaped(path.drop_last()) + escaped_char(path.last())
    }
}

/// A path rendered unambiguously: wrapped in double quotes, with quotes and
/// backslashes inside escaped.
pub open spec fn quoted(path: Seq<char>) -> Seq<char> {
    seq!['"'] + escaped(path) + seq!['"']
}

/// The one line emitted for a successfully hashed file: the run label, the
/// digests in request order, the file's byte size in decimal, and the quoted
/// path, separated by the delimiter.
pub open spec fn record_line(
    label: Seq<char>,
    delim: Seq<char>,
    digests: Seq<Seq<char>>,
    size: nat,
    path: Seq<char>,
) -> Seq<char> {
    label + delim + joined(digests, delim) + delim + dec_chars(size) + delim + quoted(path)
}

/// Appends every character of `src` to `dst`.
fn push_chars(dst: &mut Vec<char>, src: &Vec<char>)
    ensures
        final(dst)@ == old(dst)@ + src@,
{
    let mut i: usize = 0;
    while i < src.len()
        invariant
            i <= src@.len(),
            dst@ == old(dst)@ + src@.take(i as int),
        decreases src@.len() - i,
    {
        dst.push(src[i]);
        assert(old(dst)@ + src@.take(i + 1) =~= (old(dst)@ + src@.take(i as int)).push(
            src@[i as int],
        ));
        i += 1;
    }
    assert(old(dst)@ + src@.take(i as int) =~= old(dst)@ + src@);
}

/// The pieces joined with the delimiter, as in [`joined`].
fn join_pieces(parts: &Vec<String>, delim: &Vec<char>) -> (r: Vec<char>)
    ensures
        r@ == joined(parts.deep_view(), delim@),
{
    let ghost all = parts.deep_view();
    let mut r: Vec<char> = Vec::new();
    let mut i: usize = 0;
    while i < parts.len()
        invariant
            i <= parts@.len(),
            all == parts.deep_view(),
            r@ == joined(all.take(i as int), delim@),
        decreases parts@.len() - i,
    {
        proof {
            assert(all.take(i + 1).drop_last() =~= all.take(i as int));
            assert(all.take(i + 1).last() == all[i as int]);
            assert(all[i as int] == parts@[i as int]@);
        }
        if i > 0 {
            push_chars(&mut r, delim);
        }
        let piece = to_chars(parts[i].as_str());
        push_chars(&mut r, &piece);
        proof {
            if i == 0 {
                assert(joined(all.take(1), delim@) == all[0]);
                assert(r@ =~= all[0]);
            } else {
                assert(joined(all.take(i + 1), delim@) == joined(all.take(i as int), delim@)
                    + delim@ + all[i as int]);
            }
        }
        i += 1;
    }
    assert(all.take(i as int) =~= all);
    r
}

/// The path quoted and escaped, as in [`quoted`].
fn quote_path(path: &String) -> (r: Vec<char>)
    ensures
        r@ == quoted(path@),
{
    let chars = to_chars(path.as_str());
    let mut r: Vec<char> = Vec::new();
    r.push('"');
    let mut i: usize = 0;
    while i < chars.len()
        invariant
            i <= chars@.len(),
            chars@ == path@,
            r@ == seq!['"'] + escaped(path@.take(i as int)),
        decreases chars@.len() - i,
    {
        let c = chars[i];
        proof {
            assert(path@.take(i + 1).drop_last() =~= path@.take(i as int));
            assert(path@.take(i + 1).last() == path@[i as int]);
        }
        if c == '"' || c == '\\' {
            r.push('\\');
            r.push(c);
        } else {
            r.push(c);
        }
        assert(r@ =~= seq!['"'] + escaped(path@.take(i + 1)));
        i += 1;
    }
    assert(path@.take(i as int) =~= path@);
    r.push('"');
    assert(r@ =~= quoted(path@));
    r
}

/// Formats the record for one successfully hashed file into its output line,
/// exactly as [`record_line`] states it.
pub fn format_record(
    label: &String,
    delimiter: &String,
    digests: &Vec<String>,
    size: u64,
    path: &String,
) -> (r: String)
    ensures
        r@ == record_line(label@, delimiter@, digests.deep_view(), size as nat, path@),
{
    let delim = to_chars(delimiter.as_str());
    let mut line = to_chars(label.as_str());
    push_chars(&mut line, &delim);
    let body = join_pieces(digests, &delim);
    push_chars(&mut line, &body);
    push_chars(&mut line, &delim);
    let size_chars = dec_chars_vec(size);
    push_chars(&mut line, &size_chars);
    push_chars(&mut line, &delim);
    let quoted_path = quote_path(path);
    push_chars(&mut line, &quoted_path);
    chars_to_string(&line)
}

} // verus!
