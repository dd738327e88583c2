//! The hash-algorithm registry: the fixed set of supported algorithm
//! identifiers, the run-wide default, identifier parsing, and validation of
//! comma-separated request lists.

use vstd::prelude::*;

use crate::hasher_wrapper::HashAlgorithm;
use crate::text::chars_to_string;
use crate::text::to_chars;

verus! {

/// The identifiers of the supported algorithms, in registry order.
pub open spec fn spec_variants() -> Seq<Seq<char>> {
    seq!["xxh64"@, "xxh3"@]
}

/// The identifier handed out when no explicit list is supplied.
pub open spec fn spec_default() -> Seq<char> {
    "xxh64"@
}

/// Whether an identifier names a registered algorithm.
pub open spec fn is_supported(id: Seq<char>) -> bool {
    spec_variants().contains(id)
}

/// An ASCII uppercase letter mapped to its lowercase form; every other
/// character is left alone.
pub open spec fn lower_char(c: char) -> char {
    if 65 <= (c as u32) && (c as u32) <= 90 {
        (((c as u32) + 32) as u8) as char
    } else {
        c
    }
}

/// Every character of the sequence lowercased as in [`lower_char`].
pub open spec fn lower_seq(s: Seq<char>) -> Seq<char> {
    s.map_values(|c: char| lower_char(c))
}

/// The sequence with every space removed.
pub open spec fn strip_spaces(s: Seq<char>) -> Seq<char> {
    s.filter(|c: char| c != ' ')
}

/// How a requested list is normalized before matching: spaces stripped,
/// then lowercased.
pub open spec fn normalize(s: Seq<char>) -> Seq<char> {
    lower_seq(strip_spaces(s))
}

/// The sequence cut at every comma. The empty sequence yields one empty
/// piece; a trailing comma yields a trailing empty piece.
pub open spec fn split_commas(s: Seq<char>) -> Seq<Seq<char>>
    decreases s.len(),
{
    if s.len() == 0 {
        seq![Seq::<char>::empty()]
    } else if s.last() == ',' {
        split_commas(s.drop_last()).push(Seq::<char>::empty())
    } else {
        let r = split_commas(s.drop_last());
        r.update(r.len() - 1, r.last().push(s.last()))
    }
}

/// The registered identifiers among the normalized, comma-separated pieces
/// of a requested list, in request order.
pub open spec fn valid_of(s: Seq<char>) -> Seq<Seq<char>> {
    split_commas(normalize(s)).filter(|p: Seq<char>| is_supported(p))
}

/// The unregistered pieces of a requested list, in request order.
pub open spec fn invalid_of(s: Seq<char>) -> Seq<Seq<char>> {
    split_commas(normalize(s)).filter(|p: Seq<char>| !is_supported(p))
}

/// The identifiers of the supported algorithms, in registry order.
pub fn variants() -> (r: Vec<String>)
    ensures
        r.deep_view() == spec_variants(),
{
    let mut r: Vec<String> = Vec::new();
    r.push("xxh64".to_owned());
    r.push("xxh3".to_owned());
    assert(r.deep_view() =~~= spec_variants());
    r
}

/// The default algorithm identifier.
pub fn default_hash() -> (r: String)
    ensures
        r@ == spec_default(),
{
    "xxh64".to_owned()
}

fn lower_char_exec(c: char) -> (r: char)
    ensures
        r == lower_char(c),
{
    let b: u32 = c as u32;
    if 65 <= b && b <= 90 {
        ((b + 32) as u8) as char
    } else {
        c
    }
}

/// The characters lowercased as in [`lower_seq`].
fn lower_chars(s: &Vec<char>) -> (r: Vec<char>)
    ensures
        r@ == lower_seq(s@),
{
    let mut r: Vec<char> = Vec::new();
    let mut i: usize = 0;
    while i < s.len()
        invariant
            i <= s@.len(),
            r@ == lower_seq(s@.take(i as int)),
        decreases s@.len() - i,
    {
        let c = lower_char_exec(s[i]);
        r.push(c);
        assert(lower_seq(s@.take(i + 1)) =~= lower_seq(s@.take(i as int)).push(lower_char(
            s@[i as int],
        )));
        i += 1;
    }
    assert(s@.take(i as int) =~= s@);
    r
}

/// The characters normalized as in [`normalize`]: spaces dropped, the rest
/// lowercased.
fn normalize_chars(s: &Vec<char>) -> (r: Vec<char>)
    ensures
        r@ == normalize(s@),
{
    let mut r: Vec<char> = Vec::new();
    let mut i: usize = 0;
    while i < s.len()
        invariant
            i <= s@.len(),
            r@ == normalize(s@.take(i as int)),
        decreases s@.len() - i,
    {
        let c = s[i];
        proof {
            reveal(Seq::filter);
            assert(s@.take(i + 1).drop_last() =~= s@.take(i as int));
            assert(s@.take(i + 1).last() == s@[i as int]);
        }
        if c != ' ' {
            let lc = lower_char_exec(c);
            r.push(lc);
            proof {
                assert(strip_spaces(s@.take(i + 1)) == strip_spaces(s@.take(i as int)).push(
                    s@[i as int],
                ));
                assert(lower_seq(strip_spaces(s@.take(i as int)).push(s@[i as int])) =~= lower_seq(
                    strip_spaces(s@.take(i as int)),
                ).push(lower_char(s@[i as int])));
            }
        } else {
            proof {
                assert(strip_spaces(s@.take(i + 1)) == strip_spaces(s@.take(i as int)));
            }
        }
        i += 1;
    }
    assert(s@.take(i as int) =~= s@);
    r
}

/// The characters cut at every comma, as in [`split_commas`].
fn split_commas_exec(s: &Vec<char>) -> (r: Vec<Vec<char>>)
    ensures
        r.deep_view() == split_commas(s@),
        r@.len() > 0,
{
    let mut done: Vec<Vec<char>> = Vec::new();
    let mut cur: Vec<char> = Vec::new();
    let mut i: usize = 0;
    while i < s.len()
        invariant
            i <= s@.len(),
            done.deep_view().push(cur@) =~~= split_commas(s@.take(i as int)),
        decreases s@.len() - i,
    {
        let c = s[i];
        proof {
            assert(s@.take(i + 1).drop_last() =~= s@.take(i as int));
            assert(s@.take(i + 1).last() == s@[i as int]);
        }
        if c == ',' {
            let finished = cur;
            cur = Vec::new();
            done.push(finished);
            assert(done.deep_view().push(cur@) =~~= split_commas(s@.take(i as int)).push(
                Seq::<char>::empty(),
            ));
        } else {
            cur.push(c);
            proof {
                let prev = split_commas(s@.take(i as int));
                assert(done.deep_view().push(cur@) =~= prev.update(
                    prev.len() - 1,
                    prev.last().push(s@[i as int]),
                ));
            }
        }
        i += 1;
    }
    assert(s@.take(i as int) =~= s@);
    done.push(cur);
    assert(done.deep_view() =~~= split_commas(s@));
    done
}

/// Whether the piece names a registered algorithm. The piece is compared
/// whole: it is expected to be already normalized.
fn piece_supported(p: &String) -> (r: bool)
    ensures
        r == is_supported(p@),
{
    let v64: String = "xxh64".to_owned();
    let v3: String = "xxh3".to_owned();
    let hit = *p == v64 || *p == v3;
    proof {
        if hit {
            if p@ == "xxh64"@ {
                assert(spec_variants()[0] == p@);
            } else {
                assert(spec_variants()[1] == p@);
            }
        } else {
            assert(forall|i: int|
                0 <= i < spec_variants().len() ==> spec_variants()[i] != p@);
        }
    }
    hit
}

/// Splits a requested comma-separated list into the registered and the
/// unregistered identifiers, preserving request order in each part.
/// Matching is whitespace-tolerant and case-insensitive: spaces are
/// stripped and letters lowercased before the list is cut at commas.
pub fn check_hash(hash_list: &String) -> (r: (Vec<String>, Vec<String>))
    ensures
        r.0.deep_view() == valid_of(hash_list@),
        r.1.deep_view() == invalid_of(hash_list@),
{
    let chars = to_chars(hash_list.as_str());
    let cleaned = normalize_chars(&chars);
    let pieces = split_commas_exec(&cleaned);
    let ghost all = split_commas(normalize(hash_list@));

    let mut valid: Vec<String> = Vec::new();
    let mut invalid: Vec<String> = Vec::new();
    let mut i: usize = 0;
    while i < pieces.len()
        invariant
            i <= pieces@.len(),
            pieces.deep_view() == all,
            valid.deep_view() =~~= all.take(i as int).filter(|p: Seq<char>| is_supported(p)),
            invalid.deep_view() =~~= all.take(i as int).filter(|p: Seq<char>| !is_supported(p)),
        decreases pieces@.len() - i,
    {
        let piece = chars_to_string(&pieces[i]);
        proof {
            reveal(Seq::filter);
            assert(all.take(i + 1).drop_last() =~= all.take(i as int));
            assert(all.take(i + 1).last() == all[i as int]);
            assert(pieces.deep_view()[i as int] == pieces@[i as int]@);
        }
        if piece_supported(&piece) {
            valid.push(piece);
            assert(valid.deep_view() =~~= all.take(i + 1).filter(|p: Seq<char>| is_supported(p)));
            assert(invalid.deep_view() =~~= all.take(i + 1).filter(
                |p: Seq<char>| !is_supported(p),
            ));
        } else {
            invalid.push(piece);
            assert(valid.deep_view() =~~= all.take(i + 1).filter(|p: Seq<char>| is_supported(p)));
            assert(invalid.deep_view() =~~= all.take(i + 1).filter(
                |p: Seq<char>| !is_supported(p),
            ));
        }
        i += 1;
    }
    assert(all.take(i as int) =~= all);
    (valid, invalid)
}

/// Law: validation only lets registered identifiers through — every entry
/// of the valid partition names an algorithm of the registry. A list built
/// from `check_hash`'s first result therefore always satisfies the validated
/// invariant.
pub proof fn lemma_valid_entries_are_supported(s: Seq<char>, i: int)
    requires
        0 <= i < valid_of(s).len(),
    ensures
        is_supported(valid_of(s)[i]),
{
    split_commas(normalize(s)).lemma_filter_pred(|p: Seq<char>| is_supported(p), i);
}

/// Law: validation is a partition — each normalized piece of the request
/// lands in exactly one of the two lists, so together they account for
/// every piece.
pub proof fn lemma_validate_partitions(s: Seq<char>)
    ensures
        valid_of(s).len() + invalid_of(s).len() == split_commas(normalize(s)).len(),
{
    let pred = |p: Seq<char>| is_supported(p);
    lemma_filter_complement_len(split_commas(normalize(s)), pred);
    assert((|x: Seq<char>| !pred(x)) =~= (|p: Seq<char>| !is_supported(p)));
}

/// Law: the default algorithm is itself registered.
pub proof fn lemma_default_is_supported()
    ensures
        is_supported(spec_default()),
{
    assert(spec_variants()[0] == spec_default());
}

/// Law: every registered identifier resolves to an algorithm, so
/// constructing an accumulator for an entry of a validated list never
/// fails.
pub proof fn lemma_supported_ids_resolve(id: Seq<char>)
    requires
        is_supported(id),
    ensures
        HashAlgorithm::of_id(id) is Some,
{
    reveal_strlit("xxh64");
    reveal_strlit("xxh3");
    if id == "xxh64"@ {
        assert(lower_seq(id) =~= id);
    } else {
        assert(spec_variants()[1] == id);
        assert(lower_seq(id) =~= id);
    }
}

/// A predicate and its complement split a sequence's length between them.
proof fn lemma_filter_complement_len<A>(s: Seq<A>, pred: spec_fn(A) -> bool)
    ensures
        s.filter(pred).len() + s.filter(|x: A| !pred(x)).len() == s.len(),
    decreases s.len(),
{
    reveal(Seq::filter);
    if s.len() > 0 {
        lemma_filter_complement_len(s.drop_last(), pred);
    }
}

impl HashAlgorithm {
    /// The algorithm an identifier names after lowercasing, if any.
    pub open spec fn of_id(id: Seq<char>) -> Option<HashAlgorithm> {
        if lower_seq(id) == "xxh64"@ {
            Some(HashAlgorithm::Xxh64)
        } else if lower_seq(id) == "xxh3"@ {
            Some(HashAlgorithm::Xxh3)
        } else {
            None
        }
    }

    /// Parses an identifier, case-insensitively.
    pub fn from_str(s: &str) -> (r: Option<HashAlgorithm>)
        ensures
            r == Self::of_id(s@),
    {
        let chars = to_chars(s);
        let lowered = chars_to_string(&lower_chars(&chars));
        let v64: String = "xxh64".to_owned();
        let v3: String = "xxh3".to_owned();
        if lowered == v64 {
            Some(HashAlgorithm::Xxh64)
        } else if lowered == v3 {
            Some(HashAlgorithm::Xxh3)
        } else {
            None
        }
    }

    /// Parses an identifier, case-insensitively.
    pub fn from_string(s: String) -> (r: Option<HashAlgorithm>)
        ensures
            r == Self::of_id(s@),
    {
        Self::from_str(s.as_str())
    }
}

} // verus!
