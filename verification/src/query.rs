//! Cutting byte strings at separators, as a query string is cut at `&`
//! and each of its fields at `=`.

use vstd::prelude::*;
use vstd::slice::{slice_subrange, slice_to_vec};

verus! {

/// The byte `&`, which separates the fields of a query string.
pub const AMPERSAND: u8 = 0x26;

/// The byte `=`, which separates a field's name from its value.
pub const EQUALS: u8 = 0x3D;

/// The position of the first `b` in `s`, or the length of `s` if it holds none.
pub open spec fn index_of(s: Seq<u8>, b: u8) -> int
    decreases s.len(),
{
    if s.len() == 0 || s[0] == b {
        0
    } else {
        1 + index_of(s.skip(1), b)
    }
}

/// The pieces of `s` between occurrences of `sep`, in order. There is one
/// piece more than there are separators, so the result is never empty, and
/// a piece may be.
pub open spec fn split(s: Seq<u8>, sep: u8) -> Seq<Seq<u8>>
    decreases s.len(),
{
    let i = index_of(s, sep);
    if 0 <= i < s.len() {
        seq![s.take(i)] + split(s.skip(i + 1), sep)
    } else {
        seq![s]
    }
}

/// The value of the first field named `name` among `fields`: what follows
/// `name` and `=` in the first field that starts with the two.
pub open spec fn find_field(fields: Seq<Seq<u8>>, name: Seq<u8>) -> Option<Seq<u8>>
    decreases fields.len(),
{
    if fields.len() == 0 {
        None
    } else if (name + seq![EQUALS]).is_prefix_of(fields[0]) {
        Some(fields[0].skip(name.len() as int + 1))
    } else {
        find_field(fields.skip(1), name)
    }
}

/// The contents of a vector of byte vectors.
pub open spec fn views(v: Seq<Vec<u8>>) -> Seq<Seq<u8>> {
    Seq::new(v.len(), |i: int| v[i]@)
}

/// A position with no `b` before it that is the end or holds `b` is `index_of`.
pub proof fn lemma_index_of_is(s: Seq<u8>, b: u8, i: int)
    requires
        0 <= i <= s.len(),
        forall|k: int| 0 <= k < i ==> s[k] != b,
        i < s.len() ==> s[i] == b,
    ensures
        index_of(s, b) == i,
    decreases s.len(),
{
    if s.len() != 0 && s[0] != b {
        assert forall|k: int| 0 <= k < i - 1 implies s.skip(1)[k] != b by {
            assert(s.skip(1)[k] == s[k + 1]);
        }
        lemma_index_of_is(s.skip(1), b, i - 1);
    }
}

/// A piece without separator, followed by a separator and more, splits
/// into that piece and the pieces of what follows.
pub proof fn lemma_split_first(piece: Seq<u8>, rest: Seq<u8>, sep: u8)
    requires
        forall|k: int| 0 <= k < piece.len() ==> piece[k] != sep,
    ensures
        split(piece + seq![sep] + rest, sep) == seq![piece] + split(rest, sep),
{
    let whole = piece + seq![sep] + rest;
    lemma_index_of_is(whole, sep, piece.len() as int);
    assert(whole.take(piece.len() as int) == piece);
    assert(whole.skip(piece.len() as int + 1) == rest);
}

/// A byte string without separator is its own single piece.
pub proof fn lemma_split_last(piece: Seq<u8>, sep: u8)
    requires
        forall|k: int| 0 <= k < piece.len() ==> piece[k] != sep,
    ensures
        split(piece, sep) == seq![piece],
{
    lemma_index_of_is(piece, sep, piece.len() as int);
}

/// Finds the first `b` in `s` at or after `start`.
pub(crate) fn find_byte(s: &[u8], start: usize, b: u8) -> (at: usize)
    requires
        start <= s@.len(),
    ensures
        at == start + index_of(s@.skip(start as int), b),
        start <= at <= s@.len(),
{
    let mut j: usize = start;
    while j < s.len() && s[j] != b
        invariant
            start <= j <= s@.len(),
            forall|k: int| start <= k < j ==> s@[k] != b,
        decreases s@.len() - j,
    {
        j += 1;
    }
    proof {
        lemma_index_of_is(s@.skip(start as int), b, j - start);
    }
    j
}

/// Cuts `s` at every `sep`.
pub fn split_bytes(s: &[u8], sep: u8) -> (pieces: Vec<Vec<u8>>)
    ensures
        views(pieces@) == split(s@, sep),
{
    let mut pieces: Vec<Vec<u8>> = Vec::new();
    let mut start: usize = 0;
    let mut done = false;
    proof {
        assert(s@.skip(0) == s@);
        assert(views(pieces@) + split(s@, sep) == split(s@, sep));
    }
    while !done
        invariant
            start <= s@.len(),
            !done ==> split(s@, sep) == views(pieces@) + split(s@.skip(start as int), sep),
            done ==> split(s@, sep) == views(pieces@),
        decreases s@.len() - start + (if done { 0int } else { 1int }),
    {
        let at = find_byte(s, start, sep);
        let piece = slice_to_vec(slice_subrange(s, start, at));
        let ghost tail = s@.skip(start as int);
        let ghost before = views(pieces@);
        pieces.push(piece);
        proof {
            assert(piece@ == tail.take(at - start));
            assert(views(pieces@) == before + seq![piece@]);
        }
        if at < s.len() {
            proof {
                assert(tail.skip(at - start + 1) == s@.skip(at + 1));
                assert(before + (seq![piece@] + split(s@.skip(at + 1), sep)) == views(pieces@)
                    + split(s@.skip(at + 1), sep));
            }
            start = at + 1;
        } else {
            proof {
                assert(tail.take(at - start) == tail);
            }
            done = true;
        }
    }
    pieces
}

/// Whether `s` starts with `name` followed by `=`.
fn is_field_named(s: &[u8], name: &[u8]) -> (r: bool)
    ensures
        r == (name@ + seq![EQUALS]).is_prefix_of(s@),
        r ==> name@.len() < s@.len(),
{
    let ghost key = name@ + seq![EQUALS];
    if s.len() <= name.len() {
        return false;
    }
    let mut i: usize = 0;
    while i < name.len()
        invariant
            i <= name@.len() < s@.len(),
            key == name@ + seq![EQUALS],
            forall|k: int| 0 <= k < i ==> s@[k] == name@[k],
        decreases name@.len() - i,
    {
        if s[i] != name[i] {
            proof {
                assert(key[i as int] == name@[i as int]);
                assert(s@.subrange(0, key.len() as int)[i as int] == s@[i as int]);
            }
            return false;
        }
        i += 1;
    }
    let r = s[name.len()] == EQUALS;
    proof {
        let head = s@.subrange(0, key.len() as int);
        if r {
            assert(key =~= head);
        } else {
            assert(key[name@.len() as int] == EQUALS);
            assert(head[name@.len() as int] == s@[name@.len() as int]);
        }
    }
    r
}

/// Looks up the value of the first field named `name`.
pub fn find_field_value(fields: &Vec<Vec<u8>>, name: &[u8]) -> (value: Option<Vec<u8>>)
    ensures
        match value {
            Some(v) => find_field(views(fields@), name@) == Some(v@),
            None => find_field(views(fields@), name@) is None,
        },
{
    let mut i: usize = 0;
    proof {
        assert(views(fields@).skip(0) == views(fields@));
    }
    while i < fields.len()
        invariant
            i <= fields@.len(),
            find_field(views(fields@), name@) == find_field(views(fields@).skip(i as int), name@),
        decreases fields@.len() - i,
    {
        let field = fields[i].as_slice();
        proof {
            let rest = views(fields@).skip(i as int);
            assert(rest[0] == field@);
            assert(rest.skip(1) == views(fields@).skip(i + 1));
        }
        if is_field_named(field, name) {
            let end: usize = field.len();
            let value = slice_to_vec(slice_subrange(field, name.len() + 1, end));
            proof {
                assert(value@ == field@.skip(name@.len() as int + 1));
            }
            return Some(value);
        }
        i += 1;
    }
    None
}

} // verus!
