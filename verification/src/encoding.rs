//! The form of a list of paths on the wire.
//!
//! A list is written as the number of its paths, then each path in turn;
//! a path is written as the number of bytes of its UTF-8 form, then those
//! bytes. Each number takes eight bytes, the least significant first.
//! What follows the last path is not part of the list.

use vstd::bytes::{lemma_auto_spec_u64_to_from_le_bytes, spec_u64_to_le_bytes};
use vstd::prelude::*;
use vstd::utf8::{encode_utf8, encode_utf8_decode_utf8};

verus! {

/// One text on the wire: the length of its UTF-8 form, then that form.
pub open spec fn encoded_text(text: Seq<char>) -> Seq<u8> {
    spec_u64_to_le_bytes(encode_utf8(text).len() as u64) + encode_utf8(text)
}

/// Texts on the wire, one after the other.
pub open spec fn encoded_texts(texts: Seq<Seq<char>>) -> Seq<u8>
    decreases texts.len(),
{
    if texts.len() == 0 {
        Seq::empty()
    } else {
        encoded_text(texts[0]) + encoded_texts(texts.drop_first())
    }
}

/// A list of paths on the wire: the number of paths, then the paths.
pub open spec fn encoded_paths(paths: Seq<Seq<char>>) -> Seq<u8> {
    spec_u64_to_le_bytes(paths.len() as u64) + encoded_texts(paths)
}

/// Whether `bytes` begin with the list `paths`.
pub open spec fn holds_paths(bytes: Seq<u8>, paths: Seq<Seq<char>>) -> bool {
    encoded_paths(paths).is_prefix_of(bytes)
}

/// The list of paths that `bytes` begin with, if they begin with one.
pub open spec fn decoded_paths(bytes: Seq<u8>) -> Option<Seq<Seq<char>>> {
    if exists|paths: Seq<Seq<char>>| holds_paths(bytes, paths) {
        Some(choose|paths: Seq<Seq<char>>| holds_paths(bytes, paths))
    } else {
        None
    }
}

/// What begins with two sequences in a row begins with the first, and goes
/// on with the second.
pub proof fn lemma_prefix_split(x: Seq<u8>, y: Seq<u8>, b: Seq<u8>)
    requires
        (x + y).is_prefix_of(b),
    ensures
        x.is_prefix_of(b),
        y.is_prefix_of(b.skip(x.len() as int)),
{
    let rest = b.skip(x.len() as int);
    assert(y =~= rest.subrange(0, y.len() as int)) by {
        assert forall|i: int| 0 <= i < y.len() implies y[i] == rest.subrange(0, y.len() as int)[i] by {
            assert((x + y)[x.len() + i] == y[i]);
        }
    }
}

/// Two numbers that are written alike are the same number.
pub proof fn lemma_number_is_read_back(x: u64, y: u64)
    ensures
        spec_u64_to_le_bytes(x).len() == 8,
        spec_u64_to_le_bytes(y).len() == 8,
        spec_u64_to_le_bytes(x) == spec_u64_to_le_bytes(y) ==> x == y,
{
    lemma_auto_spec_u64_to_from_le_bytes();
}

/// Every text takes eight bytes at least.
pub proof fn lemma_encoded_texts_len(texts: Seq<Seq<char>>)
    ensures
        encoded_texts(texts).len() >= 8 * texts.len(),
    decreases texts.len(),
{
    if texts.len() > 0 {
        lemma_number_is_read_back(encode_utf8(texts[0]).len() as u64, 0);
        lemma_encoded_texts_len(texts.drop_first());
    }
}

/// As many texts as fit into bytes that a machine can hold are told apart
/// by what they are written as.
pub proof fn lemma_texts_are_read_back(p: Seq<Seq<char>>, q: Seq<Seq<char>>, b: Seq<u8>)
    requires
        p.len() == q.len(),
        encoded_texts(p).is_prefix_of(b),
        encoded_texts(q).is_prefix_of(b),
        b.len() <= u64::MAX,
    ensures
        p == q,
    decreases p.len(),
{
    if p.len() > 0 {
        let x = encode_utf8(p[0]);
        let y = encode_utf8(q[0]);
        let x_len = spec_u64_to_le_bytes(x.len() as u64);
        let y_len = spec_u64_to_le_bytes(y.len() as u64);
        let p_rest = encoded_texts(p.drop_first());
        let q_rest = encoded_texts(q.drop_first());
        // the first texts are as long as each other: their lengths are
        // the same eight bytes
        lemma_number_is_read_back(x.len() as u64, y.len() as u64);
        lemma_prefix_split(x_len, x + p_rest, b);
        lemma_prefix_split(y_len, y + q_rest, b);
        // they are the same bytes, and so the same text
        let after_len = b.skip(8);
        lemma_prefix_split(x, p_rest, after_len);
        lemma_prefix_split(y, q_rest, after_len);
        encode_utf8_decode_utf8(p[0]);
        encode_utf8_decode_utf8(q[0]);
        // and so are the texts after them
        lemma_texts_are_read_back(p.drop_first(), q.drop_first(), after_len.skip(x.len() as int));
        assert(p =~= seq![p[0]] + p.drop_first());
    }
}

/// Bytes that a machine can hold begin with at most one list of paths.
pub proof fn lemma_paths_are_read_back(p: Seq<Seq<char>>, q: Seq<Seq<char>>, b: Seq<u8>)
    requires
        holds_paths(b, p),
        holds_paths(b, q),
        b.len() <= u64::MAX,
    ensures
        p == q,
{
    let p_count = spec_u64_to_le_bytes(p.len() as u64);
    let q_count = spec_u64_to_le_bytes(q.len() as u64);
    lemma_number_is_read_back(p.len() as u64, q.len() as u64);
    lemma_prefix_split(p_count, encoded_texts(p), b);
    lemma_prefix_split(q_count, encoded_texts(q), b);
    lemma_encoded_texts_len(p);
    lemma_encoded_texts_len(q);
    lemma_texts_are_read_back(p, q, b.skip(8));
}

/// A list of paths is read back from what it is written as, whatever
/// follows it.
pub proof fn lemma_written_paths_are_read_back(paths: Seq<Seq<char>>, bytes: Seq<u8>)
    requires
        holds_paths(bytes, paths),
        bytes.len() <= u64::MAX,
    ensures
        decoded_paths(bytes) == Some(paths),
{
    let read = choose|read: Seq<Seq<char>>| holds_paths(bytes, read);
    lemma_paths_are_read_back(read, paths, bytes);
}

} // verus!
