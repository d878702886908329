//! The storage encoding, field by field.
//!
//! A record is a concatenation of fields.  A text field is the UTF-8 bytes
//! of the text preceded by their count as eight little-endian bytes; a label
//! list is its pair count as eight little-endian bytes followed by each key
//! and value as text fields.  Every reader accepts exactly what the matching
//! writer emits, so decoding an encoded record returns it unchanged.

use crate::labels::LabelSeq;
use crate::labels::entries_view;
use vstd::bytes::spec_u64_from_le_bytes;
use vstd::bytes::spec_u64_to_le_bytes;
use vstd::bytes::lemma_auto_spec_u64_to_from_le_bytes;
use vstd::bytes::u64_from_le_bytes;
use vstd::bytes::u64_to_le_bytes;
use vstd::prelude::*;
use vstd::slice::slice_subrange;
use vstd::slice::slice_to_vec;
use vstd::utf8::decode_utf8;
use vstd::utf8::encode_utf8;
use vstd::utf8::encode_utf8_decode_utf8;
use vstd::utf8::encode_utf8_valid_utf8;
use vstd::utf8::valid_utf8;

verus! {

/// A text field: the UTF-8 bytes of the text, preceded by their count as
/// eight little-endian bytes.
pub open spec fn spec_encode_str(s: Seq<char>) -> Seq<u8> {
    spec_u64_to_le_bytes(encode_utf8(s).len() as u64) + encode_utf8(s)
}

/// A label list: the pair count as eight little-endian bytes, then each key
/// and value in order as text fields.
pub open spec fn spec_encode_pairs(ps: LabelSeq) -> Seq<u8>
    decreases ps.len(),
{
    if ps.len() == 0 {
        Seq::empty()
    } else {
        spec_encode_str(ps.first().0) + spec_encode_str(ps.first().1) + spec_encode_pairs(
            ps.drop_first(),
        )
    }
}

/// Read eight little-endian bytes as a count, returning it and the rest.
pub open spec fn spec_take_u64(b: Seq<u8>) -> Option<(u64, Seq<u8>)> {
    if b.len() >= 8 {
        Some((spec_u64_from_le_bytes(b.take(8)), b.skip(8)))
    } else {
        None
    }
}

/// Read one text field, returning the text and the rest.  Fails when the
/// bytes run out or are not valid UTF-8.
pub open spec fn spec_take_str(b: Seq<u8>) -> Option<(Seq<char>, Seq<u8>)> {
    match spec_take_u64(b) {
        Some((n, rest)) => if n <= rest.len() && valid_utf8(rest.take(n as int)) {
            Some((decode_utf8(rest.take(n as int)), rest.skip(n as int)))
        } else {
            None
        },
        None => None,
    }
}

/// Read `count` key/value pairs, each two text fields, returning them and
/// the rest.
pub open spec fn spec_take_pairs(b: Seq<u8>, count: nat) -> Option<(LabelSeq, Seq<u8>)>
    decreases count,
{
    if count == 0 {
        Some((Seq::empty(), b))
    } else {
        match spec_take_str(b) {
            Some((k, r1)) => match spec_take_str(r1) {
                Some((v, r2)) => match spec_take_pairs(r2, (count - 1) as nat) {
                    Some((ps, r3)) => Some((seq![(k, v)] + ps, r3)),
                    None => None,
                },
                None => None,
            },
            None => None,
        }
    }
}

/// Reading a count gives back exactly the count that was written.
pub proof fn lemma_take_u64_round_trip(x: u64, t: Seq<u8>)
    ensures
        spec_take_u64(spec_u64_to_le_bytes(x) + t) == Some((x, t)),
{
    lemma_auto_spec_u64_to_from_le_bytes();
    assert((spec_u64_to_le_bytes(x) + t).take(8) =~= spec_u64_to_le_bytes(x));
    assert((spec_u64_to_le_bytes(x) + t).skip(8) =~= t);
}

/// Reading a text field gives back exactly the text that was written.
pub proof fn lemma_take_str_round_trip(s: Seq<char>, t: Seq<u8>)
    requires
        encode_utf8(s).len() <= u64::MAX,
    ensures
        spec_take_str(spec_encode_str(s) + t) == Some((s, t)),
{
    let e = encode_utf8(s);
    let n = e.len() as u64;
    lemma_take_u64_round_trip(n, e + t);
    assert(spec_encode_str(s) + t =~= spec_u64_to_le_bytes(n) + (e + t));
    assert((e + t).take(n as int) =~= e);
    assert((e + t).skip(n as int) =~= t);
    encode_utf8_valid_utf8(s);
    encode_utf8_decode_utf8(s);
}

/// Reading a label list gives back exactly the pairs that were written.
pub proof fn lemma_take_pairs_round_trip(ps: LabelSeq, t: Seq<u8>)
    requires
        forall|i: int|
            0 <= i < ps.len() ==> encode_utf8(#[trigger] ps[i].0).len() <= u64::MAX && encode_utf8(
                ps[i].1,
            ).len() <= u64::MAX,
    ensures
        spec_take_pairs(spec_encode_pairs(ps) + t, ps.len()) == Some((ps, t)),
    decreases ps.len(),
{
    if ps.len() == 0 {
        assert(spec_encode_pairs(ps) + t =~= t);
    } else {
        let k = ps.first().0;
        let v = ps.first().1;
        let tail = spec_encode_pairs(ps.drop_first());
        assert(spec_encode_pairs(ps) + t =~= spec_encode_str(k) + (spec_encode_str(v) + (tail
            + t)));
        lemma_take_str_round_trip(k, spec_encode_str(v) + (tail + t));
        lemma_take_str_round_trip(v, tail + t);
        lemma_take_pairs_round_trip(ps.drop_first(), t);
        assert(seq![(k, v)] + ps.drop_first() =~= ps);
    }
}

/// Appending pairs to a label list appends their fields to its encoding.
pub proof fn lemma_encode_pairs_push(ps: LabelSeq, p: (Seq<char>, Seq<char>))
    ensures
        spec_encode_pairs(ps.push(p)) == spec_encode_pairs(ps) + spec_encode_str(p.0)
            + spec_encode_str(p.1),
    decreases ps.len(),
{
    if ps.len() == 0 {
        assert(ps.push(p)[0] == p);
        assert(ps.push(p).drop_first() =~= Seq::empty());
        assert(spec_encode_pairs(ps.push(p).drop_first()) == Seq::<u8>::empty());
        assert(spec_encode_pairs(ps.push(p)) =~= spec_encode_pairs(ps) + spec_encode_str(p.0)
            + spec_encode_str(p.1));
    } else {
        lemma_encode_pairs_push(ps.drop_first(), p);
        assert(ps.push(p).drop_first() =~= ps.drop_first().push(p));
        assert(ps.push(p).first() == ps.first());
        assert(spec_encode_pairs(ps.push(p)) =~= spec_encode_pairs(ps) + spec_encode_str(p.0)
            + spec_encode_str(p.1));
    }
}

/// Relies on `String::from_utf8` of std: it accepts exactly the valid UTF-8
/// byte strings and decodes them to the characters they encode, which is
/// what vstd's UTF-8 model states of the same bytes.
#[verifier::external_body]
fn string_from_utf8(bytes: Vec<u8>) -> (r: Option<String>)
    ensures
        r is Some <==> valid_utf8(bytes@),
        r matches Some(s) ==> s@ == decode_utf8(bytes@),
{
    String::from_utf8(bytes).ok()
}

/// Append one count as eight little-endian bytes.
pub fn write_u64(out: &mut Vec<u8>, x: u64)
    ensures
        final(out)@ == old(out)@ + spec_u64_to_le_bytes(x),
{
    let mut b = u64_to_le_bytes(x);
    out.append(&mut b);
}

/// Append one text field.
pub fn write_str(out: &mut Vec<u8>, s: &String)
    ensures
        final(out)@ == old(out)@ + spec_encode_str(s@),
        encode_utf8(s@).len() <= u64::MAX,
{
    let mut bytes = s.as_str().as_bytes_vec();
    let mut len_bytes = u64_to_le_bytes(bytes.len() as u64);
    out.append(&mut len_bytes);
    out.append(&mut bytes);
}

/// Read the count at `pos`, returning it and the position after it.
pub fn read_u64(bytes: &[u8], pos: usize) -> (r: Option<(u64, usize)>)
    requires
        pos <= bytes@.len(),
    ensures
        match r {
            Some((x, p2)) => pos <= p2 <= bytes@.len() && spec_take_u64(bytes@.skip(pos as int))
                == Some((x, bytes@.skip(p2 as int))),
            None => spec_take_u64(bytes@.skip(pos as int)) is None,
        },
{
    if bytes.len() - pos >= 8 {
        let sub = slice_subrange(bytes, pos, pos + 8);
        let x = u64_from_le_bytes(sub);
        proof {
            assert(bytes@.subrange(pos as int, pos + 8) =~= bytes@.skip(pos as int).take(8));
            assert(bytes@.skip(pos + 8) =~= bytes@.skip(pos as int).skip(8));
        }
        Some((x, pos + 8))
    } else {
        None
    }
}

/// Read the text field at `pos`, returning it and the position after it.
pub fn read_str(bytes: &[u8], pos: usize) -> (r: Option<(String, usize)>)
    requires
        pos <= bytes@.len(),
    ensures
        match r {
            Some((s, p2)) => pos <= p2 <= bytes@.len() && spec_take_str(bytes@.skip(pos as int))
                == Some((s@, bytes@.skip(p2 as int))),
            None => spec_take_str(bytes@.skip(pos as int)) is None,
        },
{
    let (n, p1) = match read_u64(bytes, pos) {
        Some(x) => x,
        None => {
            return None;
        },
    };
    if n > (bytes.len() - p1) as u64 {
        return None;
    }
    let m = n as usize;
    let sub = slice_subrange(bytes, p1, p1 + m);
    proof {
        assert(bytes@.subrange(p1 as int, p1 + m) =~= bytes@.skip(p1 as int).take(n as int));
        assert(bytes@.skip(p1 + m) =~= bytes@.skip(p1 as int).skip(n as int));
    }
    let v = slice_to_vec(sub);
    match string_from_utf8(v) {
        Some(s) => Some((s, p1 + m)),
        None => None,
    }
}

/// Read `count` key/value pairs starting at `pos`, returning them and the
/// position after them.
pub fn read_pairs(bytes: &[u8], pos: usize, count: u64) -> (r: Option<
    (Vec<(String, String)>, usize),
>)
    requires
        pos <= bytes@.len(),
    ensures
        match r {
            Some((ps, p2)) => pos <= p2 <= bytes@.len() && spec_take_pairs(
                bytes@.skip(pos as int),
                count as nat,
            ) == Some((entries_view(ps@), bytes@.skip(p2 as int))),
            None => spec_take_pairs(bytes@.skip(pos as int), count as nat) is None,
        },
    decreases count,
{
    if count == 0 {
        let ps: Vec<(String, String)> = Vec::new();
        proof {
            assert(entries_view(ps@) =~= Seq::empty());
        }
        return Some((ps, pos));
    }
    let (k, p1) = match read_str(bytes, pos) {
        Some(x) => x,
        None => {
            return None;
        },
    };
    let (v, p2) = match read_str(bytes, p1) {
        Some(x) => x,
        None => {
            return None;
        },
    };
    match read_pairs(bytes, p2, count - 1) {
        Some((mut ps, p3)) => {
            let ghost tail = entries_view(ps@);
            ps.insert(0, (k, v));
            proof {
                assert(entries_view(ps@) =~= seq![(k@, v@)] + tail);
            }
            Some((ps, p3))
        },
        None => None,
    }
}

} // verus!
