//! The journal's binary wire format.
//!
//! An entry is serialized as its (field, value) pairs in order, each pair
//! framed as: the field's bytes, one newline, the value's byte length as an
//! 8-byte little-endian integer, the value's bytes, one newline.  The
//! explicit length makes the framing lossless for values holding newlines
//! or arbitrary bytes; it is used uniformly, never a `FIELD=value` short
//! form.  Pairs are never deduplicated or reordered.

use crate::field::Field;
use vstd::bytes::lemma_auto_spec_u64_to_from_le_bytes;
use vstd::bytes::spec_u64_from_le_bytes;
use vstd::bytes::spec_u64_to_le_bytes;
use vstd::bytes::u64_to_le_bytes;
use vstd::prelude::*;
use vstd::string::StringSliceAdditionalSpecFns;
use vstd::utf8::encode_utf8;

verus! {

/// Bytes of framing around every value: one newline after the field name,
/// the 8-byte length prefix, and one newline after the value.
pub const PAIR_OVERHEAD: usize = 10;

/// The wire image of a single (field, value) pair, both given as bytes.
pub open spec fn record_bytes(f: Seq<u8>, v: Seq<u8>) -> Seq<u8> {
    f + seq![10u8] + spec_u64_to_le_bytes(v.len() as u64) + v + seq![10u8]
}

/// The wire image of a sequence of pairs: their records, concatenated in
/// order with no entry-level header or terminator.
pub open spec fn wire_bytes(ps: Seq<(Seq<u8>, Seq<u8>)>) -> Seq<u8>
    decreases ps.len(),
{
    if ps.len() == 0 {
        Seq::empty()
    } else {
        record_bytes(ps[0].0, ps[0].1) + wire_bytes(ps.drop_first())
    }
}

/// The size of the wire image, pair by pair.
pub open spec fn wire_size(ps: Seq<(Seq<u8>, Seq<u8>)>) -> int
    decreases ps.len(),
{
    if ps.len() == 0 {
        0
    } else {
        ps[0].0.len() + ps[0].1.len() + 10 + wire_size(ps.drop_first())
    }
}

/// The pairs of an entry as byte sequences: each field's and each value's
/// UTF-8 bytes, in order.
pub open spec fn entry_views<'a>(es: Seq<(Field<'a>, &'a str)>) -> Seq<(Seq<u8>, Seq<u8>)> {
    es.map_values(|p: (Field<'a>, &'a str)| (encode_utf8(p.0@), encode_utf8(p.1@)))
}

/// Law: the framing overhead of a record is exactly 10 bytes for any value,
/// independent of the value's content.
pub proof fn lemma_record_overhead(f: Seq<u8>, v: Seq<u8>)
    ensures
        record_bytes(f, v).len() == f.len() + v.len() + 10,
{
    lemma_auto_spec_u64_to_from_le_bytes();
}

/// The size computed pair by pair is the length of the wire image.
pub proof fn lemma_wire_size_is_len(ps: Seq<(Seq<u8>, Seq<u8>)>)
    ensures
        wire_bytes(ps).len() == wire_size(ps),
        wire_size(ps) >= 0,
    decreases ps.len(),
{
    if ps.len() == 0 {
    } else {
        lemma_record_overhead(ps[0].0, ps[0].1);
        lemma_wire_size_is_len(ps.drop_first());
    }
}

/// Extending a prefix of the pairs by one extends its wire image by one
/// record.
proof fn lemma_wire_bytes_take_step(ps: Seq<(Seq<u8>, Seq<u8>)>, k: int)
    requires
        0 <= k < ps.len(),
    ensures
        wire_bytes(ps.take(k + 1)) == wire_bytes(ps.take(k)) + record_bytes(ps[k].0, ps[k].1),
    decreases k,
{
    if k == 0 {
        assert(ps.take(1).drop_first() =~= Seq::empty());
        assert(ps.take(0) =~= Seq::empty());
        assert(record_bytes(ps[0].0, ps[0].1) + Seq::<u8>::empty() =~= record_bytes(
            ps[0].0,
            ps[0].1,
        ));
        assert(Seq::<u8>::empty() + record_bytes(ps[0].0, ps[0].1) =~= record_bytes(
            ps[0].0,
            ps[0].1,
        ));
    } else {
        let t = ps.drop_first();
        lemma_wire_bytes_take_step(t, k - 1);
        assert(ps.take(k + 1).drop_first() =~= t.take(k));
        assert(ps.take(k).drop_first() =~= t.take(k - 1));
        assert(ps.take(k + 1).len() > 0 && ps.take(k + 1)[0] == ps[0]);
        assert(ps.take(k).len() > 0 && ps.take(k)[0] == ps[0]);
        assert(t[k - 1] == ps[k]);
        let r0 = record_bytes(ps[0].0, ps[0].1);
        let rk = record_bytes(ps[k].0, ps[k].1);
        assert(r0 + (wire_bytes(t.take(k - 1)) + rk) =~= (r0 + wire_bytes(t.take(k - 1))) + rk);
    }
}

/// Extending a prefix of the pairs by one adds one pair's size.
proof fn lemma_wire_size_take_step(ps: Seq<(Seq<u8>, Seq<u8>)>, k: int)
    requires
        0 <= k < ps.len(),
    ensures
        wire_size(ps.take(k + 1)) == wire_size(ps.take(k)) + ps[k].0.len() + ps[k].1.len() + 10,
    decreases k,
{
    if k == 0 {
        assert(ps.take(1).drop_first() =~= Seq::empty());
        assert(ps.take(0) =~= Seq::empty());
    } else {
        let t = ps.drop_first();
        lemma_wire_size_take_step(t, k - 1);
        assert(ps.take(k + 1).drop_first() =~= t.take(k));
        assert(ps.take(k).drop_first() =~= t.take(k - 1));
        assert(ps.take(k + 1).len() > 0 && ps.take(k + 1)[0] == ps[0]);
        assert(ps.take(k).len() > 0 && ps.take(k)[0] == ps[0]);
        assert(t[k - 1] == ps[k]);
    }
}

/// The wire size splits across any cut of the pair sequence.
proof fn lemma_wire_size_split(ps: Seq<(Seq<u8>, Seq<u8>)>, k: int)
    requires
        0 <= k <= ps.len(),
    ensures
        wire_size(ps) == wire_size(ps.take(k)) + wire_size(ps.skip(k)),
    decreases k,
{
    if k == 0 {
        assert(ps.take(0) =~= Seq::empty());
        assert(ps.skip(0) =~= ps);
    } else {
        let t = ps.drop_first();
        lemma_wire_size_split(t, k - 1);
        assert(ps.take(k).drop_first() =~= t.take(k - 1));
        assert(ps.take(k).len() > 0 && ps.take(k)[0] == ps[0]);
        assert(ps.skip(k) =~= t.skip(k - 1));
    }
}

/// Capacity a value occupies when serialized with its framing.
pub fn required_capacity(value: &str) -> (r: usize)
    requires
        encode_utf8(value@).len() + 10 <= usize::MAX,
    ensures
        r == encode_utf8(value@).len() + 10,
{
    value.as_bytes().len() + PAIR_OVERHEAD
}

/// The 8-byte little-endian length prefix of a value.
pub fn encoded_len(value: &str) -> (r: Vec<u8>)
    ensures
        r@ == spec_u64_to_le_bytes(encode_utf8(value@).len() as u64),
{
    u64_to_le_bytes(value.as_bytes().len() as u64)
}

/// Appends all of `src` to `dst`.
fn append_bytes(dst: &mut Vec<u8>, src: &[u8])
    requires
        old(dst)@.len() + src@.len() <= usize::MAX,
    ensures
        final(dst)@ == old(dst)@ + src@,
{
    let n = src.len();
    let mut j: usize = 0;
    while j < n
        invariant
            0 <= j <= n,
            n == src@.len(),
            dst@ == old(dst)@ + src@.take(j as int),
            dst@.len() == old(dst)@.len() + j,
        decreases n - j,
    {
        dst.push(src[j]);
        proof {
            assert(src@.take(j + 1) =~= src@.take(j as int).push(src@[j as int]));
            assert(old(dst)@ + src@.take(j as int).push(src@[j as int]) =~= (old(dst)@ + src@.take(
                j as int,
            )).push(src@[j as int]));
        }
        j += 1;
    }
    proof {
        assert(src@.take(n as int) =~= src@);
    }
}

/// Serializes the pairs of one entry into its wire image.
///
/// Two passes, as the format asks: the exact size is computed first, then
/// the buffer is filled in order, with no deduplication or reordering.
pub fn encode_entries<'a>(entries: &[(Field<'a>, &'a str)]) -> (r: Vec<u8>)
    requires
        wire_size(entry_views(entries@)) <= usize::MAX,
    ensures
        r@ == wire_bytes(entry_views(entries@)),
        r@.len() == wire_size(entry_views(entries@)),
{
    let ghost views = entry_views(entries@);
    let m = entries.len();
    proof {
        lemma_wire_size_is_len(views);
    }
    // Size pass.
    let mut total: usize = 0;
    let mut k: usize = 0;
    while k < m
        invariant
            0 <= k <= m,
            m == entries@.len(),
            views == entry_views(entries@),
            views.len() == m,
            wire_size(views) <= usize::MAX,
            total == wire_size(views.take(k as int)),
        decreases m - k,
    {
        proof {
            assert(views[k as int] == (
                encode_utf8(entries@[k as int].0@),
                encode_utf8(entries@[k as int].1@),
            ));
            lemma_wire_size_take_step(views, k as int);
            lemma_wire_size_split(views, k + 1);
            lemma_wire_size_is_len(views.take(k + 1));
            lemma_wire_size_is_len(views.skip(k + 1));
        }
        let p = &entries[k];
        let fcap = p.0.required_capacity();
        let vcap = p.1.as_bytes().len();
        total = total + fcap + vcap + PAIR_OVERHEAD;
        k += 1;
    }
    proof {
        assert(views.take(m as int) =~= views);
    }
    // Fill pass.
    let mut data: Vec<u8> = Vec::with_capacity(total);
    let mut k: usize = 0;
    while k < m
        invariant
            0 <= k <= m,
            m == entries@.len(),
            views == entry_views(entries@),
            views.len() == m,
            wire_size(views) <= usize::MAX,
            data@ == wire_bytes(views.take(k as int)),
        decreases m - k,
    {
        proof {
            lemma_wire_bytes_take_step(views, k as int);
            lemma_wire_size_is_len(views.take(k + 1));
            lemma_wire_size_split(views, k + 1);
            lemma_wire_size_is_len(views.skip(k + 1));
            lemma_wire_size_is_len(views.take(k as int));
            lemma_record_overhead(views[k as int].0, views[k as int].1);
        }
        let p = &entries[k];
        append_bytes(&mut data, p.0.as_str().as_bytes());
        data.push(10u8);
        let lenb = encoded_len(p.1);
        append_bytes(&mut data, lenb.as_slice());
        append_bytes(&mut data, p.1.as_bytes());
        data.push(10u8);
        proof {
            lemma_auto_spec_u64_to_from_le_bytes();
            assert(data@ =~= wire_bytes(views.take(k as int)) + record_bytes(
                views[k as int].0,
                views[k as int].1,
            ));
        }
        k += 1;
    }
    proof {
        assert(views.take(m as int) =~= views);
    }
    data
}

/// Index of the first newline byte, or the length when there is none.
pub open spec fn first_newline(bytes: Seq<u8>) -> int
    decreases bytes.len(),
{
    if bytes.len() == 0 {
        0
    } else if bytes[0] == 10 {
        0
    } else {
        1 + first_newline(bytes.drop_first())
    }
}

/// The first newline's index is never negative nor past the end.
proof fn lemma_first_newline_bounds(bytes: Seq<u8>)
    ensures
        0 <= first_newline(bytes) <= bytes.len(),
    decreases bytes.len(),
{
    if bytes.len() > 0 && bytes[0] != 10 {
        lemma_first_newline_bounds(bytes.drop_first());
    }
}

/// The first newline sits exactly where a newline first occurs.
proof fn lemma_first_newline_at(bytes: Seq<u8>, k: int)
    requires
        0 <= k < bytes.len(),
        bytes[k] == 10,
        forall|j: int| 0 <= j < k ==> bytes[j] != 10,
    ensures
        first_newline(bytes) == k,
    decreases k,
{
    if k == 0 {
    } else {
        let t = bytes.drop_first();
        assert(forall|j: int| 0 <= j < k - 1 ==> #[trigger] t[j] == bytes[j + 1]);
        lemma_first_newline_at(t, k - 1);
    }
}

/// Reading the wire image back: splits each record at its first newline,
/// takes the 8-byte little-endian length, the value of that many bytes and
/// the closing newline, and recurses; absent when the bytes do not parse.
pub open spec fn decode_wire(bytes: Seq<u8>) -> Option<Seq<(Seq<u8>, Seq<u8>)>>
    decreases bytes.len(),
    via decode_wire_decreases
{
    if bytes.len() == 0 {
        Some(Seq::empty())
    } else {
        let f = first_newline(bytes);
        if f == 0 || f >= bytes.len() {
            None
        } else {
            let name = bytes.take(f);
            let rest = bytes.skip(f + 1);
            if rest.len() < 8 {
                None
            } else {
                let vlen = spec_u64_from_le_bytes(rest.take(8)) as int;
                let body = rest.skip(8);
                if body.len() < vlen + 1 {
                    None
                } else if body[vlen] != 10 {
                    None
                } else {
                    match decode_wire(body.skip(vlen + 1)) {
                        None => None,
                        Some(t) => Some(seq![(bytes.take(f), body.take(vlen))] + t),
                    }
                }
            }
        }
    }
}

#[via_fn]
proof fn decode_wire_decreases(bytes: Seq<u8>) {
    if bytes.len() > 0 {
        lemma_first_newline_bounds(bytes);
        let f = first_newline(bytes);
        if 0 < f < bytes.len() {
            let rest = bytes.skip(f + 1);
            if rest.len() >= 8 {
                let vlen = spec_u64_from_le_bytes(rest.take(8)) as int;
                let body = rest.skip(8);
                if body.len() >= vlen + 1 {
                    assert(rest.len() == bytes.len() - f - 1);
                    assert(body.len() == rest.len() - 8);
                    assert(body.skip(vlen + 1).len() == body.len() - vlen - 1);
                }
            }
        }
    }
}

/// A pair the framing can carry and recover: the field is non-empty, holds
/// no newline byte, and the value's length fits the 8-byte prefix.
pub open spec fn framable_pair(p: (Seq<u8>, Seq<u8>)) -> bool {
    &&& p.0.len() >= 1
    &&& forall|j: int| 0 <= j < p.0.len() ==> p.0[j] != 10
    &&& p.1.len() <= u64::MAX
}

/// All pairs of a sequence are framable.
pub open spec fn framable_pairs(ps: Seq<(Seq<u8>, Seq<u8>)>) -> bool {
    forall|i: int| 0 <= i < ps.len() ==> framable_pair(#[trigger] ps[i])
}

/// Law: encoding any framable pairs and decoding the image reproduces the
/// exact original sequence, order and duplicate fields preserved.
pub proof fn lemma_wire_round_trip(ps: Seq<(Seq<u8>, Seq<u8>)>)
    requires
        framable_pairs(ps),
    ensures
        decode_wire(wire_bytes(ps)) == Some(ps),
    decreases ps.len(),
{
    lemma_auto_spec_u64_to_from_le_bytes();
    if ps.len() == 0 {
        assert(Seq::<(Seq<u8>, Seq<u8>)>::empty() =~= ps);
    } else {
        assert(framable_pair(ps[0]));
        let f = ps[0].0;
        let v = ps[0].1;
        let lenb = spec_u64_to_le_bytes(v.len() as u64);
        let restb = wire_bytes(ps.drop_first());
        let bytes = wire_bytes(ps);
        assert(bytes =~= f + seq![10u8] + lenb + v + seq![10u8] + restb);
        assert(bytes.len() == f.len() + 10 + v.len() + restb.len());
        assert(bytes[f.len() as int] == 10);
        assert(forall|j: int| 0 <= j < f.len() ==> #[trigger] bytes[j] == f[j]);
        lemma_first_newline_at(bytes, f.len() as int);
        assert(bytes.take(f.len() as int) =~= f);
        let rest = bytes.skip(f.len() as int + 1);
        assert(rest =~= lenb + v + seq![10u8] + restb);
        assert(rest.take(8) =~= lenb);
        let vlen = spec_u64_from_le_bytes(rest.take(8)) as int;
        assert(vlen == v.len());
        let body = rest.skip(8);
        assert(body =~= v + seq![10u8] + restb);
        assert(body.len() == v.len() + 1 + restb.len());
        assert(body[vlen] == 10);
        assert(body.take(vlen) =~= v);
        assert(body.skip(vlen + 1) =~= restb);
        assert forall|i: int| 0 <= i < ps.drop_first().len() implies framable_pair(
            #[trigger] ps.drop_first()[i],
        ) by {
            assert(ps.drop_first()[i] == ps[i + 1]);
        }
        lemma_wire_round_trip(ps.drop_first());
        assert(seq![(ps[0].0, ps[0].1)] + ps.drop_first() =~= ps);
        assert((ps[0].0, ps[0].1) == ps[0]);
    }
}

/// The bytes of a name within the field rule are framable: as many bytes
/// as characters, at least one, and never a newline.
pub proof fn lemma_valid_field_framable(s: Seq<char>)
    requires
        crate::field::valid_field_chars(s),
    ensures
        encode_utf8(s).len() == s.len(),
        forall|j: int| 0 <= j < encode_utf8(s).len() ==> encode_utf8(s)[j] != 10,
{
    crate::field::lemma_valid_field_is_ascii(s);
    vstd::utf8::is_ascii_chars_encode_utf8(s);
    assert forall|j: int| 0 <= j < encode_utf8(s).len() implies encode_utf8(s)[j] != 10 by {
        assert(encode_utf8(s)[j] == s[j] as u8);
        if j == 0 {
            assert(crate::field::is_upper_char(s[0]));
        } else {
            assert(crate::field::is_field_char(s[j]));
        }
    }
}

/// Law: an entry whose fields satisfy the naming rule round-trips through
/// the wire format, order and duplicate fields preserved.  (The length
/// hypothesis on each value is forced by the 8-byte length prefix; every
/// value held in memory satisfies it.)
pub proof fn lemma_entry_round_trip<'a>(es: Seq<(Field<'a>, &'a str)>)
    requires
        forall|i: int|
            0 <= i < es.len() ==> crate::field::valid_field_chars(#[trigger] es[i].0@),
        forall|i: int| 0 <= i < es.len() ==> encode_utf8(#[trigger] es[i].1@).len() <= u64::MAX,
    ensures
        decode_wire(wire_bytes(entry_views(es))) == Some(entry_views(es)),
{
    let views = entry_views(es);
    assert forall|i: int| 0 <= i < views.len() implies framable_pair(#[trigger] views[i]) by {
        assert(views[i] == (encode_utf8(es[i].0@), encode_utf8(es[i].1@)));
        lemma_valid_field_framable(es[i].0@);
    }
    lemma_wire_round_trip(views);
}

} // verus!
