//! Framing for the snapshot file image: a count-prefixed list of
//! length-prefixed byte sections, every length a little-endian 32-bit
//! word. Encoding and decoding are exact inverses, so an image read back
//! from storage yields bit for bit the sections that were written.

use vstd::prelude::*;
use vstd::slice::{slice_subrange, slice_to_vec};

verus! {

/// The four little-endian bytes of a 32-bit word.
pub open spec fn le32(n: u32) -> Seq<u8> {
    seq![
        (n & 0xff) as u8,
        ((n >> 8) & 0xff) as u8,
        ((n >> 16) & 0xff) as u8,
        ((n >> 24) & 0xff) as u8,
    ]
}

/// The 32-bit word four little-endian bytes stand for.
///
/// [`lemma_le32_round_trip`] shows the two are exact inverses.
pub open spec fn le32_val(b: Seq<u8>) -> u32
    recommends
        b.len() == 4,
{
    (b[0] as u32) | ((b[1] as u32) << 8) | ((b[2] as u32) << 16) | ((b[3] as u32) << 24)
}

pub proof fn lemma_le32_round_trip(n: u32)
    ensures
        le32_val(le32(n)) == n,
{
    let b = le32(n);
    assert(b[0] == (n & 0xff) as u8);
    assert(b[1] == ((n >> 8) & 0xff) as u8);
    assert(b[2] == ((n >> 16) & 0xff) as u8);
    assert(b[3] == ((n >> 24) & 0xff) as u8);
    assert((((n & 0xff) as u8) as u32) | ((((n >> 8) & 0xff) as u8) as u32) << 8 | ((((n >> 16)
        & 0xff) as u8) as u32) << 16 | ((((n >> 24) & 0xff) as u8) as u32) << 24 == n)
        by (bit_vector);
}

/// The body of an image: every section in order, each preceded by its
/// length word.
pub open spec fn spec_encode_body(secs: Seq<Seq<u8>>) -> Seq<u8>
    decreases secs.len(),
{
    if secs.len() == 0 {
        Seq::empty()
    } else {
        le32(secs.first().len() as u32) + secs.first() + spec_encode_body(secs.drop_first())
    }
}

/// A whole image: the section count, then the body.
pub open spec fn spec_encode(secs: Seq<Seq<u8>>) -> Seq<u8> {
    le32(secs.len() as u32) + spec_encode_body(secs)
}

/// Reading `count` sections off the front of `bytes`, which must be
/// consumed exactly.
pub open spec fn spec_decode_body(bytes: Seq<u8>, count: nat) -> Option<Seq<Seq<u8>>>
    decreases count,
{
    if count == 0 {
        if bytes.len() == 0 {
            Some(Seq::empty())
        } else {
            None
        }
    } else if bytes.len() < 4 {
        None
    } else {
        let n = le32_val(bytes.subrange(0, 4)) as int;
        let rest = bytes.skip(4);
        if rest.len() < n {
            None
        } else {
            match spec_decode_body(rest.skip(n), (count - 1) as nat) {
                Some(tail) => Some(seq![rest.subrange(0, n)] + tail),
                None => None,
            }
        }
    }
}

/// The sections an image holds, when it is well formed.
pub open spec fn spec_decode(bytes: Seq<u8>) -> Option<Seq<Seq<u8>>> {
    if bytes.len() < 4 {
        None
    } else {
        spec_decode_body(bytes.skip(4), le32_val(bytes.subrange(0, 4)) as nat)
    }
}

proof fn lemma_encode_body_push(secs: Seq<Seq<u8>>, x: Seq<u8>)
    ensures
        spec_encode_body(secs.push(x)) == spec_encode_body(secs) + le32(x.len() as u32) + x,
    decreases secs.len(),
{
    if secs.len() == 0 {
        assert(secs.push(x).first() == x);
        assert(secs.push(x).drop_first() =~= Seq::<Seq<u8>>::empty());
        assert(spec_encode_body(Seq::<Seq<u8>>::empty()) == Seq::<u8>::empty());
        assert(spec_encode_body(secs.push(x)) == le32(x.len() as u32) + x + Seq::<u8>::empty());
        assert(spec_encode_body(secs.push(x)) =~= spec_encode_body(secs) + le32(x.len() as u32)
            + x);
    } else {
        assert(secs.push(x).first() == secs.first());
        assert(secs.push(x).drop_first() =~= secs.drop_first().push(x));
        lemma_encode_body_push(secs.drop_first(), x);
        assert(spec_encode_body(secs.push(x)) == le32(secs.first().len() as u32) + secs.first()
            + (spec_encode_body(secs.drop_first()) + le32(x.len() as u32) + x));
        assert(spec_encode_body(secs.push(x)) =~= spec_encode_body(secs) + le32(x.len() as u32)
            + x);
    }
}

#[verifier::rlimit(50)]
proof fn lemma_decode_body_encode_body(secs: Seq<Seq<u8>>)
    requires
        forall|i: int| 0 <= i < secs.len() ==> (#[trigger] secs[i]).len() <= 0xffff_ffff,
    ensures
        spec_decode_body(spec_encode_body(secs), secs.len() as nat) == Some(secs),
    decreases secs.len(),
{
    if secs.len() == 0 {
        assert(spec_decode_body(spec_encode_body(secs), 0) == Some(Seq::<Seq<u8>>::empty()));
        assert(Seq::<Seq<u8>>::empty() =~= secs);
    } else {
        let first = secs.first();
        let bytes = spec_encode_body(secs);
        let n: u32 = first.len() as u32;
        lemma_le32_round_trip(n);
        assert(first.len() == n as int);
        assert(bytes == le32(n) + first + spec_encode_body(secs.drop_first()));
        assert(bytes.len() >= 4);
        assert(bytes.subrange(0, 4) =~= le32(n)) by {
            assert forall|k: int| 0 <= k < 4 implies bytes.subrange(0, 4)[k] == le32(n)[k] by {
                assert(bytes[k] == le32(n)[k]);
            }
        }
        assert(le32_val(bytes.subrange(0, 4)) == n);
        let rest = bytes.skip(4);
        assert(rest =~= first + spec_encode_body(secs.drop_first()));
        assert(rest.len() >= n as int);
        assert(rest.subrange(0, n as int) =~= first);
        assert(rest.skip(n as int) =~= spec_encode_body(secs.drop_first()));
        assert forall|i: int| 0 <= i < secs.drop_first().len() implies (
        #[trigger] secs.drop_first()[i]).len() <= 0xffff_ffff by {
            assert(secs.drop_first()[i] == secs[i + 1]);
        }
        lemma_decode_body_encode_body(secs.drop_first());
        assert(spec_decode_body(rest.skip(n as int), (secs.len() - 1) as nat) == Some(
            secs.drop_first(),
        ));
        assert(spec_decode_body(bytes, secs.len() as nat) == Some(
            seq![rest.subrange(0, n as int)] + secs.drop_first(),
        ));
        assert(seq![first] + secs.drop_first() =~= secs);
    }
}

/// Round trip: decoding an encoded section list yields exactly that
/// list. Encoding never loses or reorders a byte, and decoding accepts
/// every image the encoder can produce.
pub proof fn lemma_decode_encode(secs: Seq<Seq<u8>>)
    requires
        secs.len() <= 0xffff_ffff,
        forall|i: int| 0 <= i < secs.len() ==> (#[trigger] secs[i]).len() <= 0xffff_ffff,
    ensures
        spec_decode(spec_encode(secs)) == Some(secs),
{
    let bytes = spec_encode(secs);
    let count: u32 = secs.len() as u32;
    lemma_le32_round_trip(count);
    assert(bytes.subrange(0, 4) =~= le32(count));
    assert(bytes.skip(4) =~= spec_encode_body(secs));
    lemma_decode_body_encode_body(secs);
}

/// A malformed snapshot image: truncated, oversized lengths, or bytes
/// left over after the recorded sections.
#[derive(Clone, Copy, PartialEq, Eq, Structural, Debug)]
pub enum ImageError {
    Malformed,
}

pub(crate) fn push_le32(out: &mut Vec<u8>, n: u32)
    ensures
        final(out)@ == old(out)@ + le32(n),
{
    out.push((n & 0xff) as u8);
    out.push(((n >> 8) & 0xff) as u8);
    out.push(((n >> 16) & 0xff) as u8);
    out.push(((n >> 24) & 0xff) as u8);
    proof {
        assert(out@ =~= old(out)@ + le32(n));
    }
}

pub(crate) fn read_le32(bytes: &Vec<u8>, pos: usize) -> (r: u32)
    requires
        pos + 4 <= bytes@.len(),
    ensures
        r == le32_val(bytes@.subrange(pos as int, pos as int + 4)),
{
    let blen = bytes.len();
    assert(pos + 4 <= blen);
    let b0 = bytes[pos] as u32;
    let b1 = bytes[pos + 1] as u32;
    let b2 = bytes[pos + 2] as u32;
    let b3 = bytes[pos + 3] as u32;
    b0 | (b1 << 8) | (b2 << 16) | (b3 << 24)
}

/// Writes the sections as one image: count word, then each section
/// behind its length word.
pub fn encode_sections(sections: &Vec<Vec<u8>>) -> (out: Vec<u8>)
    requires
        sections@.len() <= 0xffff_ffff,
        forall|i: int| 0 <= i < sections@.len() ==> (#[trigger] sections@[i])@.len()
            <= 0xffff_ffff,
    ensures
        out@ == spec_encode(sections.deep_view()),
{
    let ghost all = sections.deep_view();
    let mut out: Vec<u8> = Vec::new();
    push_le32(&mut out, sections.len() as u32);
    proof {
        assert(out@ =~= le32(all.len() as u32) + spec_encode_body(all.take(0)));
    }
    let mut i: usize = 0;
    while i < sections.len()
        invariant
            i <= all.len(),
            all == sections.deep_view(),
            all.len() == sections@.len(),
            forall|j: int| 0 <= j < all.len() ==> (#[trigger] sections@[j])@.len() <= 0xffff_ffff,
            out@ == le32(all.len() as u32) + spec_encode_body(all.take(i as int)),
        decreases all.len() - i,
    {
        let section_len = sections[i].len();
        push_le32(&mut out, section_len as u32);
        let ghost before = out@;
        let mut k: usize = 0;
        while k < section_len
            invariant
                k <= section_len,
                section_len == sections@[i as int]@.len(),
                i < all.len(),
                all == sections.deep_view(),
                out@ == before + all[i as int].take(k as int),
            decreases section_len - k,
        {
            out.push(sections[i][k]);
            proof {
                assert(out@ =~= before + all[i as int].take(k as int + 1));
            }
            k += 1;
        }
        proof {
            assert(all[i as int].take(all[i as int].len() as int) =~= all[i as int]);
            lemma_encode_body_push(all.take(i as int), all[i as int]);
            assert(all.take(i as int + 1) =~= all.take(i as int).push(all[i as int]));
            assert(out@ =~= le32(all.len() as u32) + spec_encode_body(all.take(i as int + 1)));
        }
        i += 1;
    }
    proof {
        assert(all.take(all.len() as int) =~= all);
    }
    out
}

/// Reads an image back into its sections. Succeeds exactly on the images
/// the encoder produces: a short buffer, an oversized length word or
/// trailing bytes are all rejected.
pub fn decode_sections(bytes: &Vec<u8>) -> (r: Result<Vec<Vec<u8>>, ImageError>)
    ensures
        r matches Ok(secs) ==> spec_decode(bytes@) == Some(secs.deep_view()),
        r is Err ==> spec_decode(bytes@) is None,
{
    if bytes.len() < 4 {
        return Err(ImageError::Malformed);
    }
    let count = read_le32(bytes, 0);
    proof {
        assert(bytes@.subrange(0, 4) == bytes@.subrange(0int, 0int + 4));
    }
    let mut pos: usize = 4;
    let mut done: u32 = 0;
    let mut acc: Vec<Vec<u8>> = Vec::new();
    proof {
        assert(acc.deep_view() =~= Seq::<Seq<u8>>::empty());
    }
    while done < count
        invariant
            4 <= pos <= bytes@.len(),
            done <= count,
            spec_decode(bytes@) == (match spec_decode_body(
                bytes@.skip(pos as int),
                (count - done) as nat,
            ) {
                Some(tail) => Some(acc.deep_view() + tail),
                None => None::<Seq<Seq<u8>>>,
            }),
        decreases count - done,
    {
        let ghost remaining = bytes@.skip(pos as int);
        let ghost rem_count = (count - done) as nat;
        if bytes.len() - pos < 4 {
            proof {
                assert(remaining.len() < 4);
                assert(spec_decode_body(remaining, rem_count) is None);
            }
            return Err(ImageError::Malformed);
        }
        let n = read_le32(bytes, pos) as usize;
        proof {
            assert(remaining.subrange(0, 4) =~= bytes@.subrange(pos as int, pos as int + 4));
            assert(le32_val(remaining.subrange(0, 4)) == n as u32);
            assert(remaining.skip(4) =~= bytes@.skip(pos as int + 4));
        }
        if n > bytes.len() - (pos + 4) {
            proof {
                assert(remaining.skip(4).len() < n as int);
                assert(spec_decode_body(remaining, rem_count) is None);
            }
            return Err(ImageError::Malformed);
        }
        let section = slice_to_vec(slice_subrange(bytes.as_slice(), pos + 4, pos + 4 + n));
        let ghost acc_before = acc.deep_view();
        acc.push(section);
        proof {
            assert(acc.deep_view() =~~= acc_before.push(section@));
            assert(remaining.skip(4).subrange(0, n as int) =~= bytes@.subrange(
                pos as int + 4,
                pos as int + 4 + n as int,
            ));
            assert(section@ == remaining.skip(4).subrange(0, n as int));
            assert(remaining.skip(4).skip(n as int) =~= bytes@.skip(pos as int + 4 + n as int));
            assert(rem_count == (count - done) as nat);
        }
        pos = pos + 4 + n;
        done = done + 1;
        proof {
            let rest2 = bytes@.skip(pos as int);
            match spec_decode_body(rest2, (count - done) as nat) {
                Some(tail) => {
                    assert(spec_decode_body(remaining, rem_count) == Some(
                        seq![section@] + tail,
                    ));
                    assert(acc_before + (seq![section@] + tail) =~= acc.deep_view() + tail);
                },
                None => {
                    assert(spec_decode_body(remaining, rem_count) is None);
                },
            }
        }
    }
    if pos != bytes.len() {
        proof {
            assert(bytes@.skip(pos as int).len() > 0);
            assert(spec_decode_body(bytes@.skip(pos as int), 0) is None);
        }
        return Err(ImageError::Malformed);
    }
    proof {
        assert(bytes@.skip(pos as int).len() == 0);
        assert(spec_decode_body(bytes@.skip(pos as int), 0) == Some(Seq::<Seq<u8>>::empty()));
        assert(acc.deep_view() + Seq::<Seq<u8>>::empty() =~= acc.deep_view());
    }
    Ok(acc)
}

} // verus!
