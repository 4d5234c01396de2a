//! Canonical byte encoding. Hash identity (intent content hashes, Merkle
//! leaves) depends on a canonical byte form; this module fixes one:
//! integers big-endian and fixed-width, strings and lists length-prefixed,
//! options and enums tag-prefixed.

use vstd::prelude::*;
use vstd::string::StringSliceAdditionalSpecFns;

verus! {

/// Big-endian bytes of a 64-bit value.
pub open spec fn bytes_of_u64(n: u64) -> Seq<u8> {
    seq![
        ((n >> 56) & 0xff) as u8,
        ((n >> 48) & 0xff) as u8,
        ((n >> 40) & 0xff) as u8,
        ((n >> 32) & 0xff) as u8,
        ((n >> 24) & 0xff) as u8,
        ((n >> 16) & 0xff) as u8,
        ((n >> 8) & 0xff) as u8,
        (n & 0xff) as u8,
    ]
}

/// Big-endian bytes of a 128-bit value: high half, then low half.
pub open spec fn bytes_of_u128(n: u128) -> Seq<u8> {
    bytes_of_u64(((n >> 64) & 0xffff_ffff_ffff_ffff) as u64)
        + bytes_of_u64((n & 0xffff_ffff_ffff_ffff) as u64)
}

/// Bytes of a timestamp: its two's-complement image, big-endian.
pub open spec fn bytes_of_i64(n: i64) -> Seq<u8> {
    bytes_of_u64(n as u64)
}

/// Bytes of a boolean: one tag byte.
pub open spec fn bytes_of_bool(b: bool) -> Seq<u8> {
    seq![if b { 1u8 } else { 0u8 }]
}

/// Bytes of a string: byte length, then the UTF-8 bytes.
pub open spec fn bytes_of_str(s: Seq<u8>) -> Seq<u8> {
    bytes_of_u64(s.len() as u64) + s
}

/// Append the big-endian bytes of a 64-bit value.
pub fn push_u64(out: &mut Vec<u8>, n: u64)
    ensures
        final(out)@ == old(out)@ + bytes_of_u64(n),
{
    out.push(#[verifier::truncate] (((n >> 56) & 0xff) as u8));
    out.push(#[verifier::truncate] (((n >> 48) & 0xff) as u8));
    out.push(#[verifier::truncate] (((n >> 40) & 0xff) as u8));
    out.push(#[verifier::truncate] (((n >> 32) & 0xff) as u8));
    out.push(#[verifier::truncate] (((n >> 24) & 0xff) as u8));
    out.push(#[verifier::truncate] (((n >> 16) & 0xff) as u8));
    out.push(#[verifier::truncate] (((n >> 8) & 0xff) as u8));
    out.push(#[verifier::truncate] ((n & 0xff) as u8));
    proof {
        assert(final(out)@ =~= old(out)@ + bytes_of_u64(n));
    }
}

/// Append the big-endian bytes of a 128-bit value.
pub fn push_u128(out: &mut Vec<u8>, n: u128)
    ensures
        final(out)@ == old(out)@ + bytes_of_u128(n),
{
    push_u64(out, #[verifier::truncate] (((n >> 64) & 0xffff_ffff_ffff_ffff) as u64));
    push_u64(out, #[verifier::truncate] ((n & 0xffff_ffff_ffff_ffff) as u64));
    proof {
        assert(final(out)@ =~= old(out)@ + bytes_of_u128(n));
    }
}

/// Append the bytes of a timestamp.
pub fn push_i64(out: &mut Vec<u8>, n: i64)
    ensures
        final(out)@ == old(out)@ + bytes_of_i64(n),
{
    push_u64(out, #[verifier::truncate] (n as u64));
}

/// Append the tag byte of a boolean.
pub fn push_bool(out: &mut Vec<u8>, b: bool)
    ensures
        final(out)@ == old(out)@ + bytes_of_bool(b),
{
    out.push(if b { 1u8 } else { 0u8 });
    proof {
        assert(final(out)@ =~= old(out)@ + bytes_of_bool(b));
    }
}

/// Bytes of a string given by its characters: its UTF-8 image, length-prefixed.
pub open spec fn enc_str(s: Seq<char>) -> Seq<u8> {
    bytes_of_str(vstd::utf8::encode_utf8(s))
}

/// Bytes of an optional 64-bit value: a presence tag, then the value.
pub open spec fn enc_opt_u64(o: Option<u64>) -> Seq<u8> {
    match o {
        Option::None => seq![0u8],
        Option::Some(n) => seq![1u8] + bytes_of_u64(n),
    }
}

/// Bytes of an optional timestamp: a presence tag, then the value.
pub open spec fn enc_opt_i64(o: Option<i64>) -> Seq<u8> {
    match o {
        Option::None => seq![0u8],
        Option::Some(n) => seq![1u8] + bytes_of_i64(n),
    }
}

/// Bytes of an optional 128-bit id: a presence tag, then the value.
pub open spec fn enc_opt_u128(o: Option<u128>) -> Seq<u8> {
    match o {
        Option::None => seq![0u8],
        Option::Some(n) => seq![1u8] + bytes_of_u128(n),
    }
}

/// Concatenation of the encodings of a list's items, in order.
pub open spec fn concat_enc<T>(xs: Seq<T>, f: spec_fn(T) -> Seq<u8>) -> Seq<u8>
    decreases xs.len(),
{
    if xs.len() == 0 {
        Seq::empty()
    } else {
        concat_enc(xs.drop_last(), f) + f(xs.last())
    }
}

/// Bytes of a list: its length, then each item's encoding in order.
pub open spec fn enc_list<T>(xs: Seq<T>, f: spec_fn(T) -> Seq<u8>) -> Seq<u8> {
    bytes_of_u64(xs.len() as u64) + concat_enc(xs, f)
}

/// Extending a prefix of a list by one item extends its concatenated encoding.
pub proof fn lemma_concat_enc_step<T>(xs: Seq<T>, f: spec_fn(T) -> Seq<u8>, i: int)
    requires
        0 <= i < xs.len(),
    ensures
        concat_enc(xs.subrange(0, i + 1), f) == concat_enc(xs.subrange(0, i), f) + f(xs[i]),
{
    let ext = xs.subrange(0, i + 1);
    assert(ext.drop_last() =~= xs.subrange(0, i));
    assert(ext.last() == xs[i]);
}

/// The whole list is its own prefix of full length.
pub proof fn lemma_subrange_full<T>(xs: Seq<T>)
    ensures
        xs.subrange(0, xs.len() as int) == xs,
{
    assert(xs.subrange(0, xs.len() as int) =~= xs);
}

/// Append a presence-tagged optional 64-bit value.
pub fn push_opt_u64(out: &mut Vec<u8>, o: &Option<u64>)
    ensures
        final(out)@ == old(out)@ + enc_opt_u64(*o),
{
    match o {
        Option::None => {
            out.push(0u8);
            proof {
                assert(final(out)@ =~= old(out)@ + enc_opt_u64(Option::None));
            }
        }
        Option::Some(n) => {
            out.push(1u8);
            push_u64(out, *n);
            proof {
                assert(final(out)@ =~= old(out)@ + enc_opt_u64(Option::Some(*n)));
            }
        }
    }
}

/// Append a presence-tagged optional timestamp.
pub fn push_opt_i64(out: &mut Vec<u8>, o: &Option<i64>)
    ensures
        final(out)@ == old(out)@ + enc_opt_i64(*o),
{
    match o {
        Option::None => {
            out.push(0u8);
            proof {
                assert(final(out)@ =~= old(out)@ + enc_opt_i64(Option::None));
            }
        }
        Option::Some(n) => {
            out.push(1u8);
            push_i64(out, *n);
            proof {
                assert(final(out)@ =~= old(out)@ + enc_opt_i64(Option::Some(*n)));
            }
        }
    }
}

/// Append a presence-tagged optional 128-bit id.
pub fn push_opt_u128(out: &mut Vec<u8>, o: &Option<u128>)
    ensures
        final(out)@ == old(out)@ + enc_opt_u128(*o),
{
    match o {
        Option::None => {
            out.push(0u8);
            proof {
                assert(final(out)@ =~= old(out)@ + enc_opt_u128(Option::None));
            }
        }
        Option::Some(n) => {
            out.push(1u8);
            push_u128(out, *n);
            proof {
                assert(final(out)@ =~= old(out)@ + enc_opt_u128(Option::Some(*n)));
            }
        }
    }
}

/// Append a length-prefixed string.
pub fn push_str(out: &mut Vec<u8>, s: &str)
    ensures
        final(out)@ == old(out)@ + bytes_of_str(s.spec_bytes()),
{
    let bytes = s.as_bytes_vec();
    push_u64(out, bytes.len() as u64);
    let mut i: usize = 0;
    proof {
        assert(out@ + bytes@.subrange(0, 0) =~= out@);
    }
    while i < bytes.len()
        invariant
            i <= bytes@.len(),
            out@ == old(out)@ + bytes_of_u64(bytes@.len() as u64) + bytes@.subrange(0, i as int),
        decreases bytes@.len() - i,
    {
        out.push(bytes[i]);
        proof {
            assert(bytes@.subrange(0, i + 1) =~= bytes@.subrange(0, i as int) + seq![bytes@[i as int]]);
            assert(out@ =~= old(out)@ + bytes_of_u64(bytes@.len() as u64) + bytes@.subrange(0, i + 1));
        }
        i = i + 1;
    }
    proof {
        assert(bytes@.subrange(0, bytes@.len() as int) =~= bytes@);
        assert(out@ =~= old(out)@ + bytes_of_str(s.spec_bytes()));
    }
}

} // verus!
