//! PKCS#1 v1.5 block type 01 padding, as found in data that is to be signed
//! with the private part of an RSA key pair.
use vstd::prelude::*;
use crate::errors::{SC_ERROR_INTERNAL, SC_ERROR_WRONG_PADDING};

verus! {

/// `p` is the index of the zero byte that ends a valid block type 01 padding of `s`:
/// `s` starts with `00 01`, followed by at least eight `FF` bytes up to index `p`,
/// where the separator byte `00` stands.
pub open spec fn is_01_padding_end(s: Seq<u8>, p: int) -> bool {
    &&& 10 <= p < s.len()
    &&& s[0] == 0x00
    &&& s[1] == 0x01
    &&& forall|i: int| 2 <= i < p ==> #[trigger] s[i] == 0xFF
    &&& s[p] == 0x00
}

/// The result of stripping block type 01 padding from `s`: the bytes after the
/// separator, an internal error for input shorter than 11 bytes, and a padding
/// error for every other input.
pub open spec fn spec_pkcs1_strip_01_padding(s: Seq<u8>) -> Result<Seq<u8>, i32> {
    if s.len() < 11 {
        Err(SC_ERROR_INTERNAL)
    } else if exists|p: int| is_01_padding_end(s, p) {
        let p = choose|p: int| is_01_padding_end(s, p);
        Ok(s.subrange(p + 1, s.len() as int))
    } else {
        Err(SC_ERROR_WRONG_PADDING)
    }
}

/// The separator index of a block type 01 padding is unique.
pub proof fn lemma_01_padding_end_unique(s: Seq<u8>, p: int, q: int)
    requires
        is_01_padding_end(s, p),
        is_01_padding_end(s, q),
    ensures
        p == q,
{
    if p < q {
        assert(s[p] == 0xFF);
    } else if q < p {
        assert(s[q] == 0xFF);
    }
}

/// Strips PKCS#1-v1.5 padding (block type 0x01) from data meant to be signed and
/// returns a view of what follows it, which is the DigestInfo.
/// Input shorter than 11 bytes gives `SC_ERROR_INTERNAL`; input that does not start
/// with `00 01`, has fewer than eight `FF` bytes, or whose `FF` run does not end in a
/// `00` byte (also where it runs to the end of the input) gives `SC_ERROR_WRONG_PADDING`.
pub fn me_pkcs1_strip_01_padding(in_dat: &[u8]) -> (r: Result<&[u8], i32>)
    ensures
        match r {
            Ok(o) => spec_pkcs1_strip_01_padding(in_dat@) == Ok::<Seq<u8>, i32>(o@),
            Err(e) => spec_pkcs1_strip_01_padding(in_dat@) == Err::<Seq<u8>, i32>(e),
        },
{
    let in_len = in_dat.len();
    let mut len = in_dat.len();

    if in_len < 11 {
        return Err(SC_ERROR_INTERNAL);
    }
    /* skip leading zero byte */
    if in_dat[0] != 0x00 || in_dat[1] != 0x01 {
        proof {
            assert forall|p: int| !is_01_padding_end(in_dat@, p) by {}
        }
        return Err(SC_ERROR_WRONG_PADDING);
    }
    len -= 2;

    /* the scan stops at the end of the input */
    while len != 0 && in_dat[in_len - len] == 0xff
        invariant
            in_len == in_dat@.len(),
            in_len >= 11,
            in_dat@[0] == 0x00,
            in_dat@[1] == 0x01,
            0 <= len <= in_len - 2,
            forall|i: int| 2 <= i < in_len - len ==> #[trigger] in_dat@[i] == 0xFF,
        decreases len,
    {
        len -= 1;
    }
    let ghost p: int = in_len - len;

    if len == 0 || in_len - len < 10 || in_dat[in_len - len] != 0x00 {
        proof {
            assert forall|q: int| !is_01_padding_end(in_dat@, q) by {
                if is_01_padding_end(in_dat@, q) {
                    if q < p {
                        assert(in_dat@[q] == 0xFF);
                    } else if q > p {
                        assert(in_dat@[p] == 0xFF);
                    }
                }
            }
        }
        return Err(SC_ERROR_WRONG_PADDING);
    }
    assert(in_dat@[p] != 0xFF);
    len -= 1;

    proof {
        assert(is_01_padding_end(in_dat@, p));
        let c = choose|q: int| is_01_padding_end(in_dat@, q);
        lemma_01_padding_end_unique(in_dat@, p, c);
    }
    Ok(&in_dat[in_len - len..in_len])
}

/// Law: block type 01 padding of a digest, with `00 01`, at least eight `FF` bytes
/// and a `00` separator, is stripped to exactly that digest.
pub proof fn lemma_strip_01_padding_of_padded(digest: Seq<u8>, n_ff: nat)
    requires
        n_ff >= 8,
    ensures
        spec_pkcs1_strip_01_padding(
            seq![0x00u8, 0x01u8] + Seq::new(n_ff, |i: int| 0xFFu8) + seq![0x00u8] + digest,
        ) == Ok::<Seq<u8>, i32>(digest),
{
    let s = seq![0x00u8, 0x01u8] + Seq::new(n_ff, |i: int| 0xFFu8) + seq![0x00u8] + digest;
    let p: int = n_ff as int + 2;
    assert(s[p] == 0x00);
    assert forall|i: int| 2 <= i < p implies #[trigger] s[i] == 0xFF by {
        assert(s[i] == Seq::new(n_ff, |i: int| 0xFFu8)[i - 2]);
    }
    assert(is_01_padding_end(s, p));
    let c = choose|q: int| is_01_padding_end(s, q);
    lemma_01_padding_end_unique(s, p, c);
    assert(s.subrange(p + 1, s.len() as int) =~= digest);
}

} // verus!
