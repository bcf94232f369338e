//! Token URI synthesis: decimal rendering of a token identifier appended to a
//! base URI, with a `.json` suffix.

use vstd::prelude::*;

verus! {

/// The decimal digits of `n`, most significant first, as ASCII bytes.
pub open spec fn dec_str(n: nat) -> Seq<u8>
    decreases n,
{
    if n < 10 {
        seq![(48 + n) as u8]
    } else {
        dec_str(n / 10) + seq![(48 + n % 10) as u8]
    }
}

/// The ASCII bytes of `".json"`.
pub open spec fn json_suffix() -> Seq<u8> {
    seq![46u8, 106u8, 115u8, 111u8, 110u8]
}

/// The URI synthesized for a token without a per-token override: the base
/// URI, the token identifier in decimal, then `".json"`.
pub open spec fn synthesized_uri(base: Seq<u8>, token_id: u64) -> Seq<u8> {
    base + dec_str(token_id as nat) + json_suffix()
}

/// Appends the decimal digits of `n` to `out`.
fn push_decimal(out: &mut Vec<u8>, n: u64)
    ensures
        final(out)@ == old(out)@ + dec_str(n as nat),
    decreases n,
{
    if n < 10 {
        out.push(48 + n as u8);
        proof {
            assert(final(out)@ =~= old(out)@ + dec_str(n as nat));
        }
    } else {
        push_decimal(out, n / 10);
        out.push(48 + (n % 10) as u8);
        proof {
            assert(final(out)@ =~= old(out)@ + dec_str(n as nat));
        }
    }
}

/// Builds the synthesized URI for `token_id` under `base`.
pub fn synthesize_uri(base: &Vec<u8>, token_id: u64) -> (r: Vec<u8>)
    ensures
        r@ == synthesized_uri(base@, token_id),
{
    let mut out: Vec<u8> = Vec::new();
    let mut i: usize = 0;
    while i < base.len()
        invariant
            0 <= i <= base.len(),
            out@ == base@.subrange(0, i as int),
        decreases base.len() - i,
    {
        out.push(base[i]);
        i = i + 1;
        proof {
            assert(out@ =~= base@.subrange(0, i as int));
        }
    }
    proof {
        assert(out@ =~= base@);
    }
    push_decimal(&mut out, token_id);
    out.push(46);
    out.push(106);
    out.push(115);
    out.push(111);
    out.push(110);
    proof {
        assert(out@ =~= synthesized_uri(base@, token_id));
    }
    out
}

} // verus!
