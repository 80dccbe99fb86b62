//! Decompression of the protected payload.  The container compresses the
//! frame stream with a byte-oriented run-length code: a sequence of pairs
//! `(count, value)` where `count >= 1`, each standing for `count` copies of
//! `value`.  A trailing odd byte or a zero count is a corrupt payload.

use vstd::prelude::*;

verus! {

/// The plaintext that the run-length code `s` stands for, or `None` when the
/// code is corrupt (odd length, or a pair with count zero).
pub open spec fn rle_decode(s: Seq<u8>) -> Option<Seq<u8>>
    decreases s.len(),
{
    if s.len() == 0 {
        Some(Seq::empty())
    } else if s.len() == 1 {
        None
    } else if s[0] == 0 {
        None
    } else {
        match rle_decode(s.skip(2)) {
            Option::None => None,
            Option::Some(rest) => Some(Seq::new(s[0] as nat, |k: int| s[1]) + rest),
        }
    }
}

/// Decompresses a run-length coded payload; `None` reports a corrupt payload.
pub fn rle_decompress(s: &[u8]) -> (r: Option<Vec<u8>>)
    ensures
        match rle_decode(s@) {
            Option::Some(d) => r matches Some(v) && v@ == d,
            Option::None => r is None,
        },
{
    let mut out: Vec<u8> = Vec::new();
    let mut i: usize = 0;
    proof {
        assert(s@.skip(0) =~= s@);
        match rle_decode(s@) {
            Option::Some(d) => {
                assert(Seq::<u8>::empty() + d =~= d);
            },
            Option::None => {},
        }
    }
    while s.len() - i >= 2
        invariant
            i <= s@.len(),
            match rle_decode(s@.skip(i as int)) {
                Option::Some(d) => rle_decode(s@) matches Some(whole) && whole == out@ + d,
                Option::None => rle_decode(s@) is None,
            },
        decreases s@.len() - i,
    {
        let count = s[i];
        let value = s[i + 1];
        proof {
            lemma_rle_step(s@, i as int);
        }
        if count == 0 {
            return None;
        }
        let ghost run_start = out@;
        let mut k: usize = 0;
        while k < count as usize
            invariant
                k <= count as nat,
                out@ == run_start + Seq::new(k as nat, |j: int| value),
            decreases count as int - k,
        {
            out.push(value);
            proof {
                assert(out@ =~= run_start + Seq::new((k + 1) as nat, |j: int| value));
            }
            k = k + 1;
        }
        proof {
            match rle_decode(s@.skip(i as int + 2)) {
                Option::Some(rest) => {
                    assert((run_start + Seq::new(count as nat, |j: int| value)) + rest =~= run_start
                        + (Seq::new(count as nat, |j: int| value) + rest));
                },
                Option::None => {},
            }
        }
        i = i + 2;
    }
    if i < s.len() {
        proof {
            assert(s@.skip(i as int).len() == 1);
        }
        return None;
    }
    proof {
        assert(s@.skip(i as int) =~= Seq::<u8>::empty());
        assert(out@ + Seq::<u8>::empty() =~= out@);
    }
    Some(out)
}

/// Unfolds `rle_decode` one pair at offset `i`: for an offset with at least
/// two bytes left, the decode of the tail at `i` is the run `(s[i], s[i+1])`
/// followed by the decode of the tail at `i + 2`.
proof fn lemma_rle_step(s: Seq<u8>, i: int)
    requires
        0 <= i,
        i + 2 <= s.len(),
    ensures
        s[i] == 0 ==> rle_decode(s.skip(i)) is None,
        s[i] != 0 ==> rle_decode(s.skip(i)) == (match rle_decode(s.skip(i + 2)) {
            Option::None => Option::<Seq<u8>>::None,
            Option::Some(rest) => Option::Some(Seq::new(s[i] as nat, |k: int| s[i + 1]) + rest),
        }),
{
    let t = s.skip(i);
    assert(t.len() >= 2);
    assert(t[0] == s[i]);
    assert(t[1] == s[i + 1]);
    assert(t.skip(2) =~= s.skip(i + 2));
    if s[i] != 0 {
        match rle_decode(s.skip(i + 2)) {
            Option::Some(rest) => {
                assert(Seq::new(t[0] as nat, |k: int| t[1]) =~= Seq::new(
                    s[i] as nat,
                    |k: int| s[i + 1],
                ));
            },
            Option::None => {},
        }
    }
}

} // verus!
