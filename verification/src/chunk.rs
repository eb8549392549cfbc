//! Attachments travel in chunks of a fixed size, the last one shorter.

use vstd::prelude::*;

verus! {

/// Number of bytes of a full chunk.
pub const CHUNK_LEN: usize = 8000;

/// Length of the next chunk when `remaining` bytes are still to go.
pub open spec fn chunk_len(remaining: nat) -> nat {
    if remaining < CHUNK_LEN {
        remaining
    } else {
        CHUNK_LEN as nat
    }
}

/// Bytes that are through after `k` chunks of an attachment of `len` bytes.
pub open spec fn copied_after(len: nat, k: nat) -> nat {
    if k * CHUNK_LEN < len {
        (k * CHUNK_LEN) as nat
    } else {
        len
    }
}

/// Number of chunks that an attachment of `len` bytes takes.
pub open spec fn chunk_count(len: nat) -> nat {
    ((len + CHUNK_LEN - 1) / (CHUNK_LEN as int)) as nat
}

/// Each chunk starts where the one before it ended and is as long as the
/// chunk size allows: the next chunk after `k` chunks takes the copy to
/// where it is after `k + 1`.
pub proof fn lemma_chunk_follows(len: nat, k: nat)
    ensures
        copied_after(len, k) <= len,
        copied_after(len, k) + chunk_len((len - copied_after(len, k)) as nat) == copied_after(
            len,
            k + 1,
        ),
        chunk_len((len - copied_after(len, k)) as nat) <= CHUNK_LEN,
        copied_after(len, k) < len ==> chunk_len((len - copied_after(len, k)) as nat) > 0,
{
    assert((k + 1) * CHUNK_LEN == k * CHUNK_LEN + CHUNK_LEN) by (nonlinear_arith);
}

/// An attachment is through after `chunk_count` chunks and not before, and
/// every chunk but the last is a full one.
pub proof fn lemma_chunk_count(len: nat, k: nat)
    ensures
        copied_after(len, k) == len <==> k >= chunk_count(len),
        k + 1 < chunk_count(len) ==> chunk_len((len - copied_after(len, k)) as nat) == CHUNK_LEN,
{
    let n = chunk_count(len);
    assert(n * CHUNK_LEN >= len && (n == 0 || (n - 1) * CHUNK_LEN < len)) by {
        let d = CHUNK_LEN as int;
        let a = len + CHUNK_LEN - 1;
        assert(a == d * (a / d) + a % d && 0 <= a % d < d) by (nonlinear_arith)
            requires
                d > 0,
        ;
        assert(n * CHUNK_LEN == d * (a / d)) by (nonlinear_arith)
            requires
                n == a / d,
                d == CHUNK_LEN,
        ;
        assert((n - 1) * CHUNK_LEN == n * CHUNK_LEN - CHUNK_LEN) by (nonlinear_arith);
    }
    if k >= n {
        assert(k * CHUNK_LEN >= n * CHUNK_LEN) by (nonlinear_arith)
            requires
                k >= n,
        ;
    } else {
        assert(k * CHUNK_LEN <= (n - 1) * CHUNK_LEN) by (nonlinear_arith)
            requires
                k <= n - 1,
        ;
        if k + 1 < n {
            assert((k + 1) * CHUNK_LEN <= (n - 1) * CHUNK_LEN) by (nonlinear_arith)
                requires
                    k + 1 <= n - 1,
            ;
            assert((k + 1) * CHUNK_LEN == k * CHUNK_LEN + CHUNK_LEN) by (nonlinear_arith);
        }
    }
}

/// Length of the next chunk when `remaining` bytes are still to go.
pub fn next_chunk(remaining: usize) -> (n: usize)
    ensures
        n == chunk_len(remaining as nat),
{
    if remaining < CHUNK_LEN {
        remaining
    } else {
        CHUNK_LEN
    }
}

} // verus!
