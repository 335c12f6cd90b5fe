//! Addresses and big-endian integers read out of raw bytes.
use vstd::prelude::*;

verus! {

/// An IP address, held as its numeric value.
#[derive(PartialEq, Eq, Structural, Clone, Copy, Debug, Hash)]
pub enum IpAddr {
    /// An IPv4 address: the four octets read big-endian.
    V4(u32),
    /// An IPv6 address: the sixteen octets read big-endian.
    V6(u128),
}

/// `256` raised to `n`.
pub open spec fn pow256(n: nat) -> nat
    decreases n,
{
    if n == 0 {
        1
    } else {
        256 * pow256((n - 1) as nat)
    }
}

/// The `n` bytes of `b` from `start` on, read as a big-endian number.
pub open spec fn be_bytes(b: Seq<u8>, start: int, n: nat) -> nat
    decreases n,
{
    if n == 0 {
        0
    } else {
        be_bytes(b, start, (n - 1) as nat) * 256 + b[start + n - 1] as nat
    }
}

/// `n` bytes read big-endian are less than `256` to the `n`.
pub proof fn lemma_be_bytes_bound(b: Seq<u8>, start: int, n: nat)
    ensures
        be_bytes(b, start, n) < pow256(n),
    decreases n,
{
    if n > 0 {
        lemma_be_bytes_bound(b, start, (n - 1) as nat);
        let prev = be_bytes(b, start, (n - 1) as nat);
        let p = pow256((n - 1) as nat);
        let last = b[start + n - 1] as nat;
        assert(prev * 256 + last < p * 256) by (nonlinear_arith)
            requires
                prev < p,
                last < 256,
        ;
    }
}

/// Reads `n` bytes of `b` from `start` on as a big-endian number.
pub fn read_be(b: &[u8], start: usize, n: usize) -> (r: u128)
    requires
        n <= 16,
        start + n <= b@.len(),
    ensures
        r as nat == be_bytes(b@, start as int, n as nat),
{
    let mut acc: u128 = 0;
    let mut k: usize = 0;
    let len = b.len();
    while k < n
        invariant
            len == b@.len(),
            k <= n <= 16,
            start + n <= b@.len(),
            acc as nat == be_bytes(b@, start as int, k as nat),
        decreases n - k,
    {
        proof {
            lemma_be_bytes_bound(b@, start as int, (k + 1) as nat);
            reveal_with_fuel(pow256, 17);
            assert(pow256(16) == 0x1_0000_0000_0000_0000_0000_0000_0000_0000nat);
            lemma_pow256_mono((k + 1) as nat, 16);
        }
        acc = acc * 256 + b[start + k] as u128;
        k = k + 1;
    }
    acc
}

/// Powers of `256` grow with the exponent.
pub proof fn lemma_pow256_mono(a: nat, b: nat)
    requires
        a <= b,
    ensures
        pow256(a) <= pow256(b),
    decreases b,
{
    if a < b {
        lemma_pow256_mono(a, (b - 1) as nat);
    }
}

} // verus!
