use vstd::prelude::*;

verus! {

/// The number of distinct 96-bit nonces.
pub open spec fn nonce_space() -> nat {
    0x1_0000_0000_0000_0000_0000_0000
}

/// The `n` low bytes of `c`, least significant first.
pub open spec fn le_bytes(c: nat, n: nat) -> Seq<u8>
    decreases n,
{
    if n == 0 {
        Seq::empty()
    } else {
        seq![(c % 256) as u8] + le_bytes(c / 256, (n - 1) as nat)
    }
}

/// The 12-byte little-endian nonce for counter value `c`.
pub open spec fn nonce_bytes(c: nat) -> Seq<u8> {
    le_bytes(c, 12)
}

pub proof fn lemma_le_bytes_len(c: nat, n: nat)
    ensures
        le_bytes(c, n).len() == n,
    decreases n,
{
    if n > 0 {
        lemma_le_bytes_len(c / 256, (n - 1) as nat);
    }
}

/// The number of values `n` bytes can hold.
pub open spec fn byte_space(n: nat) -> nat
    decreases n,
{
    if n == 0 {
        1
    } else {
        256 * byte_space((n - 1) as nat)
    }
}

proof fn lemma_le_bytes_injective(a: nat, b: nat, n: nat)
    requires
        a < byte_space(n),
        b < byte_space(n),
        le_bytes(a, n) == le_bytes(b, n),
    ensures
        a == b,
    decreases n,
{
    if n > 0 {
        let m = (n - 1) as nat;
        assert(le_bytes(a, n)[0] == (a % 256) as u8);
        assert(le_bytes(b, n)[0] == (b % 256) as u8);
        assert(le_bytes(a, n).skip(1) =~= le_bytes(a / 256, m));
        assert(le_bytes(b, n).skip(1) =~= le_bytes(b / 256, m));
        let s = byte_space(m);
        assert(a / 256 < s) by (nonlinear_arith)
            requires
                a < 256 * s,
        ;
        assert(b / 256 < s) by (nonlinear_arith)
            requires
                b < 256 * s,
        ;
        lemma_le_bytes_injective(a / 256, b / 256, m);
    }
}

/// Distinct counter values below 2^96 give distinct nonces: a framer whose
/// counter only moves forward never uses one nonce twice.
pub proof fn lemma_nonce_unique(a: nat, b: nat)
    requires
        a < nonce_space(),
        b < nonce_space(),
        a != b,
    ensures
        nonce_bytes(a) != nonce_bytes(b),
{
    reveal_with_fuel(byte_space, 13);
    assert(byte_space(12) == nonce_space());
    if nonce_bytes(a) == nonce_bytes(b) {
        lemma_le_bytes_injective(a, b, 12);
    }
}

/// A 96-bit little-endian counter that hands out one AEAD nonce per use,
/// starting at zero.
pub struct Nonce {
    counter: u128,
}

impl Nonce {
    /// The number of nonces handed out so far.
    pub closed spec fn value(&self) -> nat {
        self.counter as nat
    }

    pub fn new() -> (r: Nonce)
        ensures
            r.value() == 0,
    {
        Nonce { counter: 0 }
    }

    /// Whether `k` more nonces can still be handed out.
    pub fn can_take(&self, k: u128) -> (r: bool)
        ensures
            r == (self.value() + k <= nonce_space()),
    {
        self.counter <= 0x1_0000_0000_0000_0000_0000_0000
            && k <= 0x1_0000_0000_0000_0000_0000_0000 - self.counter
    }

    /// The nonce `ahead` places after the current one, without using it.
    pub fn peek(&self, ahead: u8) -> (r: [u8; 12])
        requires
            self.value() + ahead < nonce_space(),
        ensures
            r@ == nonce_bytes(self.value() + ahead as nat),
    {
        encode_nonce(self.counter + ahead as u128)
    }

    /// Marks `by` nonces as used.
    pub fn advance(&mut self, by: u8)
        requires
            old(self).value() + by <= nonce_space(),
        ensures
            final(self).value() == old(self).value() + by,
    {
        self.counter = self.counter + by as u128;
    }

    /// Returns the current nonce and moves the counter on by one.
    pub fn get_and_increment(&mut self) -> (r: [u8; 12])
        requires
            old(self).value() < nonce_space(),
        ensures
            r@ == nonce_bytes(old(self).value()),
            final(self).value() == old(self).value() + 1,
    {
        let r = self.peek(0);
        self.advance(1);
        r
    }
}

/// The 12 low bytes of `c`, least significant first.
pub fn encode_nonce(c: u128) -> (r: [u8; 12])
    ensures
        r@ == nonce_bytes(c as nat),
{
    let mut out = [0u8; 12];
    let mut v: u128 = c;
    let mut i: usize = 0;
    proof {
        lemma_le_bytes_len(v as nat, 12);
    }
    while i < 12
        invariant
            0 <= i <= 12,
            out@.len() == 12,
            out@.subrange(0, i as int) + le_bytes(v as nat, (12 - i) as nat) == le_bytes(c as nat, 12),
        decreases 12 - i,
    {
        let b = (v % 256) as u8;
        let ghost before = out@;
        let ghost k = (12 - i) as nat;
        out[i] = b;
        assert(le_bytes(v as nat, k) == seq![b] + le_bytes((v / 256) as nat, (k - 1) as nat));
        assert(out@.subrange(0, i + 1) =~= before.subrange(0, i as int).push(b));
        assert(out@.subrange(0, i + 1) + le_bytes((v / 256) as nat, (k - 1) as nat)
            =~= before.subrange(0, i as int) + le_bytes(v as nat, k));
        v = v / 256;
        i = i + 1;
    }
    assert(out@.subrange(0, 12) =~= out@);
    assert(le_bytes(v as nat, 0) =~= Seq::<u8>::empty());
    assert(out@ + Seq::<u8>::empty() =~= out@);
    out
}

} // verus!
