use vstd::prelude::*;
use vstd::arithmetic::div_mod::{
    lemma_add_mod_noop, lemma_sub_mod_noop, lemma_mod_multiples_vanish, lemma_mul_mod_noop_left,
    lemma_small_mod,
};

verus! {

/// The modulus of both checksum halves.
pub open spec fn half_modulus() -> int {
    65536
}

/// A byte read as the signed value rsync sums (`i8` semantics).
pub open spec fn signed_value(byte: u8) -> int {
    if byte < 128 {
        byte as int
    } else {
        byte as int - 256
    }
}

/// Sum of the signed byte values of a block.
pub open spec fn weak_sum(block: Seq<u8>) -> int
    decreases block.len(),
{
    if block.len() == 0 {
        0
    } else {
        weak_sum(block.drop_last()) + signed_value(block.last())
    }
}

/// Sum of all prefix sums of a block (each byte weighted by its distance from the end).
pub open spec fn weighted_sum(block: Seq<u8>) -> int
    decreases block.len(),
{
    if block.len() == 0 {
        0
    } else {
        weighted_sum(block.drop_last()) + weak_sum(block)
    }
}

/// The checksum state `(a, b, len)` of a block.
pub open spec fn block_state(block: Seq<u8>) -> (int, int, nat) {
    (weak_sum(block) % 65536, weighted_sum(block) % 65536, block.len())
}

/// The state after sliding a window of state `state` by one byte.
pub open spec fn rolled_state(state: (int, int, nat), outgoing: u8, incoming: u8) -> (int, int, nat) {
    let a = (state.0 - signed_value(outgoing) + signed_value(incoming)) % 65536;
    let b = (state.1 - state.2 * signed_value(outgoing) + a) % 65536;
    (a, b, state.2)
}

/// The 32-bit digest of a checksum state: `b` in the high half, `a` in the low half.
pub open spec fn state_digest(state: (int, int, nat)) -> int {
    state.1 * 65536 + state.0
}

/// The rsync weak rolling checksum of a block.
pub open spec fn spec_rolling_checksum(block: Seq<u8>) -> u32 {
    state_digest(block_state(block)) as u32
}

proof fn lemma_weak_sum_concat(s1: Seq<u8>, s2: Seq<u8>)
    ensures
        weak_sum(s1 + s2) == weak_sum(s1) + weak_sum(s2),
    decreases s2.len(),
{
    if s2.len() > 0 {
        assert((s1 + s2).drop_last() =~= s1 + s2.drop_last());
        lemma_weak_sum_concat(s1, s2.drop_last());
    } else {
        assert(s1 + s2 =~= s1);
    }
}

proof fn lemma_weighted_sum_concat(s1: Seq<u8>, s2: Seq<u8>)
    ensures
        weighted_sum(s1 + s2) == weighted_sum(s1) + s2.len() * weak_sum(s1) + weighted_sum(s2),
    decreases s2.len(),
{
    if s2.len() > 0 {
        let t = s2.drop_last();
        assert((s1 + s2).drop_last() =~= s1 + t);
        lemma_weighted_sum_concat(s1, t);
        lemma_weak_sum_concat(s1, s2);
        assert((t.len() + 1) * weak_sum(s1) == t.len() * weak_sum(s1) + weak_sum(s1))
            by (nonlinear_arith);
    } else {
        assert(s1 + s2 =~= s1);
    }
}

/// Rolling a window's checksum by one byte gives the checksum computed from scratch
/// over the shifted window.
pub proof fn lemma_roll_matches_recomputed_window(window: Seq<u8>, incoming: u8)
    requires
        window.len() > 0,
    ensures
        rolled_state(block_state(window), window[0], incoming)
            == block_state(window.drop_first().push(incoming)),
{
    let head = seq![window[0]];
    let t = window.drop_first();
    let shifted = t.push(incoming);
    let tail = seq![incoming];
    assert(window =~= head + t);
    assert(shifted =~= t + tail);
    lemma_weak_sum_concat(head, t);
    lemma_weighted_sum_concat(head, t);
    lemma_weak_sum_concat(t, tail);
    lemma_weighted_sum_concat(t, tail);
    assert(head.drop_last() =~= Seq::<u8>::empty());
    assert(tail.drop_last() =~= Seq::<u8>::empty());
    reveal_with_fuel(weak_sum, 2);
    reveal_with_fuel(weighted_sum, 2);
    assert(weak_sum(head) == signed_value(window[0]));
    assert(weighted_sum(head) == signed_value(window[0]));
    assert(weak_sum(tail) == signed_value(incoming));
    assert(weighted_sum(tail) == signed_value(incoming));
    let n = window.len() as int;
    let sv = signed_value(window[0]);
    assert(weighted_sum(window) == n * sv + weighted_sum(t)) by {
        assert(t.len() * sv + sv == n * sv) by (nonlinear_arith)
            requires
                n == t.len() + 1;
    }
    let st = block_state(window);
    let a_new = (st.0 - sv + signed_value(incoming)) % 65536;
    lemma_sub_mod_noop(weak_sum(window), sv, 65536);
    lemma_add_mod_noop(weak_sum(window) - sv, signed_value(incoming), 65536);
    lemma_add_mod_noop(st.0 - sv, signed_value(incoming), 65536);
    assert((st.0 - sv) % 65536 == (weak_sum(window) - sv) % 65536) by {
        lemma_sub_mod_noop(weak_sum(window), sv, 65536);
        lemma_sub_mod_noop(st.0, sv, 65536);
        lemma_small_mod(st.0 as nat, 65536);
    }
    assert(a_new == weak_sum(shifted) % 65536);
    let base = weighted_sum(window) - n * sv;
    assert((st.1 - n * sv + a_new) % 65536 == (base + weak_sum(shifted)) % 65536) by {
        lemma_add_mod_noop(st.1 - n * sv, a_new, 65536);
        lemma_add_mod_noop(base, weak_sum(shifted), 65536);
        lemma_sub_mod_noop(st.1, n * sv, 65536);
        lemma_sub_mod_noop(weighted_sum(window), n * sv, 65536);
        lemma_small_mod(st.1 as nat, 65536);
        lemma_small_mod(a_new as nat, 65536);
        assert(st.1 % 65536 == weighted_sum(window) % 65536) by {
            lemma_small_mod(st.1 as nat, 65536);
        }
    }
}

/// The rsync weak (Adler-style) checksum of a window of bytes.
#[derive(Debug, Clone, Copy, PartialEq, Eq)]
pub struct RollingChecksum {
    a: u16,
    b: u16,
    len: usize,
}

impl View for RollingChecksum {
    type V = (int, int, nat);

    closed spec fn view(&self) -> (int, int, nat) {
        (self.a as int, self.b as int, self.len as nat)
    }
}

fn signed_byte(byte: u8) -> (r: i64)
    ensures
        r == signed_value(byte),
{
    if byte < 128 {
        byte as i64
    } else {
        byte as i64 - 256
    }
}

/// Reduces a value to its representative in `0..65536`.
fn mod_u16(value: i64) -> (r: u16)
    requires
        -16777216 <= value <= 16777216,
    ensures
        r as int == value % 65536,
{
    let shifted = (value + 16777216) as u64;
    let r = (shifted % 65536) as u16;
    proof {
        lemma_mod_multiples_vanish(256, value as int, 65536);
    }
    r
}

impl RollingChecksum {
    /// The checksum of a whole block.
    pub fn from_block(block: &[u8]) -> (r: RollingChecksum)
        ensures
            r@ == block_state(block@),
    {
        let mut a: i64 = 0;
        let mut b: i64 = 0;
        let mut i: usize = 0;
        while i < block.len()
            invariant
                i <= block.len(),
                0 <= a < 65536,
                0 <= b < 65536,
                a == weak_sum(block@.take(i as int)) % 65536,
                b == weighted_sum(block@.take(i as int)) % 65536,
            decreases block.len() - i,
        {
            let ghost prefix = block@.take(i as int);
            let ghost next = block@.take(i + 1);
            assert(next.drop_last() =~= prefix);
            let na = mod_u16(a + signed_byte(block[i]));
            proof {
                lemma_add_mod_noop(weak_sum(prefix), signed_value(block@[i as int]), 65536);
                lemma_small_mod((signed_value(block@[i as int]) + 256) as nat, 65536);
                lemma_add_mod_noop(weak_sum(prefix), signed_value(block@[i as int]) + 65536, 65536);
                assert(signed_value(block@[i as int]) % 65536 == (signed_value(block@[i as int]) + 65536) % 65536) by {
                    lemma_mod_multiples_vanish(1, signed_value(block@[i as int]), 65536);
                }
                assert(na == weak_sum(next) % 65536);
            }
            a = na as i64;
            let nb = mod_u16(b + a);
            proof {
                lemma_add_mod_noop(weighted_sum(prefix), weak_sum(next), 65536);
                assert((a % 65536) == a) by { lemma_small_mod(a as nat, 65536); }
                assert(nb == weighted_sum(next) % 65536);
            }
            b = nb as i64;
            i = i + 1;
        }
        assert(block@.take(block.len() as int) =~= block@);
        RollingChecksum { a: a as u16, b: b as u16, len: block.len() }
    }

    /// Slides the window one byte: `outgoing` leaves at the front, `incoming` enters at the back.
    pub fn roll(&mut self, outgoing: u8, incoming: u8)
        requires
            old(self)@.2 > 0,
        ensures
            final(self)@ == rolled_state(old(self)@, outgoing, incoming),
    {
        let outgoing_value = signed_byte(outgoing);
        let incoming_value = signed_byte(incoming);
        let a = mod_u16(self.a as i64 - outgoing_value + incoming_value);
        let len_mod = (self.len % 65536) as i64;
        assert(-8388608 <= len_mod * outgoing_value <= 8388608) by (nonlinear_arith)
            requires
                0 <= len_mod < 65536,
                -128 <= outgoing_value <= 127;
        let weighted = len_mod * outgoing_value;
        let b = mod_u16(self.b as i64 - weighted + a as i64);
        proof {
            let ghost s = old(self)@;
            let ghost na = (s.0 - signed_value(outgoing) + signed_value(incoming)) % 65536;
            assert(a == na);
            lemma_mul_mod_noop_left(self.len as int, signed_value(outgoing), 65536);
            assert(weighted % 65536 == (s.2 * signed_value(outgoing)) % 65536) by {
                lemma_mul_mod_noop_left(self.len as int, signed_value(outgoing), 65536);
            }
            lemma_sub_mod_noop(s.1 + na, weighted as int, 65536);
            lemma_sub_mod_noop(s.1 + na, s.2 * signed_value(outgoing), 65536);
            assert((s.1 - weighted + na) % 65536 == (s.1 - s.2 * signed_value(outgoing) + na) % 65536);
        }
        self.a = a;
        self.b = b;
    }

    /// The 32-bit digest: `b` in the high 16 bits, `a` in the low 16 bits.
    pub fn digest(self) -> (r: u32)
        ensures
            r as int == state_digest(self@),
    {
        let hi = self.b as u32;
        let lo = self.a as u32;
        let r = (hi << 16) | lo;
        assert(r == hi * 65536 + lo) by (bit_vector)
            requires
                hi < 65536,
                lo < 65536,
                r == (hi << 16) | lo;
        r
    }

    /// The window length.
    pub fn len(self) -> (r: usize)
        ensures
            r == self@.2,
    {
        self.len
    }

    /// Whether the window is empty.
    pub fn is_empty(self) -> (r: bool)
        ensures
            r == (self@.2 == 0),
    {
        self.len == 0
    }
}

/// The weak rolling checksum of a block.
pub fn rolling_checksum(block: &[u8]) -> (r: u32)
    ensures
        r == spec_rolling_checksum(block@),
{
    let r = RollingChecksum::from_block(block).digest();
    r
}

} // verus!
