//! Bit-packed "has-value" flags, appended one at a time.
use vstd::prelude::*;

verus! {

/// Whether bit `k` (counted from the least significant one) of `b` is set.
pub open spec fn has_bit(b: u8, k: u8) -> bool {
    b & (1u8 << k) != 0
}

/// Flag `i` of a packed bitmap: bit `i % 8` of byte `i / 8`.
pub open spec fn packed_flag(bytes: Seq<u8>, i: int) -> bool {
    has_bit(bytes[i / 8], (i % 8) as u8)
}

/// Number of bytes needed to hold `n` flags.
pub open spec fn bytes_for(n: nat) -> nat {
    (n + 7) / 8
}

proof fn lemma_bit_of_zero(k: u8)
    requires
        k < 8,
    ensures
        !has_bit(0u8, k),
{
    assert(0u8 & (1u8 << k) == 0) by (bit_vector)
        requires
            k < 8,
    ;
}

proof fn lemma_bit_of_set(b: u8, k: u8, j: u8)
    requires
        k < 8,
        j < 8,
    ensures
        has_bit(b | (1u8 << k), j) == (j == k || has_bit(b, j)),
{
    assert((b | (1u8 << k)) & (1u8 << j) != 0 <==> (j == k || b & (1u8 << j) != 0)) by (bit_vector)
        requires
            k < 8,
            j < 8,
    ;
}

/// A growable sequence of flags, one bit each; a set bit means that a value is present.
pub struct NullsBitmap {
    packed_bits: Vec<u8>,
    num_values: usize,
}

impl View for NullsBitmap {
    type V = Seq<bool>;

    closed spec fn view(&self) -> Seq<bool> {
        Seq::new(self.num_values as nat, |i: int| packed_flag(self.packed_bits@, i))
    }
}

impl NullsBitmap {
    /// One byte per started group of eight flags, and no stray bit past the last flag.
    pub closed spec fn wf(&self) -> bool {
        &&& self.packed_bits@.len() == bytes_for(self.num_values as nat)
        &&& forall|i: int|
            self.num_values <= i < 8 * self.packed_bits@.len() ==> !#[trigger] packed_flag(
                self.packed_bits@,
                i,
            )
    }

    pub fn new() -> (r: NullsBitmap)
        ensures
            r.wf(),
            r@ == Seq::<bool>::empty(),
    {
        let r = NullsBitmap { packed_bits: Vec::new(), num_values: 0 };
        assert(r@ =~= Seq::<bool>::empty());
        r
    }

    /// Forgets every flag.
    pub fn reset(&mut self)
        ensures
            final(self).wf(),
            final(self)@ == Seq::<bool>::empty(),
    {
        self.packed_bits.truncate(0);
        self.num_values = 0;
        assert(self@ =~= Seq::<bool>::empty());
        assert(self.packed_bits@ =~= Seq::<u8>::empty());
    }

    pub fn append_null(&mut self)
        requires
            old(self).wf(),
            old(self)@.len() < usize::MAX,
        ensures
            final(self).wf(),
            final(self)@ == old(self)@.push(false),
    {
        self.append(false);
    }

    pub fn append_not_null(&mut self)
        requires
            old(self).wf(),
            old(self)@.len() < usize::MAX,
        ensures
            final(self).wf(),
            final(self)@ == old(self)@.push(true),
    {
        self.append(true);
    }

    /// Appends one flag; a new zeroed byte is started at each multiple of eight flags.
    pub fn append(&mut self, has_value: bool)
        requires
            old(self).wf(),
            old(self)@.len() < usize::MAX,
        ensures
            final(self).wf(),
            final(self)@ == old(self)@.push(has_value),
    {
        let ghost old_bits = self.packed_bits@;
        let n = self.num_values;
        let bit_offset: u8 = (n % 8) as u8;
        if bit_offset == 0 {
            self.packed_bits.push(0);
            proof {
                assert forall|i: int| 0 <= i < 8 * self.packed_bits@.len() implies #[trigger] packed_flag(
                    self.packed_bits@,
                    i,
                ) == (i < 8 * old_bits.len() && packed_flag(old_bits, i)) by {
                    if i < 8 * old_bits.len() {
                        assert(self.packed_bits@[i / 8] == old_bits[i / 8]);
                    } else {
                        assert(i / 8 == old_bits.len());
                        lemma_bit_of_zero((i % 8) as u8);
                    }
                }
            }
        }
        let ghost mid_bits = self.packed_bits@;
        assert(mid_bits.len() == n / 8 + 1);
        if has_value {
            let last: usize = self.packed_bits.len() - 1;
            let byte = self.packed_bits[last];
            self.packed_bits.set(last, byte | (1u8 << bit_offset));
            proof {
                assert forall|i: int| 0 <= i < 8 * self.packed_bits@.len() implies #[trigger] packed_flag(
                    self.packed_bits@,
                    i,
                ) == (i == n || packed_flag(mid_bits, i)) by {
                    if i / 8 == last as int {
                        lemma_bit_of_set(byte, bit_offset, (i % 8) as u8);
                    } else {
                        assert(self.packed_bits@[i / 8] == mid_bits[i / 8]);
                    }
                }
            }
        }
        self.num_values = n + 1;
        assert(self@ =~= old(self)@.push(has_value));
    }

    /// The packed flags: flag `i` is bit `i % 8` of byte `i / 8`.
    pub fn get_raw_bits(&self) -> (r: &[u8])
        requires
            self.wf(),
        ensures
            r@.len() == bytes_for(self@.len()),
            forall|i: int| 0 <= i < self@.len() ==> packed_flag(r@, i) == #[trigger] self@[i],
            forall|i: int| self@.len() <= i < 8 * r@.len() ==> !#[trigger] packed_flag(r@, i),
    {
        self.packed_bits.as_slice()
    }

    /// Number of flags appended since creation or the last reset.
    pub fn len(&self) -> (r: usize)
        ensures
            r == self@.len(),
    {
        self.num_values
    }
}

} // verus!
