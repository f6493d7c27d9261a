//! Column encodings: how a buffer of values becomes a sequence of bytes.
use vstd::prelude::*;

verus! {

/// The `width` low-order bytes of `v`, least significant first.
pub open spec fn le_bytes(v: nat, width: nat) -> Seq<u8>
    decreases width,
{
    if width == 0 {
        Seq::empty()
    } else {
        seq![(v % 256) as u8] + le_bytes(v / 256, (width - 1) as nat)
    }
}

/// The two's-complement reading of `v` as an unsigned number below `modulus`.
pub open spec fn twos_complement(v: int, modulus: int) -> nat {
    if v >= 0 {
        v as nat
    } else {
        (v + modulus) as nat
    }
}

pub proof fn lemma_le_bytes_len(v: nat, width: nat)
    ensures
        le_bytes(v, width).len() == width,
    decreases width,
{
    if width > 0 {
        lemma_le_bytes_len(v / 256, (width - 1) as nat);
    }
}

/// Appends the `width` low-order bytes of `v` to `out`, least significant first.
pub fn push_le(out: &mut Vec<u8>, v: u64, width: usize)
    requires
        width <= 8,
    ensures
        final(out)@ == old(out)@ + le_bytes(v as nat, width as nat),
{
    let mut rest: u64 = v;
    let mut i: usize = 0;
    while i < width
        invariant
            i <= width,
            old(out)@ + le_bytes(v as nat, width as nat) == out@ + le_bytes(
                rest as nat,
                (width - i) as nat,
            ),
        decreases width - i,
    {
        let byte: u8 = (rest % 256) as u8;
        let ghost before = out@;
        out.push(byte);
        assert(le_bytes(rest as nat, (width - i) as nat) == seq![byte] + le_bytes(
            (rest / 256) as nat,
            (width - i - 1) as nat,
        ));
        assert(before + le_bytes(rest as nat, (width - i) as nat) =~= out@ + le_bytes(
            (rest / 256) as nat,
            (width - i - 1) as nat,
        ));
        rest = rest / 256;
        i = i + 1;
    }
    assert(le_bytes(rest as nat, 0) =~= Seq::<u8>::empty());
    assert(out@ + Seq::<u8>::empty() =~= out@);
}

/// A value with a fixed-width little-endian byte image.
pub trait FlatValue: Sized {
    spec fn flat(&self) -> Seq<u8>;

    fn append_flat(&self, out: &mut Vec<u8>)
        ensures
            final(out)@ == old(out)@ + self.flat(),
    ;
}

impl FlatValue for u8 {
    open spec fn flat(&self) -> Seq<u8> {
        le_bytes(*self as nat, 1)
    }

    fn append_flat(&self, out: &mut Vec<u8>) {
        push_le(out, *self as u64, 1);
    }
}

impl FlatValue for i8 {
    open spec fn flat(&self) -> Seq<u8> {
        le_bytes(twos_complement(*self as int, 0x100), 1)
    }

    fn append_flat(&self, out: &mut Vec<u8>) {
        let u: u64 = if *self >= 0 {
            *self as u64
        } else {
            (*self as i64 + 0x100) as u64
        };
        push_le(out, u, 1);
    }
}

impl FlatValue for i32 {
    open spec fn flat(&self) -> Seq<u8> {
        le_bytes(twos_complement(*self as int, 0x1_0000_0000), 4)
    }

    fn append_flat(&self, out: &mut Vec<u8>) {
        let u: u64 = if *self >= 0 {
            *self as u64
        } else {
            (*self as i64 + 0x1_0000_0000) as u64
        };
        push_le(out, u, 4);
    }
}

impl FlatValue for u32 {
    open spec fn flat(&self) -> Seq<u8> {
        le_bytes(*self as nat, 4)
    }

    fn append_flat(&self, out: &mut Vec<u8>) {
        push_le(out, *self as u64, 4);
    }
}

impl FlatValue for i64 {
    open spec fn flat(&self) -> Seq<u8> {
        le_bytes(twos_complement(*self as int, 0x1_0000_0000_0000_0000), 8)
    }

    fn append_flat(&self, out: &mut Vec<u8>) {
        let u: u64 = if *self >= 0 {
            *self as u64
        } else {
            ((*self + 0x7fff_ffff_ffff_ffff + 1) as u64) + 0x8000_0000_0000_0000u64
        };
        push_le(out, u, 8);
    }
}

/// The byte images of `values`, one after the other.
pub open spec fn flat_seq<T: FlatValue>(values: Seq<T>) -> Seq<u8>
    decreases values.len(),
{
    if values.len() == 0 {
        Seq::empty()
    } else {
        flat_seq(values.drop_last()) + values.last().flat()
    }
}

/// The encoding that a chunk header records.
#[derive(Debug, Clone, Copy, PartialEq, Eq, Structural)]
pub enum Encoding {
    Raw,
    Delta,
    RLE,
}

/// Turns a buffer of values into bytes.
#[derive(Debug, Clone, Copy, PartialEq, Eq, Structural)]
pub enum Encoder {
    /// The values' byte images, copied as they are.
    Flat,
    /// Run-length encoding; not available yet.
    RLE,
}

/// The error of an encoder that has no implementation yet.
#[derive(Debug, Clone, Copy, PartialEq, Eq, Structural)]
pub enum EncodeError {
    NotImplemented,
}

impl Encoder {
    /// The header tag of what this encoder produces.
    pub fn encoding(&self) -> (r: Encoding)
        ensures
            *self == Encoder::Flat ==> r == Encoding::Raw,
            *self == Encoder::RLE ==> r == Encoding::RLE,
    {
        match self {
            Encoder::Flat => Encoding::Raw,
            Encoder::RLE => Encoding::RLE,
        }
    }

    /// `Flat` copies the byte image of each value in order; `RLE` is not implemented.
    pub fn encode<T: FlatValue>(&self, values: &[T]) -> (r: Result<Vec<u8>, EncodeError>)
        ensures
            *self == Encoder::Flat ==> (r matches Ok(b) && b@ == flat_seq(values@)),
            *self == Encoder::RLE ==> r == Err::<Vec<u8>, EncodeError>(EncodeError::NotImplemented),
    {
        match self {
            Encoder::Flat => {
                let mut out: Vec<u8> = Vec::new();
                let mut i: usize = 0;
                while i < values.len()
                    invariant
                        i <= values@.len(),
                        out@ == flat_seq(values@.subrange(0, i as int)),
                    decreases values@.len() - i,
                {
                    values[i].append_flat(&mut out);
                    assert(values@.subrange(0, i + 1).drop_last() =~= values@.subrange(0, i as int));
                    i = i + 1;
                }
                assert(values@.subrange(0, values@.len() as int) =~= values@);
                Ok(out)
            },
            Encoder::RLE => Err(EncodeError::NotImplemented),
        }
    }
}

} // verus!
