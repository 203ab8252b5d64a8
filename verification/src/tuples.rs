//! Values one after the other: a tuple is decoded and encoded part by part.

use crate::convert::{
    lemma_concat_assoc, lemma_first_stands, lemma_last_stands, lemma_part_stands, BlockLength,
    FromBytes, ToBytes,
};
use crate::errors::{Failure, Stop};
use vstd::prelude::*;

verus! {

/// A length, or what 16 bits can say at most where the length is more.
pub open spec fn capped(n: nat) -> nat {
    if n <= u16::MAX {
        n
    } else {
        u16::MAX as nat
    }
}

/// The sum of two lengths, or what 16 bits can say at most where the sum is
/// more.
pub fn add_capped(a: u16, b: u16) -> (n: u16)
    ensures
        n == capped((a + b) as nat),
{
    if a > u16::MAX - b {
        u16::MAX
    } else {
        a + b
    }
}

impl<A: FromBytes, B: FromBytes> FromBytes for (A, B) {
    /// The parts one after the other.
    open spec fn parse(s: Seq<u8>, at: int) -> Result<((A::V, B::V), int), Failure> {
        match A::parse(s, at) {
            Err(e) => Err(e),
            Ok((a, at)) => match B::parse(s, at) {
                Err(e) => Err(e),
                Ok((b, at)) => Ok(((a, b), at)),
            },
        }
    }

    fn read_at(buf: &[u8], at: usize) -> (r: Result<(Self, usize), Stop>) {
        let (a, at) = A::read_at(buf, at)?;
        let (b, at) = B::read_at(buf, at)?;
        Ok(((a, b), at))
    }
}

impl<A: ToBytes, B: ToBytes> ToBytes for (A, B) {
    open spec fn wire(m: (A::V, B::V)) -> Seq<u8> {
        A::wire(m.0) + B::wire(m.1)
    }

    open spec fn encodable(m: (A::V, B::V)) -> bool {
        A::encodable(m.0) && B::encodable(m.1)
    }

    proof fn lemma_round_trip(m: (A::V, B::V), s: Seq<u8>, at: int) {
        let w0 = A::wire(m.0);
        let w1 = B::wire(m.1);
        let a0 = w0;
        let b0 = w1;
        lemma_last_stands(s, at, a0, w1);
        lemma_first_stands(s, at, w0, b0);
        A::lemma_round_trip(m.0, s, at);
        B::lemma_round_trip(m.1, s, at + a0.len());
    }

    fn is_encodable(&self) -> (r: bool) {
        self.0.is_encodable() && self.1.is_encodable()
    }

    fn write(&self, out: &mut Vec<u8>) {
        self.0.write(out);
        self.1.write(out);
        assert(out@ =~= old(out)@ + Self::wire(self.deep_view()));
    }
}

impl<A: BlockLength, B: BlockLength> BlockLength for (A, B) {
    /// The sum over the parts, or what 16 bits can say at most where the sum is
    /// more.
    open spec fn fixed_length() -> nat {
        capped(A::fixed_length() + B::fixed_length())
    }

    fn block_length() -> (n: u16) {
        let n = A::block_length();
        let n = add_capped(n, B::block_length());
        n
    }
}

impl<A: FromBytes, B: FromBytes, C: FromBytes> FromBytes for (A, B, C) {
    /// The parts one after the other.
    open spec fn parse(s: Seq<u8>, at: int) -> Result<((A::V, B::V, C::V), int), Failure> {
        match A::parse(s, at) {
            Err(e) => Err(e),
            Ok((a, at)) => match B::parse(s, at) {
                Err(e) => Err(e),
                Ok((b, at)) => match C::parse(s, at) {
                    Err(e) => Err(e),
                    Ok((c, at)) => Ok(((a, b, c), at)),
                },
            },
        }
    }

    fn read_at(buf: &[u8], at: usize) -> (r: Result<(Self, usize), Stop>) {
        let (a, at) = A::read_at(buf, at)?;
        let (b, at) = B::read_at(buf, at)?;
        let (c, at) = C::read_at(buf, at)?;
        Ok(((a, b, c), at))
    }
}

impl<A: ToBytes, B: ToBytes, C: ToBytes> ToBytes for (A, B, C) {
    open spec fn wire(m: (A::V, B::V, C::V)) -> Seq<u8> {
        A::wire(m.0) + B::wire(m.1) + C::wire(m.2)
    }

    open spec fn encodable(m: (A::V, B::V, C::V)) -> bool {
        A::encodable(m.0) && B::encodable(m.1) && C::encodable(m.2)
    }

    proof fn lemma_round_trip(m: (A::V, B::V, C::V), s: Seq<u8>, at: int) {
        let w0 = A::wire(m.0);
        let w1 = B::wire(m.1);
        let w2 = C::wire(m.2);
        let a0 = w0;
        let a1 = a0 + w1;
        let b1 = w2;
        let b0 = w1 + b1;
        lemma_last_stands(s, at, a1, w2);
        lemma_part_stands(s, at, a0, w1, b1);
        lemma_concat_assoc(a0, w1, b1);
        lemma_first_stands(s, at, w0, b0);
        A::lemma_round_trip(m.0, s, at);
        B::lemma_round_trip(m.1, s, at + a0.len());
        C::lemma_round_trip(m.2, s, at + a1.len());
    }

    fn is_encodable(&self) -> (r: bool) {
        self.0.is_encodable() && self.1.is_encodable() && self.2.is_encodable()
    }

    fn write(&self, out: &mut Vec<u8>) {
        self.0.write(out);
        self.1.write(out);
        self.2.write(out);
        assert(out@ =~= old(out)@ + Self::wire(self.deep_view()));
    }
}

impl<A: BlockLength, B: BlockLength, C: BlockLength> BlockLength for (A, B, C) {
    /// The sum over the parts, or what 16 bits can say at most where the sum is
    /// more.
    open spec fn fixed_length() -> nat {
        capped(A::fixed_length() + B::fixed_length() + C::fixed_length())
    }

    fn block_length() -> (n: u16) {
        let n = A::block_length();
        let n = add_capped(n, B::block_length());
        let n = add_capped(n, C::block_length());
        n
    }
}

impl<A: FromBytes, B: FromBytes, C: FromBytes, D: FromBytes> FromBytes for (A, B, C, D) {
    /// The parts one after the other.
    open spec fn parse(s: Seq<u8>, at: int) -> Result<((A::V, B::V, C::V, D::V), int), Failure> {
        match A::parse(s, at) {
            Err(e) => Err(e),
            Ok((a, at)) => match B::parse(s, at) {
                Err(e) => Err(e),
                Ok((b, at)) => match C::parse(s, at) {
                    Err(e) => Err(e),
                    Ok((c, at)) => match D::parse(s, at) {
                        Err(e) => Err(e),
                        Ok((d, at)) => Ok(((a, b, c, d), at)),
                    },
                },
            },
        }
    }

    fn read_at(buf: &[u8], at: usize) -> (r: Result<(Self, usize), Stop>) {
        let (a, at) = A::read_at(buf, at)?;
        let (b, at) = B::read_at(buf, at)?;
        let (c, at) = C::read_at(buf, at)?;
        let (d, at) = D::read_at(buf, at)?;
        Ok(((a, b, c, d), at))
    }
}

impl<A: ToBytes, B: ToBytes, C: ToBytes, D: ToBytes> ToBytes for (A, B, C, D) {
    open spec fn wire(m: (A::V, B::V, C::V, D::V)) -> Seq<u8> {
        A::wire(m.0) + B::wire(m.1) + C::wire(m.2) + D::wire(m.3)
    }

    open spec fn encodable(m: (A::V, B::V, C::V, D::V)) -> bool {
        A::encodable(m.0) && B::encodable(m.1) && C::encodable(m.2) && D::encodable(m.3)
    }

    proof fn lemma_round_trip(m: (A::V, B::V, C::V, D::V), s: Seq<u8>, at: int) {
        let w0 = A::wire(m.0);
        let w1 = B::wire(m.1);
        let w2 = C::wire(m.2);
        let w3 = D::wire(m.3);
        let a0 = w0;
        let a1 = a0 + w1;
        let a2 = a1 + w2;
        let b2 = w3;
        let b1 = w2 + b2;
        let b0 = w1 + b1;
        lemma_last_stands(s, at, a2, w3);
        lemma_part_stands(s, at, a1, w2, b2);
        lemma_concat_assoc(a1, w2, b2);
        lemma_part_stands(s, at, a0, w1, b1);
        lemma_concat_assoc(a0, w1, b1);
        lemma_first_stands(s, at, w0, b0);
        A::lemma_round_trip(m.0, s, at);
        B::lemma_round_trip(m.1, s, at + a0.len());
        C::lemma_round_trip(m.2, s, at + a1.len());
        D::lemma_round_trip(m.3, s, at + a2.len());
    }

    fn is_encodable(&self) -> (r: bool) {
        self.0.is_encodable() && self.1.is_encodable() && self.2.is_encodable() && self.3.is_encodable()
    }

    fn write(&self, out: &mut Vec<u8>) {
        self.0.write(out);
        self.1.write(out);
        self.2.write(out);
        self.3.write(out);
        assert(out@ =~= old(out)@ + Self::wire(self.deep_view()));
    }
}

impl<A: BlockLength, B: BlockLength, C: BlockLength, D: BlockLength> BlockLength for (A, B, C, D) {
    /// The sum over the parts, or what 16 bits can say at most where the sum is
    /// more.
    open spec fn fixed_length() -> nat {
        capped(A::fixed_length() + B::fixed_length() + C::fixed_length() + D::fixed_length())
    }

    fn block_length() -> (n: u16) {
        let n = A::block_length();
        let n = add_capped(n, B::block_length());
        let n = add_capped(n, C::block_length());
        let n = add_capped(n, D::block_length());
        n
    }
}

impl<A: FromBytes, B: FromBytes, C: FromBytes, D: FromBytes, E: FromBytes> FromBytes for (A, B, C, D, E) {
    /// The parts one after the other.
    open spec fn parse(s: Seq<u8>, at: int) -> Result<((A::V, B::V, C::V, D::V, E::V), int), Failure> {
        match A::parse(s, at) {
            Err(e) => Err(e),
            Ok((a, at)) => match B::parse(s, at) {
                Err(e) => Err(e),
                Ok((b, at)) => match C::parse(s, at) {
                    Err(e) => Err(e),
                    Ok((c, at)) => match D::parse(s, at) {
                        Err(e) => Err(e),
                        Ok((d, at)) => match E::parse(s, at) {
                            Err(e) => Err(e),
                            Ok((e, at)) => Ok(((a, b, c, d, e), at)),
                        },
                    },
                },
            },
        }
    }

    fn read_at(buf: &[u8], at: usize) -> (r: Result<(Self, usize), Stop>) {
        let (a, at) = A::read_at(buf, at)?;
        let (b, at) = B::read_at(buf, at)?;
        let (c, at) = C::read_at(buf, at)?;
        let (d, at) = D::read_at(buf, at)?;
        let (e, at) = E::read_at(buf, at)?;
        Ok(((a, b, c, d, e), at))
    }
}

impl<A: ToBytes, B: ToBytes, C: ToBytes, D: ToBytes, E: ToBytes> ToBytes for (A, B, C, D, E) {
    open spec fn wire(m: (A::V, B::V, C::V, D::V, E::V)) -> Seq<u8> {
        A::wire(m.0) + B::wire(m.1) + C::wire(m.2) + D::wire(m.3) + E::wire(m.4)
    }

    open spec fn encodable(m: (A::V, B::V, C::V, D::V, E::V)) -> bool {
        A::encodable(m.0) && B::encodable(m.1) && C::encodable(m.2) && D::encodable(m.3) && E::encodable(m.4)
    }

    proof fn lemma_round_trip(m: (A::V, B::V, C::V, D::V, E::V), s: Seq<u8>, at: int) {
        let w0 = A::wire(m.0);
        let w1 = B::wire(m.1);
        let w2 = C::wire(m.2);
        let w3 = D::wire(m.3);
        let w4 = E::wire(m.4);
        let a0 = w0;
        let a1 = a0 + w1;
        let a2 = a1 + w2;
        let a3 = a2 + w3;
        let b3 = w4;
        let b2 = w3 + b3;
        let b1 = w2 + b2;
        let b0 = w1 + b1;
        lemma_last_stands(s, at, a3, w4);
        lemma_part_stands(s, at, a2, w3, b3);
        lemma_concat_assoc(a2, w3, b3);
        lemma_part_stands(s, at, a1, w2, b2);
        lemma_concat_assoc(a1, w2, b2);
        lemma_part_stands(s, at, a0, w1, b1);
        lemma_concat_assoc(a0, w1, b1);
        lemma_first_stands(s, at, w0, b0);
        A::lemma_round_trip(m.0, s, at);
        B::lemma_round_trip(m.1, s, at + a0.len());
        C::lemma_round_trip(m.2, s, at + a1.len());
        D::lemma_round_trip(m.3, s, at + a2.len());
        E::lemma_round_trip(m.4, s, at + a3.len());
    }

    fn is_encodable(&self) -> (r: bool) {
        self.0.is_encodable() && self.1.is_encodable() && self.2.is_encodable() && self.3.is_encodable() && self.4.is_encodable()
    }

    fn write(&self, out: &mut Vec<u8>) {
        self.0.write(out);
        self.1.write(out);
        self.2.write(out);
        self.3.write(out);
        self.4.write(out);
        assert(out@ =~= old(out)@ + Self::wire(self.deep_view()));
    }
}

impl<A: BlockLength, B: BlockLength, C: BlockLength, D: BlockLength, E: BlockLength> BlockLength for (A, B, C, D, E) {
    /// The sum over the parts, or what 16 bits can say at most where the sum is
    /// more.
    open spec fn fixed_length() -> nat {
        capped(A::fixed_length() + B::fixed_length() + C::fixed_length() + D::fixed_length() + E::fixed_length())
    }

    fn block_length() -> (n: u16) {
        let n = A::block_length();
        let n = add_capped(n, B::block_length());
        let n = add_capped(n, C::block_length());
        let n = add_capped(n, D::block_length());
        let n = add_capped(n, E::block_length());
        n
    }
}

impl<A: FromBytes, B: FromBytes, C: FromBytes, D: FromBytes, E: FromBytes, F: FromBytes> FromBytes for (A, B, C, D, E, F) {
    /// The parts one after the other.
    open spec fn parse(s: Seq<u8>, at: int) -> Result<((A::V, B::V, C::V, D::V, E::V, F::V), int), Failure> {
        match A::parse(s, at) {
            Err(e) => Err(e),
            Ok((a, at)) => match B::parse(s, at) {
                Err(e) => Err(e),
                Ok((b, at)) => match C::parse(s, at) {
                    Err(e) => Err(e),
                    Ok((c, at)) => match D::parse(s, at) {
                        Err(e) => Err(e),
                        Ok((d, at)) => match E::parse(s, at) {
                            Err(e) => Err(e),
                            Ok((e, at)) => match F::parse(s, at) {
                                Err(e) => Err(e),
                                Ok((f, at)) => Ok(((a, b, c, d, e, f), at)),
                            },
                        },
                    },
                },
            },
        }
    }

    fn read_at(buf: &[u8], at: usize) -> (r: Result<(Self, usize), Stop>) {
        let (a, at) = A::read_at(buf, at)?;
        let (b, at) = B::read_at(buf, at)?;
        let (c, at) = C::read_at(buf, at)?;
        let (d, at) = D::read_at(buf, at)?;
        let (e, at) = E::read_at(buf, at)?;
        let (f, at) = F::read_at(buf, at)?;
        Ok(((a, b, c, d, e, f), at))
    }
}

impl<A: ToBytes, B: ToBytes, C: ToBytes, D: ToBytes, E: ToBytes, F: ToBytes> ToBytes for (A, B, C, D, E, F) {
    open spec fn wire(m: (A::V, B::V, C::V, D::V, E::V, F::V)) -> Seq<u8> {
        A::wire(m.0) + B::wire(m.1) + C::wire(m.2) + D::wire(m.3) + E::wire(m.4) + F::wire(m.5)
    }

    open spec fn encodable(m: (A::V, B::V, C::V, D::V, E::V, F::V)) -> bool {
        A::encodable(m.0) && B::encodable(m.1) && C::encodable(m.2) && D::encodable(m.3) && E::encodable(m.4) && F::encodable(m.5)
    }

    proof fn lemma_round_trip(m: (A::V, B::V, C::V, D::V, E::V, F::V), s: Seq<u8>, at: int) {
        let w0 = A::wire(m.0);
        let w1 = B::wire(m.1);
        let w2 = C::wire(m.2);
        let w3 = D::wire(m.3);
        let w4 = E::wire(m.4);
        let w5 = F::wire(m.5);
        let a0 = w0;
        let a1 = a0 + w1;
        let a2 = a1 + w2;
        let a3 = a2 + w3;
        let a4 = a3 + w4;
        let b4 = w5;
        let b3 = w4 + b4;
        let b2 = w3 + b3;
        let b1 = w2 + b2;
        let b0 = w1 + b1;
        lemma_last_stands(s, at, a4, w5);
        lemma_part_stands(s, at, a3, w4, b4);
        lemma_concat_assoc(a3, w4, b4);
        lemma_part_stands(s, at, a2, w3, b3);
        lemma_concat_assoc(a2, w3, b3);
        lemma_part_stands(s, at, a1, w2, b2);
        lemma_concat_assoc(a1, w2, b2);
        lemma_part_stands(s, at, a0, w1, b1);
        lemma_concat_assoc(a0, w1, b1);
        lemma_first_stands(s, at, w0, b0);
        A::lemma_round_trip(m.0, s, at);
        B::lemma_round_trip(m.1, s, at + a0.len());
        C::lemma_round_trip(m.2, s, at + a1.len());
        D::lemma_round_trip(m.3, s, at + a2.len());
        E::lemma_round_trip(m.4, s, at + a3.len());
        F::lemma_round_trip(m.5, s, at + a4.len());
    }

    fn is_encodable(&self) -> (r: bool) {
        self.0.is_encodable() && self.1.is_encodable() && self.2.is_encodable() && self.3.is_encodable() && self.4.is_encodable() && self.5.is_encodable()
    }

    fn write(&self, out: &mut Vec<u8>) {
        self.0.write(out);
        self.1.write(out);
        self.2.write(out);
        self.3.write(out);
        self.4.write(out);
        self.5.write(out);
        assert(out@ =~= old(out)@ + Self::wire(self.deep_view()));
    }
}

impl<A: BlockLength, B: BlockLength, C: BlockLength, D: BlockLength, E: BlockLength, F: BlockLength> BlockLength for (A, B, C, D, E, F) {
    /// The sum over the parts, or what 16 bits can say at most where the sum is
    /// more.
    open spec fn fixed_length() -> nat {
        capped(A::fixed_length() + B::fixed_length() + C::fixed_length() + D::fixed_length() + E::fixed_length() + F::fixed_length())
    }

    fn block_length() -> (n: u16) {
        let n = A::block_length();
        let n = add_capped(n, B::block_length());
        let n = add_capped(n, C::block_length());
        let n = add_capped(n, D::block_length());
        let n = add_capped(n, E::block_length());
        let n = add_capped(n, F::block_length());
        n
    }
}

/// The block length of a struct is the sum of the block lengths of its
/// fields, in whatever order the fields stand.
pub proof fn lemma_block_length_is_a_sum<A: BlockLength, B: BlockLength, C: BlockLength>()
    ensures
        <(A, B)>::fixed_length() == capped(A::fixed_length() + B::fixed_length()),
        <(A, B)>::fixed_length() == <(B, A)>::fixed_length(),
        <(A, B, C)>::fixed_length() == <(C, A, B)>::fixed_length(),
        <(A, B, C)>::fixed_length() == <(B, C, A)>::fixed_length(),
        <((A, B), C)>::fixed_length() == <(A, B, C)>::fixed_length(),
        <(A, (B, C))>::fixed_length() == <(A, B, C)>::fixed_length(),
{
}

} // verus!
