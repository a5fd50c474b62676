//! What the code generator is told about types that live in other protocols.
use core::ops::{BitAnd, BitOr, BitXor, Not, Sub};
use vstd::prelude::*;
use vstd::std_specs::ops::{
    BitAndSpec, BitAndSpecImpl, BitOrSpec, BitOrSpecImpl, BitXorSpec, BitXorSpecImpl, NotSpec,
    NotSpecImpl, SubSpec, SubSpecImpl,
};

verus! {

/// Which standard derives a type supports, as a set of flags.
#[derive(Debug, Clone, Copy, PartialEq, Eq, Structural, Hash)]
pub struct Derives {
    /// The raw bits; public so that a flag set can be written in a constant.
    pub bits: u32,
}

/// The bits of every named flag.
pub const DERIVES_ALL_BITS: u32 = 0x3ff;

impl Derives {
    /// The `COPY` flag.
    #[allow(non_snake_case)]
    pub fn COPY() -> (d: Derives)
        ensures
            d.view_bits() == 1,
    {
        Derives { bits: 1 }
    }

    /// The `CLONE` flag.
    #[allow(non_snake_case)]
    pub fn CLONE() -> (d: Derives)
        ensures
            d.view_bits() == 2,
    {
        Derives { bits: 2 }
    }

    /// The `HASH` flag.
    #[allow(non_snake_case)]
    pub fn HASH() -> (d: Derives)
        ensures
            d.view_bits() == 4,
    {
        Derives { bits: 4 }
    }

    /// The `PARTIAL_EQ` flag.
    #[allow(non_snake_case)]
    pub fn PARTIAL_EQ() -> (d: Derives)
        ensures
            d.view_bits() == 8,
    {
        Derives { bits: 8 }
    }

    /// The `EQ` flag.
    #[allow(non_snake_case)]
    pub fn EQ() -> (d: Derives)
        ensures
            d.view_bits() == 16,
    {
        Derives { bits: 16 }
    }

    /// The `PARTIAL_ORD` flag.
    #[allow(non_snake_case)]
    pub fn PARTIAL_ORD() -> (d: Derives)
        ensures
            d.view_bits() == 32,
    {
        Derives { bits: 32 }
    }

    /// The `ORD` flag.
    #[allow(non_snake_case)]
    pub fn ORD() -> (d: Derives)
        ensures
            d.view_bits() == 64,
    {
        Derives { bits: 64 }
    }

    /// The `DEFAULT` flag.
    #[allow(non_snake_case)]
    pub fn DEFAULT() -> (d: Derives)
        ensures
            d.view_bits() == 128,
    {
        Derives { bits: 128 }
    }

    /// The `SERDE_SER` flag.
    #[allow(non_snake_case)]
    pub fn SERDE_SER() -> (d: Derives)
        ensures
            d.view_bits() == 256,
    {
        Derives { bits: 256 }
    }

    /// The `SERDE_DE` flag.
    #[allow(non_snake_case)]
    pub fn SERDE_DE() -> (d: Derives)
        ensures
            d.view_bits() == 512,
    {
        Derives { bits: 512 }
    }

    /// All serde derives
    #[allow(non_snake_case)]
    pub fn SERDE() -> (d: Derives)
        ensures
            d.view_bits() == 0x300,
    {
        Derives { bits: 0x300 }
    }

    /// All standard derives that integer types support
    #[allow(non_snake_case)]
    pub fn INTEGERS() -> (d: Derives)
        ensures
            d.view_bits() == 0x3ff,
    {
        Derives { bits: 0x3ff }
    }

    /// All standard derives that float types support (no Hash, Eq, or Ord)
    #[allow(non_snake_case)]
    pub fn FLOATS() -> (d: Derives)
        ensures
            d.view_bits() == 0x3ab,
    {
        Derives { bits: 0x3ab }
    }

    /// The raw bits.
    pub open spec fn view_bits(self) -> u32 {
        self.bits
    }

    /// No flags.
    pub fn empty() -> (d: Derives)
        ensures
            d.view_bits() == 0,
    {
        Derives { bits: 0 }
    }

    /// Every named flag.
    pub fn all() -> (d: Derives)
        ensures
            d.view_bits() == DERIVES_ALL_BITS,
    {
        Derives { bits: DERIVES_ALL_BITS }
    }

    /// The raw bits.
    pub fn bits(&self) -> (b: u32)
        ensures
            b == self.view_bits(),
    {
        self.bits
    }

    /// These bits as flags, or `None` if any of them names no flag.
    pub fn from_bits(bits: u32) -> (d: Option<Derives>)
        ensures
            d is Some <==> bits & !DERIVES_ALL_BITS == 0,
            d matches Some(d) ==> d.view_bits() == bits,
    {
        let truncated = bits & DERIVES_ALL_BITS;
        assert((bits & 0x3ff == bits) <==> (bits & !0x3ffu32 == 0)) by (bit_vector);
        if truncated == bits {
            Some(Derives { bits })
        } else {
            None
        }
    }

    /// These bits as flags, dropping any that name no flag.
    pub fn from_bits_truncate(bits: u32) -> (d: Derives)
        ensures
            d.view_bits() == bits & DERIVES_ALL_BITS,
    {
        Derives { bits: bits & DERIVES_ALL_BITS }
    }

    /// These bits as flags, keeping any that name no flag.
    pub fn from_bits_retain(bits: u32) -> (d: Derives)
        ensures
            d.view_bits() == bits,
    {
        Derives { bits }
    }

    /// Whether no flag is set.
    pub fn is_empty(&self) -> (b: bool)
        ensures
            b <==> self.view_bits() == 0,
    {
        self.bits == 0
    }

    /// Whether every named flag is set.
    pub fn is_all(&self) -> (b: bool)
        ensures
            b <==> (DERIVES_ALL_BITS | self.view_bits()) == self.view_bits(),
    {
        (DERIVES_ALL_BITS | self.bits) == self.bits
    }

    /// Whether any flag of `other` is set here.
    pub fn intersects(&self, other: Derives) -> (b: bool)
        ensures
            b <==> self.view_bits() & other.view_bits() != 0,
    {
        self.bits & other.bits != 0
    }

    /// Whether every flag of `other` is set here.
    pub fn contains(&self, other: Derives) -> (b: bool)
        ensures
            b <==> self.view_bits() & other.view_bits() == other.view_bits(),
    {
        self.bits & other.bits == other.bits
    }

    /// Sets the flags of `other`.
    pub fn insert(&mut self, other: Derives)
        ensures
            final(self).view_bits() == old(self).view_bits() | other.view_bits(),
    {
        self.bits = self.bits | other.bits;
    }

    /// Clears the flags of `other`.
    pub fn remove(&mut self, other: Derives)
        ensures
            final(self).view_bits() == old(self).view_bits() & !other.view_bits(),
    {
        self.bits = self.bits & !other.bits;
    }

    /// Flips the flags of `other`.
    pub fn toggle(&mut self, other: Derives)
        ensures
            final(self).view_bits() == old(self).view_bits() ^ other.view_bits(),
    {
        self.bits = self.bits ^ other.bits;
    }

    /// Sets the flags of `other` when `value`, else clears them.
    pub fn set(&mut self, other: Derives, value: bool)
        ensures
            final(self).view_bits() == if value {
                old(self).view_bits() | other.view_bits()
            } else {
                old(self).view_bits() & !other.view_bits()
            },
    {
        if value {
            self.insert(other);
        } else {
            self.remove(other);
        }
    }

    /// The flags set in both.
    pub fn intersection(self, other: Derives) -> (d: Derives)
        ensures
            d.view_bits() == self.view_bits() & other.view_bits(),
    {
        Derives { bits: self.bits & other.bits }
    }

    /// The flags set in either.
    pub fn union(self, other: Derives) -> (d: Derives)
        ensures
            d.view_bits() == self.view_bits() | other.view_bits(),
    {
        Derives { bits: self.bits | other.bits }
    }

    /// The flags set here and not in `other`.
    pub fn difference(self, other: Derives) -> (d: Derives)
        ensures
            d.view_bits() == self.view_bits() & !other.view_bits(),
    {
        Derives { bits: self.bits & !other.bits }
    }

    /// The flags set in exactly one of the two.
    pub fn symmetric_difference(self, other: Derives) -> (d: Derives)
        ensures
            d.view_bits() == self.view_bits() ^ other.view_bits(),
    {
        Derives { bits: self.bits ^ other.bits }
    }

    /// The named flags not set here.
    pub fn complement(self) -> (d: Derives)
        ensures
            d.view_bits() == !self.view_bits() & DERIVES_ALL_BITS,
    {
        Derives { bits: !self.bits & DERIVES_ALL_BITS }
    }
}

/// The union: the flags set in either.
impl BitOr for Derives {
    type Output = Derives;

    fn bitor(self, rhs: Derives) -> (d: Derives) {
        Derives { bits: self.bits | rhs.bits }
    }
}

impl BitOrSpecImpl for Derives {
    open spec fn obeys_bitor_spec() -> bool {
        true
    }

    open spec fn bitor_req(self, rhs: Derives) -> bool {
        true
    }

    open spec fn bitor_spec(self, rhs: Derives) -> Derives {
        Derives { bits: self.bits | rhs.bits }
    }
}

/// The intersection: the flags set in both.
impl BitAnd for Derives {
    type Output = Derives;

    fn bitand(self, rhs: Derives) -> (d: Derives) {
        Derives { bits: self.bits & rhs.bits }
    }
}

impl BitAndSpecImpl for Derives {
    open spec fn obeys_bitand_spec() -> bool {
        true
    }

    open spec fn bitand_req(self, rhs: Derives) -> bool {
        true
    }

    open spec fn bitand_spec(self, rhs: Derives) -> Derives {
        Derives { bits: self.bits & rhs.bits }
    }
}

/// The symmetric difference: the flags set in exactly one.
impl BitXor for Derives {
    type Output = Derives;

    fn bitxor(self, rhs: Derives) -> (d: Derives) {
        Derives { bits: self.bits ^ rhs.bits }
    }
}

impl BitXorSpecImpl for Derives {
    open spec fn obeys_bitxor_spec() -> bool {
        true
    }

    open spec fn bitxor_req(self, rhs: Derives) -> bool {
        true
    }

    open spec fn bitxor_spec(self, rhs: Derives) -> Derives {
        Derives { bits: self.bits ^ rhs.bits }
    }
}

/// The difference: the flags set on the left and not on the right.
impl Sub for Derives {
    type Output = Derives;

    fn sub(self, rhs: Derives) -> (d: Derives) {
        Derives { bits: self.bits & !rhs.bits }
    }
}

impl SubSpecImpl for Derives {
    open spec fn obeys_sub_spec() -> bool {
        true
    }

    open spec fn sub_req(self, rhs: Derives) -> bool {
        true
    }

    open spec fn sub_spec(self, rhs: Derives) -> Derives {
        Derives { bits: self.bits & !rhs.bits }
    }
}

/// The complement: the named flags not set.
impl Not for Derives {
    type Output = Derives;

    fn not(self) -> (d: Derives) {
        Derives { bits: !self.bits & DERIVES_ALL_BITS }
    }
}

impl NotSpecImpl for Derives {
    open spec fn obeys_not_spec() -> bool {
        true
    }

    open spec fn not_req(self) -> bool {
        true
    }

    open spec fn not_spec(self) -> Derives {
        Derives { bits: !self.bits & DERIVES_ALL_BITS }
    }
}

/// The operators on flags act on their bits as the named methods do.
pub proof fn lemma_derives_operators(a: Derives, b: Derives)
    ensures
        BitOrSpec::bitor_spec(a, b).view_bits() == a.view_bits() | b.view_bits(),
        BitAndSpec::bitand_spec(a, b).view_bits() == a.view_bits() & b.view_bits(),
        BitXorSpec::bitxor_spec(a, b).view_bits() == a.view_bits() ^ b.view_bits(),
        SubSpec::sub_spec(a, b).view_bits() == a.view_bits() & !b.view_bits(),
        NotSpec::not_spec(a).view_bits() == !a.view_bits() & DERIVES_ALL_BITS,
{
}

/// A protocol defined elsewhere, as the code generator sees it.
#[derive(Clone, Copy, Debug)]
pub struct ExternalProtocol {
    pub protocol_name: &'static str,
    pub types: &'static [ExternalGluonType],
}

/// A type of an external protocol: its name, its proxy if it is an interface, and the
/// derives it supports.
#[derive(Clone, Copy, Debug)]
pub struct ExternalGluonType {
    pub name: &'static str,
    pub proxy: Option<&'static str>,
    pub supported_derives: Derives,
}

} // verus!
