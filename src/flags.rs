use vstd::prelude::*;

verus! {

/// The `flags` of a set call on Linux, Android and NetBSD: a set of the two
/// creation bits, which callers may combine.
#[derive(Clone, Copy, Debug, PartialEq, Eq, Structural)]
pub struct Flags {
    bits: i32,
}

impl View for Flags {
    type V = i32;

    /// The bit mask that goes to the kernel.
    closed spec fn view(&self) -> i32 {
        self.bits
    }
}

impl Flags {
    /// Perform a pure create, which fails if the named attribute exists
    /// already.
    #[allow(non_snake_case)]
    pub fn XATTR_CREATE() -> (r: Flags)
        ensures
            r@ == 1,
    {
        Flags { bits: 1 }
    }

    /// Perform a pure replace, which fails if the named attribute does not
    /// exist yet.
    #[allow(non_snake_case)]
    pub fn XATTR_REPLACE() -> (r: Flags)
        ensures
            r@ == 2,
    {
        Flags { bits: 2 }
    }

    #[verifier::type_invariant]
    spec fn known_bits_only(&self) -> bool {
        0 <= self.bits <= 3
    }

    pub fn empty() -> (r: Flags)
        ensures
            r@ == 0,
    {
        Flags { bits: 0 }
    }

    pub fn all() -> (r: Flags)
        ensures
            r@ == 3,
    {
        Flags { bits: 3 }
    }

    pub fn bits(&self) -> (r: i32)
        ensures
            r == self@,
            0 <= r <= 3,
    {
        proof {
            use_type_invariant(self);
        }
        self.bits
    }

    /// The flags with exactly these bits, or `None` where `bits` holds one
    /// that no flag stands for.
    pub fn from_bits(bits: i32) -> (r: Option<Flags>)
        ensures
            0 <= bits <= 3 ==> (r matches Some(f) && f@ == bits),
            !(0 <= bits <= 3) ==> r is None,
    {
        if 0 <= bits && bits <= 3 {
            Some(Flags { bits })
        } else {
            None
        }
    }

    pub fn is_empty(&self) -> (r: bool)
        ensures
            r == (self@ == 0),
    {
        self.bits == 0
    }

    /// Whether every bit of `other` is set in `self`.
    pub fn contains(&self, other: Flags) -> (r: bool)
        ensures
            r == (self@ & other@ == other@),
    {
        self.bits & other.bits == other.bits
    }

    /// The bits of both.
    pub fn union(self, other: Flags) -> (r: Flags)
        ensures
            r@ == self@ | other@,
    {
        proof {
            use_type_invariant(&self);
            use_type_invariant(&other);
        }
        let a = self.bits;
        let b = other.bits;
        assert(0 <= a <= 3 && 0 <= b <= 3 ==> 0 <= a | b <= 3) by (bit_vector);
        Flags { bits: a | b }
    }
}

/// The `options` of the Darwin (macOS, iOS) calls: the two creation bits,
/// and a bit that makes a call act on a symbolic link itself rather than on
/// what it points to.
#[derive(Clone, Copy, Debug, PartialEq, Eq, Structural)]
pub struct Options {
    bits: i32,
}

impl View for Options {
    type V = i32;

    /// The bit mask that goes to the kernel.
    closed spec fn view(&self) -> i32 {
        self.bits
    }
}

impl Options {
    /// Do not follow symbolic links.
    #[allow(non_snake_case)]
    pub fn XATTR_NOFOLLOW() -> (r: Options)
        ensures
            r@ == 1,
    {
        Options { bits: 1 }
    }

    /// Perform a pure create, which fails if the named attribute exists
    /// already.
    #[allow(non_snake_case)]
    pub fn XATTR_CREATE() -> (r: Options)
        ensures
            r@ == 2,
    {
        Options { bits: 2 }
    }

    /// Perform a pure replace, which fails if the named attribute does not
    /// exist yet.
    #[allow(non_snake_case)]
    pub fn XATTR_REPLACE() -> (r: Options)
        ensures
            r@ == 4,
    {
        Options { bits: 4 }
    }

    #[verifier::type_invariant]
    spec fn known_bits_only(&self) -> bool {
        0 <= self.bits <= 7
    }

    pub fn empty() -> (r: Options)
        ensures
            r@ == 0,
    {
        Options { bits: 0 }
    }

    pub fn all() -> (r: Options)
        ensures
            r@ == 7,
    {
        Options { bits: 7 }
    }

    pub fn bits(&self) -> (r: i32)
        ensures
            r == self@,
            0 <= r <= 7,
    {
        proof {
            use_type_invariant(self);
        }
        self.bits
    }

    /// The options with exactly these bits, or `None` where `bits` holds one
    /// that no option stands for.
    pub fn from_bits(bits: i32) -> (r: Option<Options>)
        ensures
            0 <= bits <= 7 ==> (r matches Some(o) && o@ == bits),
            !(0 <= bits <= 7) ==> r is None,
    {
        if 0 <= bits && bits <= 7 {
            Some(Options { bits })
        } else {
            None
        }
    }

    pub fn is_empty(&self) -> (r: bool)
        ensures
            r == (self@ == 0),
    {
        self.bits == 0
    }

    /// Whether every bit of `other` is set in `self`.
    pub fn contains(&self, other: Options) -> (r: bool)
        ensures
            r == (self@ & other@ == other@),
    {
        self.bits & other.bits == other.bits
    }

    /// The bits of both.
    pub fn union(self, other: Options) -> (r: Options)
        ensures
            r@ == self@ | other@,
    {
        proof {
            use_type_invariant(&self);
            use_type_invariant(&other);
        }
        let a = self.bits;
        let b = other.bits;
        assert(0 <= a <= 7 && 0 <= b <= 7 ==> 0 <= a | b <= 7) by (bit_vector);
        Options { bits: a | b }
    }
}

/// The namespace of an attribute on FreeBSD and NetBSD, given to each call
/// as a parameter of its own.
#[allow(non_camel_case_types)]
#[derive(Clone, Copy, Debug, PartialEq, Eq, Structural)]
pub enum AttrNamespace {
    EXTATTR_NAMESPACE_USER,
    EXTATTR_NAMESPACE_SYSTEM,
}

impl AttrNamespace {
    /// The number that stands for the namespace in the calls.
    pub open spec fn spec_raw(self) -> i32 {
        match self {
            AttrNamespace::EXTATTR_NAMESPACE_USER => 1,
            AttrNamespace::EXTATTR_NAMESPACE_SYSTEM => 2,
        }
    }

    pub fn to_raw(self) -> (r: i32)
        ensures
            r == self.spec_raw(),
    {
        match self {
            AttrNamespace::EXTATTR_NAMESPACE_USER => 1,
            AttrNamespace::EXTATTR_NAMESPACE_SYSTEM => 2,
        }
    }
}

} // verus!
