//! The flags with which a file is opened.

use vstd::prelude::*;
use vstd::std_specs::ops::BitOrSpecImpl;
use crate::sys::{self, O_APPEND_VALUE, O_CREAT_VALUE, O_TRUNC_VALUE};

verus! {

/// The access mode and the options of an `open` request, as a set of bits:
/// bit 0 is "read", bit 1 is "write", and the bits of `O_CREAT`, `O_TRUNC`
/// and `O_APPEND` keep their C library values.
#[derive(Debug, Clone, Copy, PartialEq, Eq, Hash, Structural)]
pub struct OpenFlags(i32);

/// The bits that stand for the access mode of a C `open` request
/// (`O_RDONLY`, `O_WRONLY`, `O_RDWR` or an invalid fourth value).
pub open spec fn access_mode(flags: i32) -> i32 {
    flags & 3
}

/// The read/write bits of `OpenFlags` for a C access mode, if it is a valid one.
pub open spec fn mode_bits(flags: i32) -> Option<i32> {
    let mode = access_mode(flags);
    if mode == 0 {
        Some(1i32)
    } else if mode == 1 {
        Some(2i32)
    } else if mode == 2 {
        Some(3i32)
    } else {
        None
    }
}

/// The option bits that `from_flags` carries over from a C `open` request.
pub open spec fn option_bits(flags: i32) -> i32 {
    flags & (O_CREAT_VALUE | O_TRUNC_VALUE | O_APPEND_VALUE)
}

/// The flags that `from_flags` reads from a C `open` request hold "read"
/// unless the access mode is write-only, "write" unless it is read-only, and
/// `O_CREAT`, `O_TRUNC`, `O_APPEND` exactly where the request has them.
pub proof fn lemma_from_flags_meaning(flags: i32, bits: i32)
    requires
        mode_bits(flags) is Some,
        bits == mode_bits(flags).unwrap() | option_bits(flags),
    ensures
        (bits & 1 != 0) == (access_mode(flags) != 1),
        (bits & 2 != 0) == (access_mode(flags) != 0),
        (bits & O_CREAT_VALUE != 0) == (flags & O_CREAT_VALUE != 0),
        (bits & O_TRUNC_VALUE != 0) == (flags & O_TRUNC_VALUE != 0),
        (bits & O_APPEND_VALUE != 0) == (flags & O_APPEND_VALUE != 0),
{
    let m = mode_bits(flags).unwrap();
    let a = access_mode(flags);
    assert(a == flags & 3);
    assert((a == 0 ==> m == 1) && (a == 1 ==> m == 2) && (a == 2 ==> m == 3));
    assert(a != 3);
    assert((bits & 1 != 0) == (a != 1) && (bits & 2 != 0) == (a != 0) && (bits & 64 != 0) == (flags & 64
        != 0) && (bits & 512 != 0) == (flags & 512 != 0) && (bits & 1024 != 0) == (flags & 1024 != 0))
        by (bit_vector)
        requires
            a == flags & 3,
            a != 3,
            a == 0 ==> m == 1,
            a == 1 ==> m == 2,
            a == 2 ==> m == 3,
            bits == m | (flags & (64i32 | 512i32 | 1024i32)),
    ;
}

/// A union holds a flag exactly where one of its two sets does.
pub proof fn lemma_union_contains(a: OpenFlags, b: OpenFlags, f: OpenFlags)
    ensures
        ((a.bits() | b.bits()) & f.bits() != 0) == ((a.bits() & f.bits() != 0) || (b.bits()
            & f.bits() != 0)),
{
    let (x, y, z) = (a.bits(), b.bits(), f.bits());
    assert(((x | y) & z != 0) == ((x & z != 0) || (y & z != 0))) by (bit_vector);
}

impl OpenFlags {
    /// The bits of the set.
    pub closed spec fn bits(self) -> i32 {
        self.0
    }

    /// The empty set.
    pub fn empty() -> (r: OpenFlags)
        ensures
            r.bits() == 0,
    {
        OpenFlags(0)
    }

    /// The set holding "read" alone.
    pub fn read() -> (r: OpenFlags)
        ensures
            r.bits() == 1,
    {
        OpenFlags(1)
    }

    /// The set holding "write" alone.
    pub fn write() -> (r: OpenFlags)
        ensures
            r.bits() == 2,
    {
        OpenFlags(2)
    }

    /// The set holding the C library's `O_CREAT` alone.
    pub fn create() -> (r: OpenFlags)
        ensures
            r.bits() == O_CREAT_VALUE,
    {
        OpenFlags(sys::o_creat())
    }

    /// The set holding the C library's `O_TRUNC` alone.
    pub fn trunc() -> (r: OpenFlags)
        ensures
            r.bits() == O_TRUNC_VALUE,
    {
        OpenFlags(sys::o_trunc())
    }

    /// The set holding the C library's `O_APPEND` alone.
    pub fn append() -> (r: OpenFlags)
        ensures
            r.bits() == O_APPEND_VALUE,
    {
        OpenFlags(sys::o_append())
    }

    /// Whether the two sets share a bit.
    pub fn contains(self, flag: OpenFlags) -> (r: bool)
        ensures
            r == (self.bits() & flag.bits() != 0),
    {
        (self.0 & flag.0) != 0
    }

    /// Whether the set holds "read".
    pub fn is_read(self) -> (r: bool)
        ensures
            r == (self.bits() & 1 != 0),
    {
        self.contains(Self::read())
    }

    /// Whether the set holds "write".
    pub fn is_write(self) -> (r: bool)
        ensures
            r == (self.bits() & 2 != 0),
    {
        self.contains(Self::write())
    }

    /// Whether the set holds `O_CREAT`.
    pub fn is_create(self) -> (r: bool)
        ensures
            r == (self.bits() & O_CREAT_VALUE != 0),
    {
        self.contains(Self::create())
    }

    /// Reads the flags of a C `open` request: the access mode becomes "read",
    /// "write" or both, and `O_CREAT`, `O_TRUNC`, `O_APPEND` are kept. Other
    /// bits are ignored. The fourth, invalid access mode gives `None`.
    pub fn from_flags(flags: i32) -> (r: Option<OpenFlags>)
        ensures
            match mode_bits(flags) {
                None => r is None,
                Some(m) => r matches Some(f) && f.bits() == m | option_bits(flags),
            },
    {
        let mut flags = flags;
        let ghost requested = flags;
        let modes = flags & 3;
        assert(0 <= modes < 4) by (bit_vector)
            requires
                modes == flags & 3,
        ;
        let mut open_flags = if modes == sys::o_rdonly() {
            Self::read()
        } else if modes == sys::o_wronly() {
            Self::write()
        } else if modes == sys::o_rdwr() {
            Self::read() | Self::write()
        } else {
            return None;
        };
        assert(open_flags.bits() == mode_bits(requested).unwrap()) by {
            assert(1i32 | 2i32 == 3i32) by (bit_vector);
        }
        let ghost m = open_flags.bits();
        assert(0 <= m < 4);

        flags = flags & !3;
        assert(flags == requested & !3i32);
        let creat = sys::o_creat();
        if flags & creat != 0 {
            open_flags = open_flags | Self::create();
            flags = flags & !creat;
        }
        let ghost b1 = open_flags.bits();
        assert(b1 == m | (requested & 64i32) && flags == requested & !3i32 & !64i32) by (bit_vector)
            requires
                0 <= m < 4,
                (requested & !3i32) & 64i32 != 0 ==> b1 == m | 64i32 && flags == (requested & !3i32) & !64i32,
                (requested & !3i32) & 64i32 == 0 ==> b1 == m && flags == requested & !3i32,
        ;
        let trunc = sys::o_trunc();
        if flags & trunc != 0 {
            open_flags = open_flags | Self::trunc();
            flags = flags & !trunc;
        }
        let ghost b2 = open_flags.bits();
        let ghost f2 = flags;
        assert(b2 == m | (requested & (64i32 | 512i32)) && f2 == requested & !3i32 & !64i32 & !512i32) by (bit_vector)
            requires
                0 <= m < 4,
                b1 == m | (requested & 64i32),
                (requested & !3i32 & !64i32) & 512i32 != 0 ==> b2 == b1 | 512i32 && f2 == (requested & !3i32 & !64i32) & !512i32,
                (requested & !3i32 & !64i32) & 512i32 == 0 ==> b2 == b1 && f2 == requested & !3i32 & !64i32,
        ;
        let append = sys::o_append();
        if flags & append != 0 {
            open_flags = open_flags | Self::append();
        }
        let ghost b3 = open_flags.bits();
        assert(b3 == m | (requested & (64i32 | 512i32 | 1024i32))) by (bit_vector)
            requires
                0 <= m < 4,
                b2 == m | (requested & (64i32 | 512i32)),
                f2 & 1024i32 != 0 ==> b3 == b2 | 1024i32,
                f2 & 1024i32 == 0 ==> b3 == b2,
                f2 == requested & !3i32 & !64i32 & !512i32,
        ;
        Some(open_flags)
    }
}

impl core::ops::BitOr for OpenFlags {
    type Output = Self;

    /// The union of the two sets.
    fn bitor(self, rhs: Self) -> (r: Self)
        ensures
            r.bits() == self.bits() | rhs.bits(),
    {
        OpenFlags(self.0 | rhs.0)
    }
}

impl BitOrSpecImpl for OpenFlags {
    open spec fn obeys_bitor_spec() -> bool {
        true
    }

    open spec fn bitor_req(self, rhs: Self) -> bool {
        true
    }

    closed spec fn bitor_spec(self, rhs: Self) -> Self {
        OpenFlags(self.0 | rhs.0)
    }
}

} // verus!
