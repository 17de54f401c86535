//! The mutability-tagged pointer wrapper, at the level of addresses.
//!
//! A wrapper holds one machine address together with two markers: the pointer
//! flavor it converts back into and the pointee type. Every operation stays at
//! the level of the address; none of them touches the memory behind it.

use core::marker::PhantomData;
use vstd::layout::size_of;
use vstd::prelude::*;

verus! {

/// The three pointer flavors a chain can start from.
#[derive(Clone, Copy, Debug, PartialEq, Eq, Structural)]
pub enum Flavor {
    ReadOnly,
    Mutable,
    GuaranteedNonNull,
}

/// A marker type that stands for one pointer flavor.
pub trait Mutability: Sized {
    /// The flavor this marker stands for.
    spec fn flavor() -> Flavor;

    /// The flavor this marker stands for, as a value.
    fn tag() -> (f: Flavor)
        ensures
            f == Self::flavor(),
    ;
}

/// Marker of the read-only flavor.
pub enum Const {
    Marker,
}

/// Marker of the mutable flavor.
pub enum Mut {
    Marker,
}

/// Marker of the guaranteed-non-null flavor.
pub enum NonNull {
    Marker,
}

impl Mutability for Const {
    open spec fn flavor() -> Flavor {
        Flavor::ReadOnly
    }

    fn tag() -> (f: Flavor) {
        Flavor::ReadOnly
    }
}

impl Mutability for Mut {
    open spec fn flavor() -> Flavor {
        Flavor::Mutable
    }

    fn tag() -> (f: Flavor) {
        Flavor::Mutable
    }
}

impl Mutability for NonNull {
    open spec fn flavor() -> Flavor {
        Flavor::GuaranteedNonNull
    }

    fn tag() -> (f: Flavor) {
        Flavor::GuaranteedNonNull
    }
}

/// Whether an address may be held under a flavor: the guaranteed-non-null
/// flavor never holds address zero, the other two hold any address.
pub open spec fn admits(flavor: Flavor, addr: int) -> bool {
    flavor == Flavor::GuaranteedNonNull ==> addr != 0
}

/// Whether an integer is a machine address.
pub open spec fn is_address(addr: int) -> bool {
    0 <= addr <= usize::MAX
}

/// The address `count` elements of `stride` bytes after `addr`.
pub open spec fn element_add(addr: int, count: int, stride: nat) -> int {
    addr + count * stride
}

/// The address `count` elements of `stride` bytes before `addr`.
pub open spec fn element_sub(addr: int, count: int, stride: nat) -> int {
    addr - count * stride
}

/// The address `count` bytes after `addr`.
pub open spec fn byte_add(addr: int, count: int) -> int {
    addr + count
}

/// The address `count` bytes before `addr`.
pub open spec fn byte_sub(addr: int, count: int) -> int {
    addr - count
}

/// An offset forwards by a number of elements and backwards by the same
/// number leads back to the address it started from.
pub proof fn law_element_round_trip(addr: int, count: int, stride: nat)
    ensures
        element_sub(element_add(addr, count, stride), count, stride) == addr,
{
}

/// An offset forwards by a number of bytes and backwards by the same number
/// leads back to the address it started from.
pub proof fn law_byte_round_trip(addr: int, count: int)
    ensures
        byte_sub(byte_add(addr, count), count) == addr,
{
}

/// An offset by as many bytes as one element has is an offset by one
/// element.
pub proof fn law_bytes_of_one_element(addr: int, stride: nat)
    ensures
        byte_add(addr, stride as int) == element_add(addr, 1, stride),
{
}

/// A pointer of flavor `M` to a `T`, as the address it holds.
pub struct Raw<M: Mutability, T> {
    addr: usize,
    marker: PhantomData<(M, T)>,
}

impl<M: Mutability, T> Clone for Raw<M, T> {
    fn clone(&self) -> (r: Self)
        ensures
            r == *self,
    {
        *self
    }
}

impl<M: Mutability, T> Copy for Raw<M, T> {

}

impl<M: Mutability, T> Raw<M, T> {
    #[verifier::type_invariant]
    spec fn admitted(self) -> bool {
        admits(M::flavor(), self.addr as int)
    }

    /// The address held.
    pub closed spec fn addr(self) -> usize {
        self.addr
    }

    /// A pointer of this flavor at `addr`, unless the flavor does not admit it.
    pub fn from_addr(addr: usize) -> (r: Option<Self>)
        ensures
            r.is_some() <==> admits(M::flavor(), addr as int),
            r matches Some(p) ==> p.addr() == addr,
    {
        if addr == 0 && M::tag() == Flavor::GuaranteedNonNull {
            None
        } else {
            Some(Raw { addr, marker: PhantomData })
        }
    }

    /// The address held, as a value; the flavor admits it.
    pub fn to_addr(self) -> (a: usize)
        ensures
            a == self.addr(),
            admits(M::flavor(), a as int),
    {
        proof {
            use_type_invariant(self);
        }
        self.addr
    }
}

/// A value that is a pointer of one of the three flavors.
pub trait IsPtr: Copy {
    /// The marker of the pointer's flavor.
    type M: Mutability;

    /// The pointee type.
    type T;

    /// The address held.
    spec fn address(self) -> usize;

    /// The address held, as a value.
    fn expose(self) -> (a: usize)
        ensures
            a == self.address(),
            admits(Self::M::flavor(), a as int),
    ;
}

impl<M: Mutability, T> IsPtr for Raw<M, T> {
    type M = M;

    type T = T;

    open spec fn address(self) -> usize {
        self.addr()
    }

    fn expose(self) -> (a: usize) {
        proof {
            use_type_invariant(self);
        }
        self.addr
    }
}

/// The wrapper: an address tagged with a flavor marker and a pointee type.
pub struct Pointer<M: Mutability, T> {
    addr: usize,
    marker: PhantomData<(M, T)>,
}

impl<M: Mutability, T> Clone for Pointer<M, T> {
    fn clone(&self) -> (r: Self)
        ensures
            r == *self,
    {
        *self
    }
}

impl<M: Mutability, T> Copy for Pointer<M, T> {

}

/// Wraps a pointer of any flavor, fixing the wrapper's marker to match.
pub fn new_pointer<P: IsPtr>(ptr: P) -> (r: Pointer<P::M, P::T>)
    ensures
        r.addr() == ptr.address(),
{
    Pointer { addr: ptr.expose(), marker: PhantomData }
}

impl<M: Mutability, T> Pointer<M, T> {
    #[verifier::type_invariant]
    spec fn admitted(self) -> bool {
        admits(M::flavor(), self.addr as int)
    }

    /// The address held.
    pub closed spec fn addr(self) -> usize {
        self.addr
    }

    /// The flavor this wrapper converts back into.
    pub open spec fn flavor(self) -> Flavor {
        M::flavor()
    }

    /// Takes the address and pointee type of `ptr`, keeping the flavor.
    pub fn copy_addr<E>(self, ptr: Raw<Const, E>) -> (r: Pointer<M, E>)
        requires
            admits(M::flavor(), ptr.addr() as int),
        ensures
            r.addr() == ptr.addr(),
            r.flavor() == self.flavor(),
    {
        Pointer { addr: ptr.to_addr(), marker: PhantomData }
    }

    /// Converts back into a pointer of the flavor the wrapper was made from.
    pub fn into_inner(self) -> (r: Raw<M, T>)
        ensures
            r.addr() == self.addr(),
    {
        proof {
            use_type_invariant(self);
        }
        Raw { addr: self.addr, marker: PhantomData }
    }

    /// A read-only pointer to the same place.
    pub fn into_const(self) -> (r: Raw<Const, T>)
        ensures
            r.addr() == self.addr(),
    {
        Raw { addr: self.addr, marker: PhantomData }
    }

    /// Reinterprets the pointee type; the address and the flavor stay.
    pub fn cast<U>(self) -> (r: Pointer<M, U>)
        ensures
            r.addr() == self.addr(),
            r.flavor() == self.flavor(),
    {
        proof {
            use_type_invariant(self);
        }
        Pointer { addr: self.addr, marker: PhantomData }
    }

    /// Advances by `count` elements of the pointee type.
    pub fn add(self, count: usize) -> (r: Self)
        requires
            is_address(element_add(self.addr() as int, count as int, size_of::<T>())),
        ensures
            r.addr() == element_add(self.addr() as int, count as int, size_of::<T>()),
    {
        proof {
            use_type_invariant(self);
        }
        let stride: usize = core::mem::size_of::<T>();
        let delta: usize = count * stride;
        Pointer { addr: self.addr + delta, marker: PhantomData }
    }

    /// Goes back by `count` elements of the pointee type.
    pub fn sub(self, count: usize) -> (r: Self)
        requires
            is_address(element_sub(self.addr() as int, count as int, size_of::<T>())),
            admits(M::flavor(), element_sub(self.addr() as int, count as int, size_of::<T>())),
        ensures
            r.addr() == element_sub(self.addr() as int, count as int, size_of::<T>()),
    {
        let stride: usize = core::mem::size_of::<T>();
        assert(count * stride <= self.addr) by (nonlinear_arith)
            requires
                self.addr - count * stride >= 0,
        ;
        let delta: usize = count * stride;
        Pointer { addr: self.addr - delta, marker: PhantomData }
    }

    /// Moves by `count` elements of the pointee type, forwards or backwards.
    pub fn offset(self, count: isize) -> (r: Self)
        requires
            is_address(element_add(self.addr() as int, count as int, size_of::<T>())),
            admits(M::flavor(), element_add(self.addr() as int, count as int, size_of::<T>())),
        ensures
            r.addr() == element_add(self.addr() as int, count as int, size_of::<T>()),
    {
        if count >= 0 {
            self.add(count as usize)
        } else {
            let back: usize = (-(count + 1)) as usize + 1;
            assert(back * size_of::<T>() == -(count * size_of::<T>())) by (nonlinear_arith)
                requires
                    back == -count,
            ;
            self.sub(back)
        }
    }

    /// Advances by `count` bytes.
    pub fn byte_add(self, count: usize) -> (r: Self)
        requires
            is_address(self::byte_add(self.addr() as int, count as int)),
        ensures
            r.addr() == self::byte_add(self.addr() as int, count as int),
    {
        proof {
            use_type_invariant(self);
        }
        Pointer { addr: self.addr + count, marker: PhantomData }
    }

    /// Goes back by `count` bytes.
    pub fn byte_sub(self, count: usize) -> (r: Self)
        requires
            is_address(self::byte_sub(self.addr() as int, count as int)),
            admits(M::flavor(), self::byte_sub(self.addr() as int, count as int)),
        ensures
            r.addr() == self::byte_sub(self.addr() as int, count as int),
    {
        Pointer { addr: self.addr - count, marker: PhantomData }
    }

    /// Moves by `count` bytes, forwards or backwards.
    pub fn byte_offset(self, count: isize) -> (r: Self)
        requires
            is_address(self::byte_add(self.addr() as int, count as int)),
            admits(M::flavor(), self::byte_add(self.addr() as int, count as int)),
        ensures
            r.addr() == self::byte_add(self.addr() as int, count as int),
    {
        if count >= 0 {
            self.byte_add(count as usize)
        } else {
            let back: usize = (-(count + 1)) as usize + 1;
            self.byte_sub(back)
        }
    }
}

/// A pointee type that is a homogeneous sequence: it names its element type.
pub trait CanIndex {
    /// The element type.
    type E;
}

impl<T, const L: usize> CanIndex for [T; L] {
    type E = T;
}

impl<T> CanIndex for [T] {
    type E = T;
}

/// The address of element `at` of the sequence behind `ptr`.
pub fn index<M: Mutability, T: CanIndex>(ptr: Pointer<M, T>, at: usize) -> (r: Pointer<M, T::E>)
    requires
        is_address(element_add(ptr.addr() as int, at as int, size_of::<T::E>())),
    ensures
        r.addr() == element_add(ptr.addr() as int, at as int, size_of::<T::E>()),
        r.flavor() == ptr.flavor(),
{
    let base = ptr.cast::<T::E>();
    base.add(at)
}

} // verus!
