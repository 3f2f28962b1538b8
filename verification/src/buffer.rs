//! The owning buffer that stages storage across the call boundary.
//!
//! A buffer wraps exactly one slot of a held type. The default state is
//! uninitialized: the slot must be written (by the underlying call or by an
//! explicit write) before it is read, and the discipline is enforced here by
//! construction rather than by a runtime check. The one deliberate exception
//! is the memory-pool variant, whose default is an empty-but-valid sentinel:
//! a call may take a fresh pool handle by value without any prior write,
//! because the underlying library treats the empty handle as a request to
//! allocate. The pool variant also carries an explicit release step, since
//! memory handed over by the underlying library is reclaimed through its own
//! free operation, not by ordinary disposal.

use vstd::prelude::*;

verus! {

/// One slot of storage for a value of the held type.
///
/// `Uninitialized` holds nothing readable; `Initialized` holds a written
/// value; `EmptyValid` is the pool sentinel, valid to hand to a call as it
/// stands though it holds no value of its own.
#[derive(Debug, Clone, PartialEq, Eq)]
pub enum Buf<T> {
    Uninitialized,
    Initialized(T),
    EmptyValid,
}

impl<T> Buf<T> {
    /// The slot has been written and may be read.
    pub open spec fn is_initialized(self) -> bool {
        self is Initialized
    }

    /// The slot may be passed into a call by value: either it was written,
    /// or it is the empty-but-valid pool sentinel.
    pub open spec fn call_by_value_ok(self) -> bool {
        self is Initialized || self is EmptyValid
    }

    /// A fresh ordinary buffer: uninitialized, not readable, not valid to
    /// pass by value.
    pub fn uninit() -> (r: Self)
        ensures
            r == Buf::<T>::Uninitialized,
            !r.call_by_value_ok(),
    {
        Buf::Uninitialized
    }

    /// A fresh pool-variant buffer: empty but valid to pass into a call
    /// without any prior write.
    pub fn empty_valid() -> (r: Self)
        ensures
            r == Buf::<T>::EmptyValid,
            r.call_by_value_ok(),
            !r.is_initialized(),
    {
        Buf::EmptyValid
    }

    /// Writes the slot; whatever state it was in, it is initialized after.
    pub fn write(&mut self, value: T)
        ensures
            *final(self) == Buf::Initialized(value),
    {
        *self = Buf::Initialized(value);
    }

    /// Reads the written value out of the slot. Reading an unwritten slot is
    /// forbidden by the precondition, not by a runtime check.
    pub fn read(self) -> (r: T)
        requires
            self.is_initialized(),
        ensures
            self == Buf::Initialized(r),
    {
        match self {
            Buf::Initialized(v) => v,
            _ => unreached(),
        }
    }

    /// The by-value call argument this slot stands for: the written value,
    /// or nothing for the pool sentinel, which the boundary passes on as the
    /// null handle.
    pub fn into_call_value(self) -> (r: Option<T>)
        requires
            self.call_by_value_ok(),
        ensures
            self is Initialized ==> self == Buf::Initialized(r.unwrap()) && r is Some,
            self is EmptyValid ==> r is None,
    {
        match self {
            Buf::Initialized(v) => Some(v),
            Buf::EmptyValid => None,
            _ => unreached(),
        }
    }

    /// Consumes a pool-variant buffer and hands back what the boundary must
    /// release: the handle the underlying library filled in, or nothing when
    /// the sentinel was never overwritten.
    pub fn free_mem_pool(self) -> (r: Option<T>)
        requires
            self.call_by_value_ok(),
        ensures
            self is Initialized ==> self == Buf::Initialized(r.unwrap()) && r is Some,
            self is EmptyValid ==> r is None,
    {
        self.into_call_value()
    }
}

impl<T> Default for Buf<T> {
    /// The default buffer state is uninitialized; the pool variant is built
    /// with `empty_valid` instead.
    fn default() -> (r: Self)
        ensures
            r == Buf::<T>::Uninitialized,
    {
        Buf::Uninitialized
    }
}

/// A freshly constructed pool-variant buffer is valid to pass into a call
/// without prior initialization; every other freshly constructed buffer must
/// be written before it may be read or passed by value.
pub proof fn lemma_pool_sentinel_valid<T>()
    ensures
        Buf::<T>::EmptyValid.call_by_value_ok(),
        !Buf::<T>::EmptyValid.is_initialized(),
        !Buf::<T>::Uninitialized.call_by_value_ok(),
        !Buf::<T>::Uninitialized.is_initialized(),
{
}

} // verus!
