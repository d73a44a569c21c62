//! Write-once container for process-wide services.
//!
//! The kernel's page allocator, heap allocator and scheduler each exist
//! once per system. A `Singleton` starts empty (or pre-filled), is
//! initialized exactly once, and hands out its value from then on.
//! Initializing twice, or reading before initialization, is a programming
//! error; the contracts here rule both out.

use vstd::prelude::*;

verus! {

/// A value that is set at most once and then lives forever.
pub struct Singleton<T> {
    value: Option<T>,
}

impl<T> Singleton<T> {
    /// Whether the value has been installed.
    pub closed spec fn is_initialized(&self) -> bool {
        self.value is Some
    }

    /// The installed value.
    pub closed spec fn value_spec(&self) -> T
        recommends
            self.is_initialized(),
    {
        self.value->0
    }

    /// An empty slot, to be initialized once during bring-up.
    pub fn new() -> (r: Singleton<T>)
        ensures
            !r.is_initialized(),
    {
        Singleton { value: None }
    }

    /// A slot born initialized.
    pub fn new_with(val: T) -> (r: Singleton<T>)
        ensures
            r.is_initialized(),
            r.value_spec() == val,
    {
        Singleton { value: Some(val) }
    }

    /// Installs the value. Initializing a slot twice is a programming
    /// error, so the slot must still be empty.
    pub fn init(&mut self, val: T)
        requires
            !old(self).is_initialized(),
        ensures
            final(self).is_initialized(),
            final(self).value_spec() == val,
    {
        self.value = Some(val);
    }

    /// Borrows the installed value; the slot must have been initialized.
    pub fn get(&self) -> (r: &T)
        requires
            self.is_initialized(),
        ensures
            *r == self.value_spec(),
    {
        match &self.value {
            Some(v) => v,
            None => vstd::pervasive::unreached(),
        }
    }

    /// Mutably borrows the installed value; the slot must have been
    /// initialized and stays initialized, holding whatever the caller
    /// leaves behind the returned reference.
    pub fn get_mut(&mut self) -> (r: &mut T)
        requires
            old(self).is_initialized(),
        ensures
            *r == old(self).value_spec(),
            final(self).is_initialized(),
            final(self).value_spec() == *final(r),
    {
        match &mut self.value {
            Some(v) => v,
            None => vstd::pervasive::unreached(),
        }
    }
}

} // verus!
