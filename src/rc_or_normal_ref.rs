//! A holder that owns its value alone or shares it through a reference count.
use std::rc::Rc;
use vstd::prelude::*;

verus! {

/// Either the sole owner of a boxed value, or one of possibly many
/// reference-counted handles to it.
pub enum RcOrNormalRef<T> {
    Normal(Box<T>),
    Rc(Rc<T>),
}

/// Relies on `Rc::get_mut`: it hands out the shared value mutably only when no
/// other handle to it is alive, and otherwise returns `None` and leaves the
/// handle as it was.
#[verifier::external_body]
fn rc_get_mut<T>(rc: &mut Rc<T>) -> (r: Option<&mut T>)
    ensures
        match r {
            Some(m) => *m == **old(rc) && **final(rc) == *final(m),
            None => *final(rc) == *old(rc),
        },
{
    Rc::get_mut(rc)
}

impl<T> RcOrNormalRef<T> {
    /// The value held, whichever way it is held.
    pub open spec fn inner(&self) -> T {
        match self {
            RcOrNormalRef::Normal(b) => **b,
            RcOrNormalRef::Rc(r) => **r,
        }
    }

    /// Whether the value is exclusively owned.
    pub open spec fn is_owned(&self) -> bool {
        self is Normal
    }

    /// The same way of holding, with another value inside.
    pub open spec fn holds_like(&self, other: Self) -> bool {
        self.is_owned() == other.is_owned()
    }

    /// Reads the value held.
    pub fn get(&self) -> (r: &T)
        ensures
            *r == self.inner(),
    {
        match self {
            RcOrNormalRef::Normal(inside) => &**inside,
            RcOrNormalRef::Rc(rc) => &**rc,
        }
    }

    /// Mutable access to the value: always granted to an exclusive owner, and
    /// to a shared handle only when no other handle to the value is alive.
    pub fn get_mut(&mut self) -> (r: Option<&mut T>)
        ensures
            old(self).is_owned() ==> r is Some,
            match r {
                Some(m) => {
                    &&& *m == old(self).inner()
                    &&& final(self).inner() == *final(m)
                    &&& final(self).holds_like(*old(self))
                },
                None => *final(self) == *old(self),
            },
    {
        match self {
            RcOrNormalRef::Normal(inside) => Some(&mut **inside),
            RcOrNormalRef::Rc(rc) => rc_get_mut(rc),
        }
    }

    /// Takes exclusive ownership of `what`.
    pub fn from_value(what: T) -> (r: Self)
        ensures
            r.is_owned(),
            r.inner() == what,
    {
        RcOrNormalRef::Normal(Box::new(what))
    }

    /// Adopts an already boxed value as its exclusive owner.
    pub fn from_box(other: Box<T>) -> (r: Self)
        ensures
            r.is_owned(),
            r.inner() == *other,
    {
        RcOrNormalRef::Normal(other)
    }

    /// Becomes one more handle to a shared value.
    pub fn from_rc(other: &Rc<T>) -> (r: Self)
        ensures
            !r.is_owned(),
            r.inner() == **other,
    {
        RcOrNormalRef::Rc(Rc::clone(other))
    }
}

/// Reading through the holder reads the value held.
impl<T> std::ops::Deref for RcOrNormalRef<T> {
    type Target = T;

    fn deref(&self) -> (r: &T)
        ensures
            *r == self.inner(),
    {
        self.get()
    }
}

impl<T> From<Box<T>> for RcOrNormalRef<T> {
    fn from(other: Box<T>) -> (r: Self) {
        RcOrNormalRef::from_box(other)
    }
}

impl<T> vstd::std_specs::convert::FromSpecImpl<Box<T>> for RcOrNormalRef<T> {
    open spec fn obeys_from_spec() -> bool {
        true
    }

    open spec fn from_spec(v: Box<T>) -> Self {
        RcOrNormalRef::Normal(v)
    }
}

impl<'a, T> From<&'a Rc<T>> for RcOrNormalRef<T> {
    fn from(other: &'a Rc<T>) -> (r: Self) {
        RcOrNormalRef::from_rc(other)
    }
}

impl<'a, T> vstd::std_specs::convert::FromSpecImpl<&'a Rc<T>> for RcOrNormalRef<T> {
    open spec fn obeys_from_spec() -> bool {
        true
    }

    open spec fn from_spec(v: &'a Rc<T>) -> Self {
        RcOrNormalRef::Rc(*v)
    }
}

} // verus!
