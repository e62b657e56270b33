//! Debug resources that are closed when their scope ends.
use vstd::prelude::*;

verus! {

/// A debug resource that is closed when done with.
pub trait DebugCloseable {
    /// Closes the resource.
    fn close(&mut self);
}

/// A resource whose closing does nothing.
pub struct NoopCloseable;

impl DebugCloseable for NoopCloseable {
    fn close(&mut self) {
    }
}

/// Holds a resource until it is closed.
pub struct DebugCloseableGuard<T: DebugCloseable> {
    inner: Option<T>,
}

impl<T: DebugCloseable> DebugCloseableGuard<T> {
    /// Whether the guard still holds its resource.
    pub closed spec fn holds(&self) -> bool {
        self.inner is Some
    }

    /// A guard holding `inner`.
    pub fn new(inner: T) -> (r: Self)
        ensures
            r.holds(),
    {
        DebugCloseableGuard { inner: Some(inner) }
    }

    /// Ends the guard: the resource held, if any, is closed.
    pub fn close(self) {
        let mut g = self;
        match g.inner.take() {
            Some(mut inner) => inner.close(),
            None => {},
        }
    }
}

} // verus!
