use vstd::prelude::*;

use crate::backend::Backend;

verus! {

/// Writes to the backend on behalf of the printers mapped on it.
pub struct RawPrinter<'a, B: Backend + ?Sized> {
    backend: &'a mut B,
}

impl<'a, B: Backend + ?Sized> RawPrinter<'a, B> {
    /// The backend the printer writes to.
    pub closed spec fn spec_backend(&self) -> &'a mut B {
        self.backend
    }

    /// A raw printer writing to `backend`: it holds the backend as it is, and what the backend
    /// holds once the printer is done with it is what the printer left there.
    pub fn new(backend: &'a mut B) -> (r: Self)
        ensures
            &*r.spec_backend() == &*old(backend),
            &*final(r.spec_backend()) == &*final(backend),
    {
        Self { backend }
    }
}

} // verus!
