use vstd::prelude::*;

verus! {

/// A one-shot unit of work that can be run from behind a box.
pub trait FnBox {
    /// Whether the work may be run now.
    spec fn ready(&self) -> bool;

    /// What holds once the work has run to its end.
    spec fn done(&self) -> bool;

    /// Runs the work, consuming it.
    fn call_box(self: Box<Self>)
        requires
            self.ready(),
        ensures
            self.done(),
    ;
}

impl<F: FnOnce()> FnBox for F {
    open spec fn ready(&self) -> bool {
        call_requires(*self, ())
    }

    open spec fn done(&self) -> bool {
        call_ensures(*self, (), ())
    }

    fn call_box(self: Box<F>) {
        (*self)()
    }
}

} // verus!
