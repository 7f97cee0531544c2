use vstd::prelude::*;

verus! {

/// Holds a closure to run once the holder is done, such as at the end of a scope.
pub struct DropGuard<F: Fn() + 'static> {
    dropper: F,
}

impl<F: Fn() + 'static> DropGuard<F> {
    /// A guard only ever holds a closure that may be called with no arguments.
    #[verifier::type_invariant]
    spec fn dropper_callable(self) -> bool {
        self.dropper.requires(())
    }

    /// The closure that the guard runs.
    pub closed spec fn dropper(&self) -> F {
        self.dropper
    }

    /// Makes a guard that holds `dropper`.
    pub fn new(dropper: F) -> (guard: Self)
        requires
            dropper.requires(()),
        ensures
            guard.dropper() == dropper,
    {
        Self { dropper }
    }

    /// Runs the guarded closure.
    pub fn run(&self)
        ensures
            self.dropper().ensures((), ()),
    {
        proof {
            use_type_invariant(self);
        }
        (self.dropper)();
    }
}

} // verus!
