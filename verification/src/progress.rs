//! Telling how far loading has come.

use vstd::prelude::*;

verus! {

/// The numbers from one to `n`.
pub open spec fn counted(n: nat) -> Seq<usize> {
    Seq::new(n, |i: int| (i + 1) as usize)
}

/// A reporter that is told how many layers are loaded, and the numbers that it was told.
pub struct ProgressReporter<PF> {
    tell: PF,
    told: Ghost<Seq<usize>>,
}

impl<PF> ProgressReporter<PF> {
    /// The numbers that the reporter was told, the first one first.
    pub closed spec fn told(self) -> Seq<usize> {
        self.told@
    }

    /// Whether the reporter became `later` by being told `told`.
    pub open spec fn hears(self, told: Seq<usize>, later: ProgressReporter<PF>) -> bool {
        later.told() == self.told() + told && later.listener() == self.listener()
    }

    /// A reporter that is told nothing stays as it is.
    pub proof fn hears_nothing(self)
        ensures
            self.hears(Seq::<usize>::empty(), self),
    {
        assert(self.told() + Seq::<usize>::empty() =~= self.told());
    }

    /// What it passes them on to.
    pub closed spec fn listener(self) -> PF {
        self.tell
    }
}

impl<PF> ProgressReporter<PF> where PF: Fn(usize) {
    /// Whether the listener takes every number.
    pub open spec fn is_callable(self) -> bool {
        forall|n: usize| #[trigger] call_requires(self.listener(), (n,))
    }

    /// A reporter that was told nothing yet, and passes on to `tell` what it is told.
    pub fn new(tell: PF) -> (reporter: ProgressReporter<PF>)
        ensures
            reporter.told() == Seq::<usize>::empty(),
            reporter.listener() == tell,
    {
        ProgressReporter { tell, told: Ghost(Seq::empty()) }
    }

    /// Tells the reporter that `n` layers are loaded.
    pub fn set_progress(&mut self, n: usize)
        requires
            old(self).is_callable(),
        ensures
            final(self).told() == old(self).told().push(n),
            final(self).listener() == old(self).listener(),
            call_ensures(old(self).listener(), (n,), ()),
    {
        assert(call_requires(self.listener(), (n,)));
        (self.tell)(n);
        self.told = Ghost(self.told@.push(n));
    }
}

} // verus!
