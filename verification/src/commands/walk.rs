//! Going through a command's targets: each is tried in order, a failure is
//! reported and does not stop the others, and the command fails (with its
//! messages already printed) exactly when one of them failed.
use vstd::prelude::*;
use crate::text::{owned, views};
use crate::types::errors::ShellError;

verus! {

/// The targets of a command, how many have been handed out, and whether one
/// of them failed.
pub struct TargetWalk {
    targets: Vec<String>,
    next: usize,
    failed: bool,
}

impl TargetWalk {
    #[verifier::type_invariant]
    spec fn inv(self) -> bool {
        self.next <= self.targets.len()
    }

    /// The targets, in order.
    pub closed spec fn items(self) -> Seq<Seq<char>> {
        views(self.targets@)
    }

    /// How many targets have been handed out.
    pub closed spec fn position(self) -> nat {
        self.next as nat
    }

    /// Whether a target has failed so far.
    pub closed spec fn has_failed(self) -> bool {
        self.failed
    }

    /// A walk over `targets`, none handed out, none failed.
    pub fn new(targets: Vec<String>) -> (w: Self)
        ensures
            w.items() == views(targets@),
            w.position() == 0,
            !w.has_failed(),
    {
        TargetWalk { targets, next: 0, failed: false }
    }

    /// How many targets there are.
    pub fn count(&self) -> (n: usize)
        ensures
            n == self.items().len(),
    {
        self.targets.len()
    }

    /// The next target with its index, or `None` when all have been handed
    /// out.
    pub fn next_target(&mut self) -> (t: Option<(usize, String)>)
        ensures
            final(self).items() == old(self).items(),
            final(self).has_failed() == old(self).has_failed(),
            old(self).position() < old(self).items().len() ==> {
                &&& t matches Some((i, s)) && i == old(self).position() && s@ == old(
                    self,
                ).items()[i as int]
                &&& final(self).position() == old(self).position() + 1
            },
            old(self).position() >= old(self).items().len() ==> t is None && final(self).position()
                == old(self).position(),
    {
        proof {
            use_type_invariant(&*self);
        }
        if self.next < self.targets.len() {
            let i = self.next;
            let s = owned(self.targets[i].as_str());
            self.next = i + 1;
            assert(views(self.targets@)[i as int] == self.targets@[i as int]@);
            Some((i, s))
        } else {
            None
        }
    }

    /// Notes how the current target went: a failure message is handed back
    /// for standard error and marks the command failed; the walk goes on.
    pub fn report(&mut self, failure: Option<String>) -> (print: Option<String>)
        ensures
            final(self).items() == old(self).items(),
            final(self).position() == old(self).position(),
            final(self).has_failed() == (old(self).has_failed() || failure is Some),
            print == failure,
    {
        proof {
            use_type_invariant(&*self);
        }
        if failure.is_some() {
            self.failed = true;
        }
        failure
    }

    /// How the command ends: an empty failure when a target failed.
    pub fn finish(&self) -> (r: Result<(), ShellError>)
        ensures
            self.has_failed() ==> (r matches Err(ShellError::Generic(m)) && m@.len() == 0),
            !self.has_failed() ==> r is Ok,
    {
        super::finish(self.failed)
    }
}

/// Whether a walk has failed after targets went as `outcomes` says (`true`
/// for a failure), reported in order.
pub open spec fn failed_after(outcomes: Seq<bool>) -> bool
    decreases outcomes.len(),
{
    if outcomes.len() == 0 {
        false
    } else {
        failed_after(outcomes.drop_last()) || outcomes.last()
    }
}

/// Reporting the targets' outcomes one after the other leaves the command
/// failed exactly when one of them failed, wherever it stood.
pub proof fn law_fails_iff_some_target_failed(outcomes: Seq<bool>)
    ensures
        failed_after(outcomes) == exists|i: int| 0 <= i < outcomes.len() && #[trigger] outcomes[i],
    decreases outcomes.len(),
{
    if outcomes.len() > 0 {
        let front = outcomes.drop_last();
        law_fails_iff_some_target_failed(front);
        if failed_after(front) {
            let i = choose|i: int| 0 <= i < front.len() && #[trigger] front[i];
            assert(outcomes[i] == front[i]);
        }
        if exists|i: int| 0 <= i < outcomes.len() && #[trigger] outcomes[i] {
            let i = choose|i: int| 0 <= i < outcomes.len() && #[trigger] outcomes[i];
            if i < front.len() {
                assert(front[i] == outcomes[i]);
            }
        }
        assert(outcomes.last() == outcomes[outcomes.len() - 1]);
    }
}

} // verus!
