//! The decisions of requesting a dependency from a runtime scope: a dependency that can be
//! instantiated is ready; otherwise the requester waits on a notification channel of the scope,
//! subscribing to the one already there or creating it.
use vstd::prelude::*;

verus! {

/// The capacity of a notification channel created for a dependency.
pub const WAIT_CHANNEL_CAPACITY: usize = 8;

/// The kinds of dependencies.
#[derive(Clone, Copy, Debug, PartialEq, Eq, Structural)]
pub enum DependencyKind {
    /// A system of the scope.
    System,
    /// An actor's event handle.
    Actor,
    /// A resource.
    Resource,
}

/// How to wait for a dependency that is not ready.
#[derive(Clone, Copy, Debug, PartialEq, Eq, Structural)]
pub enum WaitPlan {
    /// Subscribe to the scope's notification channel for it.
    Subscribe,
    /// Create a notification channel of this capacity, add its sender to the scope and wait on
    /// its receiver.
    CreateChannel { capacity: usize },
}

/// Subscribe when the scope already has a notification channel for the dependency; otherwise
/// create one of capacity [`WAIT_CHANNEL_CAPACITY`].
pub open spec fn spec_wait_plan(has_sender: bool) -> WaitPlan {
    if has_sender {
        WaitPlan::Subscribe
    } else {
        WaitPlan::CreateChannel { capacity: WAIT_CHANNEL_CAPACITY }
    }
}

/// Whether the scope holds a notification channel for the dependency after a request that
/// followed `plan`: a created channel's sender is added to the scope; a subscription adds
/// nothing.
pub open spec fn has_sender_after(has_sender: bool, plan: WaitPlan) -> bool {
    has_sender || plan is CreateChannel
}

/// Two failed requests for a dependency on one scope share one channel: the first creates one
/// only when the scope had none, and the second then subscribes to it, adding nothing.
pub proof fn lemma_failed_requests_share_channel(has_sender: bool)
    ensures
        spec_wait_plan(has_sender) is CreateChannel <==> !has_sender,
        has_sender_after(has_sender, spec_wait_plan(has_sender)),
        spec_wait_plan(has_sender_after(has_sender, spec_wait_plan(has_sender))) == WaitPlan::Subscribe,
{
}

/// Decides how a failed request for a dependency waits (see [`spec_wait_plan`]).
pub fn wait_plan(has_sender: bool) -> (r: WaitPlan)
    ensures
        r == spec_wait_plan(has_sender),
{
    if has_sender {
        WaitPlan::Subscribe
    } else {
        WaitPlan::CreateChannel { capacity: WAIT_CHANNEL_CAPACITY }
    }
}

/// The number of `true` entries.
pub open spec fn count_true(flags: Seq<bool>) -> nat
    decreases flags.len(),
{
    if flags.len() == 0 {
        0
    } else {
        count_true(flags.drop_last()) + if flags.last() {
            1nat
        } else {
            0nat
        }
    }
}

/// `count_true` counts: it is the number of `true` entries, and it reaches the length exactly
/// when every entry is `true`.
pub proof fn lemma_count_true(flags: Seq<bool>)
    ensures
        count_true(flags) == flags.filter(|b: bool| b).len(),
        count_true(flags) <= flags.len(),
        count_true(flags) == flags.len() <==> forall|i: int| 0 <= i < flags.len() ==> #[trigger] flags[i],
    decreases flags.len(),
{
    reveal_with_fuel(Seq::filter, 1);
    if flags.len() > 0 {
        let init = flags.drop_last();
        lemma_count_true(init);
        assert forall|i: int| 0 <= i < init.len() implies #[trigger] init[i] == flags[i] by {}
        if count_true(flags) == flags.len() {
            assert forall|i: int| 0 <= i < flags.len() implies #[trigger] flags[i] by {
                if i < flags.len() - 1 {
                    assert(init[i] == flags[i]);
                }
            }
        }
        if forall|i: int| 0 <= i < flags.len() ==> #[trigger] flags[i] {
            assert(flags[flags.len() - 1]);
            assert forall|i: int| 0 <= i < init.len() implies #[trigger] init[i] by {
                assert(flags[i]);
            }
        }
    }
}

/// The number of dependencies of a group that are ready, given whether each one is.
pub fn count_ready(ready: &[bool]) -> (n: usize)
    ensures
        n == count_true(ready@),
        n == ready@.filter(|b: bool| b).len(),
        n <= ready@.len(),
        n == ready@.len() <==> forall|i: int| 0 <= i < ready@.len() ==> #[trigger] ready@[i],
{
    proof {
        lemma_count_true(ready@);
    }
    let mut n: usize = 0;
    let mut i: usize = 0;
    while i < ready.len()
        invariant
            i <= ready@.len(),
            n == count_true(ready@.subrange(0, i as int)),
            n <= i,
        decreases ready.len() - i,
    {
        assert(ready@.subrange(0, i + 1).drop_last() =~= ready@.subrange(0, i as int));
        if ready[i] {
            n = n + 1;
        }
        i = i + 1;
    }
    assert(ready@.subrange(0, i as int) =~= ready@);
    n
}

/// A group of dependencies is ready when every one of them is.
pub fn all_ready(total: usize, ready: usize) -> (r: bool)
    ensures
        r == (total == ready),
{
    total == ready
}

/// The word that names a kind of dependency in messages.
pub open spec fn kind_word(kind: DependencyKind) -> Seq<char> {
    match kind {
        DependencyKind::System => "system"@,
        DependencyKind::Actor => "actor"@,
        DependencyKind::Resource => "resource"@,
    }
}

/// The message of a dependency that is missing: `Missing <kind> dependency: <name of the type>`.
pub fn missing_dependency(kind: DependencyKind, dependency_name: &str) -> (r: String)
    ensures
        r@ == "Missing "@ + kind_word(kind) + " dependency: "@ + dependency_name@,
{
    let word = match kind {
        DependencyKind::System => "system",
        DependencyKind::Actor => "actor",
        DependencyKind::Resource => "resource",
    };
    String::from_str("Missing ").concat(word).concat(" dependency: ").concat(dependency_name)
}

} // verus!
