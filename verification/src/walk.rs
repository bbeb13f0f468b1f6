//! The traversal machinery: the `Visitor` capability set and the two
//! dispatch operations, `walk_things` and `walk_chest`.
//!
//! `walk_things` performs exactly one dispatch step per node, in sequence
//! order, and never descends on its own; whether a traversal recurses into a
//! container is decided entirely by the visitor's handler for that
//! container.  `walk_chest` is the composed convenience walk over a chest's
//! two compartments, upper first, lower second.

use vstd::prelude::*;

use crate::tree::Apple;
use crate::tree::Banana;
use crate::tree::Chest;
use crate::tree::Pile;
use crate::tree::Thing;
use crate::tree::lemma_size_of_elem;
use crate::tree::size_of_chest;
use crate::tree::size_of_pile;
use crate::tree::size_of_things;

verus! {

/// An operation over the tree.  Every handler carries its meaning in the
/// trait itself: `*_step` says what the handler does to the visitor's
/// state, `*_ok` says when it may be called (counting visitors, for
/// example, must not be asked to count past the machine's limits).  The
/// dispatchers promise their effect in terms of these step functions, so
/// the effect of any walk is pinned down once the visitor's step functions
/// are.
///
/// The step and permission functions default to a no-op (the step keeps
/// the state, the permission is unconditional).  A visitor that does not
/// care about a variant gives that variant an empty handler body and
/// overrides neither function; a container handled that way is thereby
/// pruned, since no handler descends on its own.
pub trait Visitor: Sized {
    /// The type of the accumulated outcome of one traversal pass.
    type Value;

    /// The state after handling a chest.  The default handler is a no-op.
    open spec fn chest_step(self, c: Chest) -> Self {
        self
    }

    /// The state after handling a pile.  The default handler is a no-op.
    open spec fn pile_step(self, p: Pile) -> Self {
        self
    }

    /// The state after handling an apple.  The default handler is a no-op.
    open spec fn apple_step(self) -> Self {
        self
    }

    /// The state after handling a banana.  The default handler is a no-op.
    open spec fn banana_step(self) -> Self {
        self
    }

    /// When the chest handler may be called.
    open spec fn chest_ok(self, c: Chest) -> bool {
        true
    }

    /// When the pile handler may be called.
    open spec fn pile_ok(self, p: Pile) -> bool {
        true
    }

    /// When the apple handler may be called.
    open spec fn apple_ok(self) -> bool {
        true
    }

    /// When the banana handler may be called.
    open spec fn banana_ok(self) -> bool {
        true
    }

    /// What `value` may extract from the accumulated state.  A result type
    /// like `String` is only ever pinned down up to its view, so the
    /// extraction is given as a predicate rather than as a function.
    spec fn reports(self, r: Self::Value) -> bool;

    fn visit_chest(&mut self, c: &Chest)
        requires
            old(self).chest_ok(*c),
        ensures
            *final(self) == old(self).chest_step(*c),
        decreases size_of_chest(*c), 2int,
    ;

    fn visit_pile(&mut self, p: &Pile)
        requires
            old(self).pile_ok(*p),
        ensures
            *final(self) == old(self).pile_step(*p),
        decreases size_of_pile(*p), 2int,
    ;

    fn visit_apple(&mut self, a: &Apple)
        requires
            old(self).apple_ok(),
        ensures
            *final(self) == old(self).apple_step(),
    ;

    fn visit_banana(&mut self, b: &Banana)
        requires
            old(self).banana_ok(),
        ensures
            *final(self) == old(self).banana_step(),
    ;

    /// Extract the accumulated outcome once a traversal is complete.
    fn value(&self) -> (r: Self::Value)
        ensures
            self.reports(r),
    ;
}

/// The state a visitor is left in by one dispatch step on one node.
pub open spec fn step_thing<V: Visitor>(v: V, t: Thing) -> V {
    match t {
        Thing::Chest(c) => v.chest_step(c),
        Thing::Pile(p) => v.pile_step(p),
        Thing::Apple(_) => v.apple_step(),
        Thing::Banana(_) => v.banana_step(),
    }
}

/// Whether one dispatch step on one node is permitted.
pub open spec fn thing_ok<V: Visitor>(v: V, t: Thing) -> bool {
    match t {
        Thing::Chest(c) => v.chest_ok(c),
        Thing::Pile(p) => v.pile_ok(p),
        Thing::Apple(_) => v.apple_ok(),
        Thing::Banana(_) => v.banana_ok(),
    }
}

/// The state a visitor is left in by dispatching, in order, every node of
/// `s` from position `i` on.
pub open spec fn walk_steps_from<V: Visitor>(v: V, s: Seq<Thing>, i: int) -> V
    decreases s.len() - i,
{
    if i < 0 || i >= s.len() {
        v
    } else {
        walk_steps_from(step_thing(v, s[i]), s, i + 1)
    }
}

/// The state a visitor is left in by dispatching every node of `s` in order.
pub open spec fn walk_steps<V: Visitor>(v: V, s: Seq<Thing>) -> V {
    walk_steps_from(v, s, 0)
}

/// Whether every dispatch step along a walk of `s` from position `i` on is
/// permitted in the state it is reached in.
pub open spec fn walk_ok_from<V: Visitor>(v: V, s: Seq<Thing>, i: int) -> bool
    decreases s.len() - i,
{
    i < 0 || i >= s.len() || (thing_ok(v, s[i]) && walk_ok_from(step_thing(v, s[i]), s, i + 1))
}

/// Whether every dispatch step along a walk of `s` is permitted.
pub open spec fn walk_ok<V: Visitor>(v: V, s: Seq<Thing>) -> bool {
    walk_ok_from(v, s, 0)
}

/// The state a visitor is left in by `walk_chest`: the upper compartment is
/// walked first, then the lower.
pub open spec fn chest_walk_steps<V: Visitor>(v: V, c: Chest) -> V {
    walk_steps(walk_steps(v, c.upper_compartment@), c.lower_compartment@)
}

/// Whether every dispatch step of a `walk_chest` is permitted.
pub open spec fn chest_walk_ok<V: Visitor>(v: V, c: Chest) -> bool {
    walk_ok(v, c.upper_compartment@) && walk_ok(
        walk_steps(v, c.upper_compartment@),
        c.lower_compartment@,
    )
}

/// Dispatch each node of `things` to its handler, in sequence order: one
/// handler call per node, no node skipped, no node visited twice, and no
/// descent beyond what the handlers themselves perform.
pub fn walk_things<V: Visitor>(visitor: &mut V, things: &[Thing])
    requires
        walk_ok(*old(visitor), things@),
    ensures
        *final(visitor) == walk_steps(*old(visitor), things@),
    decreases size_of_things(things@), 0int,
{
    let n: usize = things.len();
    let mut i: usize = 0;
    while i < n
        invariant
            i <= n,
            n == things@.len(),
            walk_ok_from(*visitor, things@, i as int),
            walk_steps_from(*visitor, things@, i as int) == walk_steps(*old(visitor), things@),
        decreases n - i,
    {
        proof {
            lemma_size_of_elem(things@, i as int);
        }
        match &things[i] {
            Thing::Chest(chest) => visitor.visit_chest(chest),
            Thing::Pile(pile) => visitor.visit_pile(pile),
            Thing::Apple(apple) => visitor.visit_apple(apple),
            Thing::Banana(banana) => visitor.visit_banana(banana),
        }
        i = i + 1;
    }
}

/// Walk a visitor through an entire chest without the visitor needing to
/// know the chest's slot names: the upper compartment in full, then the
/// lower compartment in full.
pub fn walk_chest<V: Visitor>(visitor: &mut V, chest: &Chest)
    requires
        chest_walk_ok(*old(visitor), *chest),
    ensures
        *final(visitor) == chest_walk_steps(*old(visitor), *chest),
    decreases size_of_chest(*chest), 1int,
{
    walk_things(visitor, chest.upper_compartment.as_slice());
    walk_things(visitor, chest.lower_compartment.as_slice());
}

/// A walk over an empty sequence invokes no handler and leaves the visitor
/// exactly as it was.
pub proof fn lemma_walk_empty<V: Visitor>(v: V, s: Seq<Thing>)
    requires
        s.len() == 0,
    ensures
        walk_steps(v, s) == v,
        walk_ok(v, s),
{
}

/// Walking a chest whose lower compartment is empty visits the nodes of the
/// upper compartment and only those.
pub proof fn lemma_walk_chest_upper_only<V: Visitor>(v: V, c: Chest)
    requires
        c.lower_compartment@.len() == 0,
    ensures
        chest_walk_steps(v, c) == walk_steps(v, c.upper_compartment@),
        chest_walk_ok(v, c) == walk_ok(v, c.upper_compartment@),
{
}

/// Walks are deterministic: two visitors in equal states, walked over the
/// same sequence, end in equal states, and what each may then report is the
/// same.
pub proof fn lemma_walk_deterministic<V: Visitor>(v1: V, v2: V, s: Seq<Thing>)
    requires
        v1 == v2,
    ensures
        walk_steps(v1, s) == walk_steps(v2, s),
        forall|r: V::Value|
            walk_steps(v1, s).reports(r) == walk_steps(v2, s).reports(r),
{
}

} // verus!
