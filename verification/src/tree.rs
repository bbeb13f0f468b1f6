//! The tree of things: two container kinds holding ordered child sequences,
//! and two leaf kinds carrying nothing but their identity.
//!
//! Alongside the data types live the specification-level measures that the
//! rest of the crate speaks of: the exact number of apples and bananas in a
//! subtree (`fruit_in_thing` and friends), the same count restricted to the
//! part of the tree reachable without entering a pile (`pruned_fruit_*`),
//! and a node count (`size_of_*`) used as a termination measure by the
//! recursive walks.

use vstd::prelude::*;

verus! {

/// One node of the tree: a closed union over four variants.  Chests and
/// piles are containers of further things; apples and bananas are leaves.
pub enum Thing {
    Chest(Chest),
    Pile(Pile),
    Apple(Apple),
    Banana(Banana),
}

/// A container with two named, ordered child sequences.
pub struct Chest {
    pub upper_compartment: Vec<Thing>,
    pub lower_compartment: Vec<Thing>,
}

/// A container with three named, ordered child sequences.
pub struct Pile {
    pub surface: Vec<Thing>,
    pub inside: Vec<Thing>,
    pub lost_forever: Vec<Thing>,
}

/// A leaf with no payload.
pub struct Apple;

/// A leaf with no payload.
pub struct Banana;

/// A pair of leaf tallies, used by the specification functions below and by
/// the contracts of the counting visitors.
pub struct FruitCount {
    pub apples: nat,
    pub bananas: nat,
}

impl FruitCount {
    pub open spec fn zero() -> FruitCount {
        FruitCount { apples: 0, bananas: 0 }
    }

    pub open spec fn plus(self, other: FruitCount) -> FruitCount {
        FruitCount { apples: self.apples + other.apples, bananas: self.bananas + other.bananas }
    }

    pub open spec fn one_apple() -> FruitCount {
        FruitCount { apples: 1, bananas: 0 }
    }

    pub open spec fn one_banana() -> FruitCount {
        FruitCount { apples: 0, bananas: 1 }
    }
}

/// How many nodes a thing holds, itself included.  This is the measure by
/// which the recursive walks terminate.
pub open spec fn size_of_thing(t: Thing) -> nat
    decreases t,
{
    match t {
        Thing::Chest(c) => 1 + size_of_chest(c),
        Thing::Pile(p) => 1 + size_of_pile(p),
        Thing::Apple(_) => 1,
        Thing::Banana(_) => 1,
    }
}

/// The node count of everything inside a chest.
pub open spec fn size_of_chest(c: Chest) -> nat
    decreases c,
{
    size_of_things(c.upper_compartment@) + size_of_things(c.lower_compartment@)
}

/// The node count of everything inside a pile.
pub open spec fn size_of_pile(p: Pile) -> nat
    decreases p,
{
    size_of_things(p.surface@) + size_of_things(p.inside@) + size_of_things(p.lost_forever@)
}

/// The total node count of a sequence of things.
pub open spec fn size_of_things(s: Seq<Thing>) -> nat
    decreases s,
{
    if s.len() == 0 {
        0
    } else {
        size_of_thing(s[0]) + size_of_things(s.subrange(1, s.len() as int))
    }
}

/// No element of a sequence is larger than the whole sequence.
pub proof fn lemma_size_of_elem(s: Seq<Thing>, i: int)
    requires
        0 <= i < s.len(),
    ensures
        size_of_thing(s[i]) <= size_of_things(s),
    decreases s.len(),
{
    if i > 0 {
        lemma_size_of_elem(s.subrange(1, s.len() as int), i - 1);
    }
}

/// The apples and bananas in a thing, counted over the whole subtree.
pub open spec fn fruit_in_thing(t: Thing) -> FruitCount
    decreases t,
{
    match t {
        Thing::Chest(c) => fruit_in_chest(c),
        Thing::Pile(p) => fruit_in_pile(p),
        Thing::Apple(_) => FruitCount::one_apple(),
        Thing::Banana(_) => FruitCount::one_banana(),
    }
}

/// The apples and bananas in both compartments of a chest.
pub open spec fn fruit_in_chest(c: Chest) -> FruitCount
    decreases c,
{
    fruit_in_things(c.upper_compartment@).plus(fruit_in_things(c.lower_compartment@))
}

/// The apples and bananas in all three slots of a pile.
pub open spec fn fruit_in_pile(p: Pile) -> FruitCount
    decreases p,
{
    fruit_in_things(p.surface@).plus(fruit_in_things(p.inside@)).plus(
        fruit_in_things(p.lost_forever@),
    )
}

/// The apples and bananas in a sequence of things, in all their subtrees.
pub open spec fn fruit_in_things(s: Seq<Thing>) -> FruitCount
    decreases s,
{
    if s.len() == 0 {
        FruitCount::zero()
    } else {
        fruit_in_thing(s[0]).plus(fruit_in_things(s.subrange(1, s.len() as int)))
    }
}

/// The apples and bananas reachable from a thing without ever entering a
/// pile: a pile contributes nothing, however full it may be.
pub open spec fn pruned_fruit_in_thing(t: Thing) -> FruitCount
    decreases t,
{
    match t {
        Thing::Chest(c) => pruned_fruit_in_chest(c),
        Thing::Pile(_) => FruitCount::zero(),
        Thing::Apple(_) => FruitCount::one_apple(),
        Thing::Banana(_) => FruitCount::one_banana(),
    }
}

/// The pile-free count over both compartments of a chest.
pub open spec fn pruned_fruit_in_chest(c: Chest) -> FruitCount
    decreases c,
{
    pruned_fruit_in_things(c.upper_compartment@).plus(
        pruned_fruit_in_things(c.lower_compartment@),
    )
}

/// The pile-free count over a sequence of things.
pub open spec fn pruned_fruit_in_things(s: Seq<Thing>) -> FruitCount
    decreases s,
{
    if s.len() == 0 {
        FruitCount::zero()
    } else {
        pruned_fruit_in_thing(s[0]).plus(pruned_fruit_in_things(s.subrange(1, s.len() as int)))
    }
}

/// A pruned count never exceeds the full count: pruning only drops leaves,
/// it cannot invent them.
pub proof fn lemma_pruned_at_most_full(t: Thing)
    ensures
        pruned_fruit_in_thing(t).apples <= fruit_in_thing(t).apples,
        pruned_fruit_in_thing(t).bananas <= fruit_in_thing(t).bananas,
    decreases t,
{
    match t {
        Thing::Chest(c) => {
            lemma_pruned_at_most_full_things(c.upper_compartment@);
            lemma_pruned_at_most_full_things(c.lower_compartment@);
        },
        _ => {},
    }
}

/// The sequence form of `lemma_pruned_at_most_full`.
pub proof fn lemma_pruned_at_most_full_things(s: Seq<Thing>)
    ensures
        pruned_fruit_in_things(s).apples <= fruit_in_things(s).apples,
        pruned_fruit_in_things(s).bananas <= fruit_in_things(s).bananas,
    decreases s,
{
    if s.len() > 0 {
        lemma_pruned_at_most_full(s[0]);
        lemma_pruned_at_most_full_things(s.subrange(1, s.len() as int));
    }
}

/// Appending a thing onto a sequence adds exactly that thing's fruit onto
/// the sequence's total.
pub proof fn lemma_fruit_in_things_push(s: Seq<Thing>, t: Thing)
    ensures
        fruit_in_things(s.push(t)) == fruit_in_things(s).plus(fruit_in_thing(t)),
    decreases s.len(),
{
    if s.len() == 0 {
        assert(s.push(t).len() == 1);
        assert(s.push(t)[0] == t);
        assert(s.push(t).subrange(1, 1) =~= Seq::<Thing>::empty());
        assert(fruit_in_things(s.push(t).subrange(1, 1)) == FruitCount::zero());
        assert(fruit_in_things(s) == FruitCount::zero());
        assert(fruit_in_things(s.push(t)) == fruit_in_thing(t).plus(FruitCount::zero()));
    } else {
        assert(s.push(t)[0] == s[0]);
        assert(s.push(t).subrange(1, (s.len() + 1) as int) =~= s.subrange(
            1,
            s.len() as int,
        ).push(t));
        lemma_fruit_in_things_push(s.subrange(1, s.len() as int), t);
        assert(fruit_in_things(s.push(t)) == fruit_in_thing(s[0]).plus(
            fruit_in_things(s.subrange(1, s.len() as int)).plus(fruit_in_thing(t)),
        ));
        assert(fruit_in_things(s) == fruit_in_thing(s[0]).plus(
            fruit_in_things(s.subrange(1, s.len() as int)),
        ));
    }
}

/// The pile-free form of `lemma_fruit_in_things_push`.
pub proof fn lemma_pruned_fruit_in_things_push(s: Seq<Thing>, t: Thing)
    ensures
        pruned_fruit_in_things(s.push(t)) == pruned_fruit_in_things(s).plus(
            pruned_fruit_in_thing(t),
        ),
    decreases s.len(),
{
    if s.len() == 0 {
        assert(s.push(t).len() == 1);
        assert(s.push(t)[0] == t);
        assert(s.push(t).subrange(1, 1) =~= Seq::<Thing>::empty());
        assert(pruned_fruit_in_things(s.push(t).subrange(1, 1)) == FruitCount::zero());
        assert(pruned_fruit_in_things(s) == FruitCount::zero());
        assert(pruned_fruit_in_things(s.push(t)) == pruned_fruit_in_thing(t).plus(
            FruitCount::zero(),
        ));
    } else {
        assert(s.push(t)[0] == s[0]);
        assert(s.push(t).subrange(1, (s.len() + 1) as int) =~= s.subrange(
            1,
            s.len() as int,
        ).push(t));
        lemma_pruned_fruit_in_things_push(s.subrange(1, s.len() as int), t);
        assert(pruned_fruit_in_things(s.push(t)) == pruned_fruit_in_thing(s[0]).plus(
            pruned_fruit_in_things(s.subrange(1, s.len() as int)).plus(pruned_fruit_in_thing(t)),
        ));
        assert(pruned_fruit_in_things(s) == pruned_fruit_in_thing(s[0]).plus(
            pruned_fruit_in_things(s.subrange(1, s.len() as int)),
        ));
    }
}

/// The shape of the nested chest of the sample tree: one apple up, two
/// bananas down.
pub open spec fn is_sample_nested_chest(c: Chest) -> bool {
    &&& c.upper_compartment@ == seq![Thing::Apple(Apple)]
    &&& c.lower_compartment@ == seq![Thing::Banana(Banana), Thing::Banana(Banana)]
}

/// The shape of the pile of the sample tree: two apples and a banana on
/// the surface, an apple inside, a banana lost forever.
pub open spec fn is_sample_pile(p: Pile) -> bool {
    &&& p.surface@ == seq![Thing::Apple(Apple), Thing::Apple(Apple), Thing::Banana(Banana)]
    &&& p.inside@ == seq![Thing::Apple(Apple)]
    &&& p.lost_forever@ == seq![Thing::Banana(Banana)]
}

/// The shape of the sample tree: the nested chest alone in the upper
/// compartment; a loose apple and the pile, in that order, in the lower.
pub open spec fn is_sample_chest(c: Chest) -> bool {
    &&& c.upper_compartment@.len() == 1
    &&& c.upper_compartment@[0] is Chest
    &&& is_sample_nested_chest(c.upper_compartment@[0]->Chest_0)
    &&& c.lower_compartment@.len() == 2
    &&& c.lower_compartment@[0] == Thing::Apple(Apple)
    &&& c.lower_compartment@[1] is Pile
    &&& is_sample_pile(c.lower_compartment@[1]->Pile_0)
}

/// The sample tree, exactly as `is_sample_chest` describes it.  Five apples
/// and four bananas in all; two of each are reachable without entering the
/// pile.
pub fn sample_chest() -> (c: Chest)
    ensures
        is_sample_chest(c),
        fruit_in_chest(c) == (FruitCount { apples: 5, bananas: 4 }),
        pruned_fruit_in_chest(c) == (FruitCount { apples: 2, bananas: 2 }),
{
    let mut nested_upper: Vec<Thing> = Vec::new();
    let ghost nu0 = nested_upper@;
    nested_upper.push(Thing::Apple(Apple));
    let mut nested_lower: Vec<Thing> = Vec::new();
    let ghost nl0 = nested_lower@;
    nested_lower.push(Thing::Banana(Banana));
    let ghost nl1 = nested_lower@;
    nested_lower.push(Thing::Banana(Banana));
    let nested = Chest { upper_compartment: nested_upper, lower_compartment: nested_lower };
    proof {
        lemma_fruit_in_things_push(nu0, Thing::Apple(Apple));
        lemma_fruit_in_things_push(nl0, Thing::Banana(Banana));
        lemma_fruit_in_things_push(nl1, Thing::Banana(Banana));
        lemma_pruned_fruit_in_things_push(nu0, Thing::Apple(Apple));
        lemma_pruned_fruit_in_things_push(nl0, Thing::Banana(Banana));
        lemma_pruned_fruit_in_things_push(nl1, Thing::Banana(Banana));
        assert(fruit_in_chest(nested) == (FruitCount { apples: 1, bananas: 2 }));
        assert(pruned_fruit_in_chest(nested) == (FruitCount { apples: 1, bananas: 2 }));
        assert(nested.upper_compartment@ =~= seq![Thing::Apple(Apple)]);
        assert(nested.lower_compartment@ =~= seq![
            Thing::Banana(Banana),
            Thing::Banana(Banana),
        ]);
    }
    let mut surface: Vec<Thing> = Vec::new();
    let ghost su0 = surface@;
    surface.push(Thing::Apple(Apple));
    let ghost su1 = surface@;
    surface.push(Thing::Apple(Apple));
    let ghost su2 = surface@;
    surface.push(Thing::Banana(Banana));
    let mut inside: Vec<Thing> = Vec::new();
    let ghost in0 = inside@;
    inside.push(Thing::Apple(Apple));
    let mut lost: Vec<Thing> = Vec::new();
    let ghost lo0 = lost@;
    lost.push(Thing::Banana(Banana));
    let pile = Pile { surface, inside, lost_forever: lost };
    proof {
        lemma_fruit_in_things_push(su0, Thing::Apple(Apple));
        lemma_fruit_in_things_push(su1, Thing::Apple(Apple));
        lemma_fruit_in_things_push(su2, Thing::Banana(Banana));
        lemma_fruit_in_things_push(in0, Thing::Apple(Apple));
        lemma_fruit_in_things_push(lo0, Thing::Banana(Banana));
        assert(fruit_in_things(pile.surface@) == (FruitCount { apples: 2, bananas: 1 }));
        assert(fruit_in_things(pile.inside@) == (FruitCount { apples: 1, bananas: 0 }));
        assert(fruit_in_things(pile.lost_forever@) == (FruitCount { apples: 0, bananas: 1 }));
        assert(fruit_in_pile(pile) == (FruitCount { apples: 3, bananas: 2 }));
        assert(pile.surface@ =~= seq![
            Thing::Apple(Apple),
            Thing::Apple(Apple),
            Thing::Banana(Banana),
        ]);
        assert(pile.inside@ =~= seq![Thing::Apple(Apple)]);
        assert(pile.lost_forever@ =~= seq![Thing::Banana(Banana)]);
        assert(is_sample_pile(pile));
    }
    let mut upper: Vec<Thing> = Vec::new();
    let ghost up0 = upper@;
    upper.push(Thing::Chest(nested));
    let mut lower: Vec<Thing> = Vec::new();
    let ghost lw0 = lower@;
    lower.push(Thing::Apple(Apple));
    let ghost lw1 = lower@;
    lower.push(Thing::Pile(pile));
    proof {
        lemma_fruit_in_things_push(up0, Thing::Chest(nested));
        lemma_fruit_in_things_push(lw0, Thing::Apple(Apple));
        lemma_fruit_in_things_push(lw1, Thing::Pile(pile));
        lemma_pruned_fruit_in_things_push(up0, Thing::Chest(nested));
        lemma_pruned_fruit_in_things_push(lw0, Thing::Apple(Apple));
        lemma_pruned_fruit_in_things_push(lw1, Thing::Pile(pile));
        assert(fruit_in_things(upper@) == (FruitCount { apples: 1, bananas: 2 }));
        assert(fruit_in_things(lower@) == (FruitCount { apples: 4, bananas: 2 }));
        assert(pruned_fruit_in_things(upper@) == (FruitCount { apples: 1, bananas: 2 }));
        assert(pruned_fruit_in_things(lower@) == (FruitCount { apples: 1, bananas: 0 }));
    }
    let c = Chest { upper_compartment: upper, lower_compartment: lower };
    proof {
        assert(c.upper_compartment@[0] == Thing::Chest(nested));
        assert(c.lower_compartment@[0] == Thing::Apple(Apple));
        assert(c.lower_compartment@[1] == Thing::Pile(pile));
        assert(is_sample_chest(c));
    }
    c
}

} // verus!
