//! Two example visitors over the tree: a counter that descends into every
//! container, and a counter that leaves piles alone.
//!
//! Each visitor's container handlers recurse through a dispatch loop fixed
//! to that visitor's type (`walk_things_inventory`, `walk_things_chests`):
//! the loops dispatch exactly as `walk::walk_things` does, and the lemmas
//! `lemma_inventory_walk_counts` and `lemma_pruning_walk_counts` tie the
//! generic walk over these visitors to the hand counts of `tree`.

use vstd::prelude::*;

use crate::text::inventory_text;
use crate::text::render_inventory;
use crate::tree::Apple;
use crate::tree::Banana;
use crate::tree::Chest;
use crate::tree::FruitCount;
use crate::tree::Pile;
use crate::tree::Thing;
use crate::tree::fruit_in_chest;
use crate::tree::fruit_in_pile;
use crate::tree::fruit_in_thing;
use crate::tree::fruit_in_things;
use crate::tree::lemma_size_of_elem;
use crate::tree::pruned_fruit_in_chest;
use crate::tree::pruned_fruit_in_thing;
use crate::tree::pruned_fruit_in_things;
use crate::tree::size_of_chest;
use crate::tree::size_of_pile;
use crate::tree::size_of_things;
use crate::walk::Visitor;
use crate::walk::chest_walk_ok;
use crate::walk::chest_walk_steps;
use crate::walk::step_thing;
use crate::walk::thing_ok;
use crate::walk::walk_ok;
use crate::walk::walk_ok_from;
use crate::walk::walk_steps;
use crate::walk::walk_steps_from;

verus! {

/// A visitor that recurses into every container slot unconditionally and
/// tallies each leaf kind it encounters.
pub struct InventoryCounter {
    pub apples: usize,
    pub bananas: usize,
}

impl InventoryCounter {
    /// The state with `extra` added onto both tallies.
    pub open spec fn counted(self, extra: FruitCount) -> InventoryCounter {
        InventoryCounter {
            apples: (self.apples + extra.apples) as usize,
            bananas: (self.bananas + extra.bananas) as usize,
        }
    }

    /// Whether `extra` still fits into both tallies.
    pub open spec fn can_count(self, extra: FruitCount) -> bool {
        &&& self.apples + extra.apples <= usize::MAX
        &&& self.bananas + extra.bananas <= usize::MAX
    }
}

impl Default for InventoryCounter {
    /// A fresh counter with both tallies at zero.
    fn default() -> (r: InventoryCounter)
        ensures
            r.apples == 0,
            r.bananas == 0,
    {
        InventoryCounter { apples: 0, bananas: 0 }
    }
}

/// The dispatch loop of `walk::walk_things`, fixed to the inventory
/// counter: one handler call per node, in sequence order.  It adds exactly
/// the sequence's fruit totals onto the tallies.
fn walk_things_inventory(v: &mut InventoryCounter, things: &[Thing])
    requires
        old(v).can_count(fruit_in_things(things@)),
    ensures
        *final(v) == old(v).counted(fruit_in_things(things@)),
    decreases size_of_things(things@), 0int,
{
    let n: usize = things.len();
    let mut i: usize = 0;
    proof {
        assert(things@.subrange(0, n as int) =~= things@);
    }
    while i < n
        invariant
            i <= n,
            n == things@.len(),
            v.can_count(fruit_in_things(things@.subrange(i as int, n as int))),
            v.counted(fruit_in_things(things@.subrange(i as int, n as int))) == old(v).counted(
                fruit_in_things(things@),
            ),
        decreases n - i,
    {
        let ghost prev = *v;
        proof {
            lemma_size_of_elem(things@, i as int);
            assert(things@.subrange(i as int, n as int)[0] == things@[i as int]);
            assert(things@.subrange(i as int, n as int).subrange(1, (n - i) as int) =~= things@
                .subrange(i as int + 1, n as int));
            assert(fruit_in_things(things@.subrange(i as int, n as int)) == fruit_in_thing(
                things@[i as int],
            ).plus(fruit_in_things(things@.subrange(i as int + 1, n as int))));
        }
        match &things[i] {
            Thing::Chest(chest) => v.visit_chest(chest),
            Thing::Pile(pile) => v.visit_pile(pile),
            Thing::Apple(apple) => v.visit_apple(apple),
            Thing::Banana(banana) => v.visit_banana(banana),
        }
        proof {
            assert(*v == prev.counted(fruit_in_thing(things@[i as int])));
        }
        i = i + 1;
    }
    proof {
        assert(things@.subrange(n as int, n as int).len() == 0);
    }
}

/// The composed chest walk, fixed to the inventory counter: the upper
/// compartment in full, then the lower.
fn walk_chest_inventory(v: &mut InventoryCounter, chest: &Chest)
    requires
        old(v).can_count(fruit_in_chest(*chest)),
    ensures
        *final(v) == old(v).counted(fruit_in_chest(*chest)),
    decreases size_of_chest(*chest), 1int,
{
    walk_things_inventory(v, chest.upper_compartment.as_slice());
    walk_things_inventory(v, chest.lower_compartment.as_slice());
}

impl Visitor for InventoryCounter {
    type Value = String;

    open spec fn chest_step(self, c: Chest) -> InventoryCounter {
        self.counted(fruit_in_chest(c))
    }

    open spec fn pile_step(self, p: Pile) -> InventoryCounter {
        self.counted(fruit_in_pile(p))
    }

    open spec fn apple_step(self) -> InventoryCounter {
        self.counted(FruitCount::one_apple())
    }

    open spec fn banana_step(self) -> InventoryCounter {
        self.counted(FruitCount::one_banana())
    }

    open spec fn chest_ok(self, c: Chest) -> bool {
        self.can_count(fruit_in_chest(c))
    }

    open spec fn pile_ok(self, p: Pile) -> bool {
        self.can_count(fruit_in_pile(p))
    }

    open spec fn apple_ok(self) -> bool {
        self.can_count(FruitCount::one_apple())
    }

    open spec fn banana_ok(self) -> bool {
        self.can_count(FruitCount::one_banana())
    }

    open spec fn reports(self, r: String) -> bool {
        r@ == inventory_text(self.apples as nat, self.bananas as nat)
    }

    fn visit_chest(&mut self, c: &Chest)
        decreases size_of_chest(*c), 2int,
    {
        walk_chest_inventory(self, c);
    }

    fn visit_pile(&mut self, p: &Pile)
        decreases size_of_pile(*p), 2int,
    {
        walk_things_inventory(self, p.surface.as_slice());
        walk_things_inventory(self, p.inside.as_slice());
        walk_things_inventory(self, p.lost_forever.as_slice());
    }

    fn visit_apple(&mut self, a: &Apple) {
        self.apples = self.apples + 1;
    }

    fn visit_banana(&mut self, b: &Banana) {
        self.bananas = self.bananas + 1;
    }

    fn value(&self) -> (r: String) {
        render_inventory(self.apples, self.bananas)
    }
}

/// The full counter's walk agrees with counting leaves by hand: the generic
/// walk machinery, applied to the inventory counter over any sequence of
/// things, adds exactly the sequence's apple and banana totals onto its
/// tallies, and every step along the way is permitted.
pub proof fn lemma_inventory_walk_counts(v: InventoryCounter, s: Seq<Thing>)
    requires
        v.can_count(fruit_in_things(s)),
    ensures
        walk_ok(v, s),
        walk_steps(v, s) == v.counted(fruit_in_things(s)),
{
    assert(s.subrange(0, s.len() as int) =~= s);
    lemma_inventory_walk_counts_from(v, s, 0);
}

proof fn lemma_inventory_walk_counts_from(v: InventoryCounter, s: Seq<Thing>, i: int)
    requires
        0 <= i <= s.len(),
        v.can_count(fruit_in_things(s.subrange(i, s.len() as int))),
    ensures
        walk_ok_from(v, s, i),
        walk_steps_from(v, s, i) == v.counted(fruit_in_things(s.subrange(i, s.len() as int))),
    decreases s.len() - i,
{
    let tail = s.subrange(i, s.len() as int);
    if i == s.len() {
        assert(v.counted(FruitCount::zero()) == v);
    } else {
        let rest = s.subrange(i + 1, s.len() as int);
        assert(tail[0] == s[i]);
        assert(tail.subrange(1, tail.len() as int) =~= rest);
        assert(fruit_in_things(tail) == fruit_in_thing(s[i]).plus(fruit_in_things(rest)));
        let w = step_thing(v, s[i]);
        assert(thing_ok(v, s[i]) && w == v.counted(fruit_in_thing(s[i]))) by {
            match s[i] {
                Thing::Chest(c) => {},
                Thing::Pile(p) => {},
                Thing::Apple(a) => {},
                Thing::Banana(b) => {},
            }
        }
        lemma_inventory_walk_counts_from(w, s, i + 1);
    }
}

/// The chest-level form of `lemma_inventory_walk_counts`: the composed walk
/// over both compartments adds exactly the chest's fruit totals.
pub proof fn lemma_inventory_chest_walk_counts(v: InventoryCounter, c: Chest)
    requires
        v.can_count(fruit_in_chest(c)),
    ensures
        chest_walk_ok(v, c),
        chest_walk_steps(v, c) == v.counted(fruit_in_chest(c)),
{
    lemma_inventory_walk_counts(v, c.upper_compartment@);
    lemma_inventory_walk_counts(
        v.counted(fruit_in_things(c.upper_compartment@)),
        c.lower_compartment@,
    );
}

/// A visitor that descends into chests only: its pile handler is empty and
/// it overrides none of the trait's pile functions, so the default no-op
/// step leaves every pile's contents uncounted.  Its result is the two
/// tallies as a pair rather than as text.
pub struct OnlyCheckChests {
    pub apples: usize,
    pub bananas: usize,
}

impl OnlyCheckChests {
    /// The state with `extra` added onto both tallies.
    pub open spec fn counted(self, extra: FruitCount) -> OnlyCheckChests {
        OnlyCheckChests {
            apples: (self.apples + extra.apples) as usize,
            bananas: (self.bananas + extra.bananas) as usize,
        }
    }

    /// Whether `extra` still fits into both tallies.
    pub open spec fn can_count(self, extra: FruitCount) -> bool {
        &&& self.apples + extra.apples <= usize::MAX
        &&& self.bananas + extra.bananas <= usize::MAX
    }
}

impl Default for OnlyCheckChests {
    /// A fresh counter with both tallies at zero.
    fn default() -> (r: OnlyCheckChests)
        ensures
            r.apples == 0,
            r.bananas == 0,
    {
        OnlyCheckChests { apples: 0, bananas: 0 }
    }
}

/// The dispatch loop of `walk::walk_things`, fixed to the pruning counter:
/// one handler call per node, in sequence order.  It adds exactly the
/// pile-free fruit totals onto the tallies — nothing inside any pile is
/// counted.
fn walk_things_chests(v: &mut OnlyCheckChests, things: &[Thing])
    requires
        old(v).can_count(pruned_fruit_in_things(things@)),
    ensures
        *final(v) == old(v).counted(pruned_fruit_in_things(things@)),
    decreases size_of_things(things@), 0int,
{
    let n: usize = things.len();
    let mut i: usize = 0;
    proof {
        assert(things@.subrange(0, n as int) =~= things@);
    }
    while i < n
        invariant
            i <= n,
            n == things@.len(),
            v.can_count(pruned_fruit_in_things(things@.subrange(i as int, n as int))),
            v.counted(pruned_fruit_in_things(things@.subrange(i as int, n as int))) == old(
                v,
            ).counted(pruned_fruit_in_things(things@)),
        decreases n - i,
    {
        let ghost prev = *v;
        proof {
            lemma_size_of_elem(things@, i as int);
            assert(things@.subrange(i as int, n as int)[0] == things@[i as int]);
            assert(things@.subrange(i as int, n as int).subrange(1, (n - i) as int) =~= things@
                .subrange(i as int + 1, n as int));
            assert(pruned_fruit_in_things(things@.subrange(i as int, n as int))
                == pruned_fruit_in_thing(things@[i as int]).plus(
                pruned_fruit_in_things(things@.subrange(i as int + 1, n as int)),
            ));
        }
        match &things[i] {
            Thing::Chest(chest) => v.visit_chest(chest),
            Thing::Pile(pile) => v.visit_pile(pile),
            Thing::Apple(apple) => v.visit_apple(apple),
            Thing::Banana(banana) => v.visit_banana(banana),
        }
        proof {
            assert(*v == prev.counted(pruned_fruit_in_thing(things@[i as int])));
        }
        i = i + 1;
    }
    proof {
        assert(things@.subrange(n as int, n as int).len() == 0);
    }
}

impl Visitor for OnlyCheckChests {
    type Value = (usize, usize);

    open spec fn chest_step(self, c: Chest) -> OnlyCheckChests {
        self.counted(pruned_fruit_in_chest(c))
    }

    open spec fn apple_step(self) -> OnlyCheckChests {
        self.counted(FruitCount::one_apple())
    }

    open spec fn banana_step(self) -> OnlyCheckChests {
        self.counted(FruitCount::one_banana())
    }

    open spec fn chest_ok(self, c: Chest) -> bool {
        self.can_count(pruned_fruit_in_chest(c))
    }

    open spec fn apple_ok(self) -> bool {
        self.can_count(FruitCount::one_apple())
    }

    open spec fn banana_ok(self) -> bool {
        self.can_count(FruitCount::one_banana())
    }

    open spec fn reports(self, r: (usize, usize)) -> bool {
        r == (self.apples, self.bananas)
    }

    fn visit_chest(&mut self, c: &Chest)
        decreases size_of_chest(*c), 2int,
    {
        walk_things_chests(self, c.upper_compartment.as_slice());
        walk_things_chests(self, c.lower_compartment.as_slice());
    }

    fn visit_pile(&mut self, p: &Pile)
        decreases size_of_pile(*p), 2int,
    {
    }

    fn visit_apple(&mut self, a: &Apple) {
        self.apples = self.apples + 1;
    }

    fn visit_banana(&mut self, b: &Banana) {
        self.bananas = self.bananas + 1;
    }

    fn value(&self) -> (r: (usize, usize)) {
        (self.apples, self.bananas)
    }
}

/// The pruning counter tallies exactly the leaves reachable without
/// entering a pile, and nothing out of any pile: the generic walk
/// machinery, applied to it over any sequence, adds exactly the pile-free
/// totals onto its tallies.
pub proof fn lemma_pruning_walk_counts(v: OnlyCheckChests, s: Seq<Thing>)
    requires
        v.can_count(pruned_fruit_in_things(s)),
    ensures
        walk_ok(v, s),
        walk_steps(v, s) == v.counted(pruned_fruit_in_things(s)),
{
    assert(s.subrange(0, s.len() as int) =~= s);
    lemma_pruning_walk_counts_from(v, s, 0);
}

/// Run a fresh inventory counter over a whole chest and render its report:
/// the text states exactly the chest's apple and banana totals.
pub fn inventory_report(chest: &Chest) -> (r: String)
    requires
        fruit_in_chest(*chest).apples <= usize::MAX,
        fruit_in_chest(*chest).bananas <= usize::MAX,
    ensures
        r@ == inventory_text(fruit_in_chest(*chest).apples, fruit_in_chest(*chest).bananas),
{
    let mut inventory = InventoryCounter::default();
    inventory.visit_chest(chest);
    inventory.value()
}

/// Run a fresh pruning counter over a whole chest: the pair holds exactly
/// the chest's pile-free apple and banana totals.
pub fn chest_only_tallies(chest: &Chest) -> (r: (usize, usize))
    requires
        pruned_fruit_in_chest(*chest).apples <= usize::MAX,
        pruned_fruit_in_chest(*chest).bananas <= usize::MAX,
    ensures
        r.0 == pruned_fruit_in_chest(*chest).apples,
        r.1 == pruned_fruit_in_chest(*chest).bananas,
{
    let mut only_chests = OnlyCheckChests::default();
    only_chests.visit_chest(chest);
    only_chests.value()
}

proof fn lemma_pruning_walk_counts_from(v: OnlyCheckChests, s: Seq<Thing>, i: int)
    requires
        0 <= i <= s.len(),
        v.can_count(pruned_fruit_in_things(s.subrange(i, s.len() as int))),
    ensures
        walk_ok_from(v, s, i),
        walk_steps_from(v, s, i) == v.counted(
            pruned_fruit_in_things(s.subrange(i, s.len() as int)),
        ),
    decreases s.len() - i,
{
    let tail = s.subrange(i, s.len() as int);
    if i == s.len() {
        assert(v.counted(FruitCount::zero()) == v);
    } else {
        let rest = s.subrange(i + 1, s.len() as int);
        assert(tail[0] == s[i]);
        assert(tail.subrange(1, tail.len() as int) =~= rest);
        assert(pruned_fruit_in_things(tail) == pruned_fruit_in_thing(s[i]).plus(
            pruned_fruit_in_things(rest),
        ));
        let w = step_thing(v, s[i]);
        assert(thing_ok(v, s[i]) && w == v.counted(pruned_fruit_in_thing(s[i]))) by {
            match s[i] {
                Thing::Chest(c) => {},
                Thing::Pile(p) => {},
                Thing::Apple(a) => {},
                Thing::Banana(b) => {},
            }
        }
        lemma_pruning_walk_counts_from(w, s, i + 1);
    }
}

} // verus!
