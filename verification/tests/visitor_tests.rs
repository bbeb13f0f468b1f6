use fruit_visitor::counters::InventoryCounter;
use fruit_visitor::counters::OnlyCheckChests;
use fruit_visitor::counters::chest_only_tallies;
use fruit_visitor::counters::inventory_report;
use fruit_visitor::tree::Apple;
use fruit_visitor::tree::Banana;
use fruit_visitor::tree::Chest;
use fruit_visitor::tree::Pile;
use fruit_visitor::tree::Thing;
use fruit_visitor::tree::sample_chest;
use fruit_visitor::walk::Visitor;
use fruit_visitor::walk::walk_chest;
use fruit_visitor::walk::walk_things;

/// The end-to-end scenario: the sample tree holds five apples and four
/// bananas in all, and the full counter reports exactly that.
#[test]
fn sample_tree_full_count() {
    let chest = sample_chest();
    let mut inventory = InventoryCounter::default();
    inventory.visit_chest(&chest);
    assert_eq!(inventory.value(), "5 apples and 4 bananas");
}

/// The pruning counter sees only the nested chest's leaves and the loose
/// top-level apple: two apples and two bananas, nothing out of the pile.
#[test]
fn sample_tree_pruned_count() {
    let chest = sample_chest();
    let mut only_chests = OnlyCheckChests::default();
    only_chests.visit_chest(&chest);
    assert_eq!(only_chests.value(), (2, 2));
}

/// The two convenience runners agree with driving the visitors by hand.
#[test]
fn runners_match_hand_driven_visitors() {
    let chest = sample_chest();
    assert_eq!(inventory_report(&chest), "5 apples and 4 bananas");
    assert_eq!(chest_only_tallies(&chest), (2, 2));
}

/// Walking an empty sequence invokes no handler: the visitor state is
/// untouched.
#[test]
fn walk_empty_sequence_changes_nothing() {
    let mut inventory = InventoryCounter::default();
    walk_things(&mut inventory, &[]);
    assert_eq!(inventory.value(), "0 apples and 0 bananas");

    let mut only_chests = OnlyCheckChests::default();
    walk_things(&mut only_chests, &[]);
    assert_eq!(only_chests.value(), (0, 0));
}

/// `walk_chest` over a chest with only its upper compartment populated
/// visits those nodes and only those.
#[test]
fn walk_chest_upper_only() {
    let chest = Chest {
        upper_compartment: vec![Thing::Apple(Apple), Thing::Banana(Banana)],
        lower_compartment: vec![],
    };
    let mut inventory = InventoryCounter::default();
    walk_chest(&mut inventory, &chest);
    assert_eq!(inventory.value(), "1 apples and 1 bananas");
}

/// `walk_things` performs a single dispatch level: a pile handed to the
/// pruning counter is dispatched once to its (default no-op) handler, and
/// nothing inside it is ever seen.
#[test]
fn single_dispatch_does_not_descend_into_pile() {
    let pile = Pile {
        surface: vec![Thing::Apple(Apple)],
        inside: vec![Thing::Banana(Banana)],
        lost_forever: vec![],
    };
    let things = vec![Thing::Pile(pile), Thing::Banana(Banana)];
    let mut only_chests = OnlyCheckChests::default();
    walk_things(&mut only_chests, &things);
    assert_eq!(only_chests.value(), (0, 1));
}

/// The full counter, by contrast, descends through its pile handler.
#[test]
fn full_counter_descends_into_pile() {
    let pile = Pile {
        surface: vec![Thing::Apple(Apple)],
        inside: vec![Thing::Banana(Banana)],
        lost_forever: vec![Thing::Apple(Apple)],
    };
    let things = vec![Thing::Pile(pile)];
    let mut inventory = InventoryCounter::default();
    walk_things(&mut inventory, &things);
    assert_eq!(inventory.value(), "2 apples and 1 bananas");
}

/// Running the same visitor kind twice over the same tree yields identical
/// results: nothing hidden feeds into the outcome.
#[test]
fn repeated_runs_are_deterministic() {
    let chest = sample_chest();

    let mut first = InventoryCounter::default();
    first.visit_chest(&chest);
    let mut second = InventoryCounter::default();
    second.visit_chest(&chest);
    assert_eq!(first.value(), second.value());

    let mut third = OnlyCheckChests::default();
    third.visit_chest(&chest);
    let mut fourth = OnlyCheckChests::default();
    fourth.visit_chest(&chest);
    assert_eq!(third.value(), fourth.value());
}

/// The pruned tallies never exceed the full tallies, here checked on a tree
/// that mixes both container kinds at several depths.
#[test]
fn pruned_never_exceeds_full() {
    let inner_chest = Chest {
        upper_compartment: vec![Thing::Apple(Apple)],
        lower_compartment: vec![Thing::Pile(Pile {
            surface: vec![Thing::Banana(Banana)],
            inside: vec![],
            lost_forever: vec![Thing::Apple(Apple)],
        })],
    };
    let chest = Chest {
        upper_compartment: vec![Thing::Chest(inner_chest), Thing::Banana(Banana)],
        lower_compartment: vec![Thing::Apple(Apple)],
    };
    let mut inventory = InventoryCounter::default();
    inventory.visit_chest(&chest);
    let mut only_chests = OnlyCheckChests::default();
    only_chests.visit_chest(&chest);
    let (pruned_apples, pruned_bananas) = only_chests.value();
    assert_eq!(inventory.value(), "3 apples and 2 bananas");
    assert_eq!((pruned_apples, pruned_bananas), (2, 1));
    assert!(pruned_apples <= 3);
    assert!(pruned_bananas <= 2);
}

/// Multi-digit tallies are rendered in full decimal.
#[test]
fn report_renders_multi_digit_numbers() {
    let mut things: Vec<Thing> = Vec::new();
    for _ in 0..12 {
        things.push(Thing::Apple(Apple));
    }
    for _ in 0..107 {
        things.push(Thing::Banana(Banana));
    }
    let chest = Chest { upper_compartment: things, lower_compartment: vec![] };
    assert_eq!(inventory_report(&chest), "12 apples and 107 bananas");
}

/// A visitor left at its defaults for a variant still dispatches cleanly:
/// an empty chest reports zero of everything.
#[test]
fn empty_chest_counts_nothing() {
    let chest = Chest { upper_compartment: vec![], lower_compartment: vec![] };
    assert_eq!(inventory_report(&chest), "0 apples and 0 bananas");
    assert_eq!(chest_only_tallies(&chest), (0, 0));
}
