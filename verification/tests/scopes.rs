use iku::scopes::Scopes;

#[test]
fn a_fresh_stack_has_no_scope_and_no_variable() {
    let scopes: Scopes<i64> = Scopes::new();
    assert_eq!(scopes.depth(), 0);
    assert_eq!(scopes.get("x"), None);
}

#[test]
fn a_variable_is_found_in_the_scope_that_declares_it() {
    let mut scopes = Scopes::new();
    scopes.enter(false);
    scopes.create("x", 2);
    assert_eq!(scopes.get("x"), Some(&2));
    assert_eq!(scopes.get("y"), None);
}

#[test]
fn declaring_a_name_again_replaces_its_value() {
    let mut scopes = Scopes::new();
    scopes.enter(false);
    scopes.create("x", 2);
    scopes.create("y", 5);
    scopes.create("x", 3);
    assert_eq!(scopes.get("x"), Some(&3));
    assert_eq!(scopes.get("y"), Some(&5));
}

#[test]
fn a_nested_scope_sees_the_scope_below() {
    let mut scopes = Scopes::new();
    scopes.enter(false);
    scopes.create("x", 2);
    scopes.enter(true);
    assert_eq!(scopes.get("x"), Some(&2));
    scopes.enter(true);
    assert_eq!(scopes.get("x"), Some(&2));
}

#[test]
fn a_detached_scope_does_not_see_the_scope_below() {
    let mut scopes = Scopes::new();
    scopes.enter(false);
    scopes.create("x", 2);
    scopes.enter(false);
    assert_eq!(scopes.get("x"), None);
    scopes.enter(true);
    assert_eq!(scopes.get("x"), None);
    scopes.exit();
    scopes.exit();
    assert_eq!(scopes.get("x"), Some(&2));
}

#[test]
fn a_declaration_shadows_and_leaves_with_its_scope() {
    let mut scopes = Scopes::new();
    scopes.enter(false);
    scopes.create("x", 2);
    scopes.enter(true);
    scopes.create("x", 3);
    assert_eq!(scopes.get("x"), Some(&3));
    scopes.exit();
    assert_eq!(scopes.get("x"), Some(&2));
}

#[test]
fn an_assignment_changes_the_nearest_binding() {
    let mut scopes = Scopes::new();
    scopes.enter(false);
    scopes.create("x", 2);
    scopes.enter(true);
    assert!(scopes.set("x", 7));
    assert_eq!(scopes.get("x"), Some(&7));
    scopes.create("x", 1);
    assert!(scopes.set("x", 9));
    assert_eq!(scopes.get("x"), Some(&9));
    scopes.exit();
    assert_eq!(scopes.get("x"), Some(&7));
}

#[test]
fn an_assignment_to_an_unknown_name_fails_and_changes_nothing() {
    let mut scopes = Scopes::new();
    assert!(!scopes.set("x", 1));
    scopes.enter(false);
    assert!(!scopes.set("x", 1));
    assert_eq!(scopes.get("x"), None);
    scopes.create("y", 4);
    assert!(!scopes.set("x", 1));
    assert_eq!(scopes.get("x"), None);
    assert_eq!(scopes.get("y"), Some(&4));
}

#[test]
fn an_assignment_stops_at_a_detached_scope() {
    let mut scopes = Scopes::new();
    scopes.enter(false);
    scopes.create("x", 2);
    scopes.enter(false);
    scopes.enter(true);
    assert!(!scopes.set("x", 5));
    scopes.exit();
    scopes.exit();
    assert_eq!(scopes.get("x"), Some(&2));
}

#[test]
fn scopes_leave_in_the_reverse_order_of_their_entry() {
    let mut scopes = Scopes::new();
    scopes.enter(false);
    scopes.create("a", 1);
    scopes.enter(true);
    scopes.create("b", 2);
    scopes.enter(true);
    scopes.create("c", 3);
    assert_eq!(scopes.depth(), 3);
    scopes.exit();
    assert_eq!(scopes.get("c"), None);
    assert_eq!(scopes.get("b"), Some(&2));
    scopes.exit();
    assert_eq!(scopes.get("b"), None);
    assert_eq!(scopes.get("a"), Some(&1));
    scopes.exit();
    assert_eq!(scopes.get("a"), None);
    assert_eq!(scopes.depth(), 0);
}

#[test]
fn leaving_a_stack_without_a_scope_does_nothing() {
    let mut scopes: Scopes<i64> = Scopes::new();
    scopes.exit();
    assert_eq!(scopes.depth(), 0);
    scopes.enter(true);
    scopes.create("x", 1);
    assert_eq!(scopes.get("x"), Some(&1));
}

#[test]
fn names_are_told_apart_by_every_character() {
    let mut scopes = Scopes::new();
    scopes.enter(false);
    scopes.create("x", 1);
    scopes.create("xs", 2);
    scopes.create("猫", 3);
    assert_eq!(scopes.get("x"), Some(&1));
    assert_eq!(scopes.get("xs"), Some(&2));
    assert_eq!(scopes.get("猫"), Some(&3));
    assert_eq!(scopes.get(""), None);
    assert_eq!(scopes.get("X"), None);
}
