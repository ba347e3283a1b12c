use corvus_bridge::scope::Scope;

fn owned(pairs: &[(&str, u32)]) -> Vec<(String, u32)> {
    pairs.iter().map(|(name, value)| (String::from(*name), *value)).collect()
}

#[test]
fn a_new_scope_binds_nothing() {
    let scope: Scope<u32> = Scope::new();
    assert_eq!(scope.len(), 0);
    assert_eq!(scope.get("x"), None);
    assert_eq!(scope.binding(0), None);
    assert_eq!(scope.into_bindings(), Vec::new());
}

#[test]
fn the_last_write_wins_where_the_first_stood() {
    let mut scope = Scope::new();
    scope.insert(String::from("x"), 1);
    scope.insert(String::from("y"), 2);
    scope.insert(String::from("x"), 3);
    assert_eq!(scope.len(), 2);
    assert_eq!(scope.get("x"), Some(&3));
    assert_eq!(scope.get("y"), Some(&2));
    assert_eq!(scope.get("z"), None);
    assert_eq!(scope.binding(0), Some((&String::from("x"), &3)));
    assert_eq!(scope.binding(1), Some((&String::from("y"), &2)));
    assert_eq!(scope.binding(2), None);
    assert_eq!(scope.into_bindings(), owned(&[("x", 3), ("y", 2)]));
}

#[test]
fn names_are_compared_as_text() {
    let mut scope = Scope::new();
    scope.insert(String::from(""), 0);
    scope.insert(String::from("a"), 1);
    scope.insert(String::from("A"), 2);
    scope.insert(String::from("a "), 3);
    assert_eq!(scope.len(), 4);
    assert_eq!(scope.get(""), Some(&0));
    assert_eq!(scope.get("a"), Some(&1));
    assert_eq!(scope.get("A"), Some(&2));
    assert_eq!(scope.get("a "), Some(&3));
}

#[test]
fn extending_shadows_and_appends() {
    let mut scope = Scope::new();
    scope.insert(String::from("x"), 1);
    scope.insert(String::from("y"), 2);
    scope.extend(owned(&[("z", 10), ("x", 11), ("z", 12)]));
    assert_eq!(scope.into_bindings(), owned(&[("x", 11), ("y", 2), ("z", 12)]));
}

#[test]
fn a_scope_of_bindings_keeps_one_per_name() {
    let scope = Scope::from_bindings(owned(&[("b", 1), ("a", 2), ("b", 3)]));
    assert_eq!(scope.get("b"), Some(&3));
    assert_eq!(scope.into_bindings(), owned(&[("b", 3), ("a", 2)]));
}
