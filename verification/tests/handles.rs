use corvus_bridge::arena::Arena;
use corvus_bridge::bird::{evaluated, Type, Typing};
use corvus_bridge::boundary::{
    alloc_bird, alloc_bird_with, call_block, define, drop_bird, drop_block, evaluate, from_block, get_var, set_var,
    type_of, with_bird, with_bird_mut, wrap_callback, JsResult, Registry,
};
use corvus_bridge::host::HostValue;
use corvus_bridge::value::{call_block_ptr, JsValue};

fn num(n: f64) -> JsValue {
    JsValue::from(stdweb::Number::from(n))
}

#[test]
fn an_arena_issues_handles_from_one_up() {
    let mut arena = Arena::new();
    assert_eq!(arena.allocate("a"), 1);
    assert_eq!(arena.allocate("b"), 2);
    assert_eq!(arena.get(1), Some(&"a"));
    assert_eq!(arena.get(2), Some(&"b"));
    assert!(arena.contains(2));
    assert!(!arena.contains(3));
}

#[test]
fn zero_and_negative_handles_name_nothing() {
    let mut arena = Arena::new();
    arena.allocate(5u8);
    assert_eq!(arena.get(0), None);
    assert_eq!(arena.get(-1), None);
    assert_eq!(arena.get(i32::MIN), None);
    assert_eq!(arena.get(i32::MAX), None);
    assert_eq!(arena.get_mut(0), None);
    assert_eq!(arena.free(0), None);
    assert_eq!(arena.free(-7), None);
    assert!(!arena.contains(0));
    assert_eq!(arena.get(1), Some(&5));
}

#[test]
fn a_freed_handle_is_never_issued_again() {
    let mut arena = Arena::new();
    let a = arena.allocate("a");
    let b = arena.allocate("b");
    assert_eq!(arena.free(a), Some("a"));
    assert_eq!(arena.free(a), None);
    assert_eq!(arena.get(a), None);
    assert_eq!(arena.get(b), Some(&"b"));
    let c = arena.allocate("c");
    assert_eq!(c, 3);
    assert_eq!(arena.get(a), None);
    assert_eq!(arena.free(b), Some("b"));
    assert_eq!(arena.allocate("d"), 4);
}

#[test]
fn an_entity_can_be_changed_where_it_stands() {
    let mut arena = Arena::new();
    let a = arena.allocate(vec![1]);
    let b = arena.allocate(vec![2]);
    arena.get_mut(a).unwrap().push(10);
    assert_eq!(arena.get(a), Some(&vec![1, 10]));
    assert_eq!(arena.get(b), Some(&vec![2]));
}

#[test]
fn sessions_and_closures_share_one_space_of_handles() {
    let mut registry: Registry<(), &str> = Registry::new();
    let bird = alloc_bird(&mut registry, ());
    let block = from_block(&mut registry, "closure");
    assert_eq!(bird, 1);
    assert_eq!(block, JsValue(HostValue::Bool(false), 2));
    assert!(block.callable());
    assert!(with_bird(&registry, bird).is_ok());
    assert_eq!(with_bird(&registry, block.1).map(|_| ()), Err(String::from("not a bird")));
    assert_eq!(call_block(&registry, block.1), Ok(&"closure"));
    assert_eq!(call_block(&registry, bird), Err(String::from("not a block")));
}

#[test]
fn freeing_goes_by_kind() {
    let mut registry: Registry<(), &str> = Registry::new();
    let bird = alloc_bird(&mut registry, ());
    let block = from_block(&mut registry, "closure").1;
    drop_block(&mut registry, bird);
    drop_bird(&mut registry, block);
    assert!(with_bird(&registry, bird).is_ok());
    assert_eq!(call_block(&registry, block), Ok(&"closure"));
    drop_bird(&mut registry, bird);
    drop_block(&mut registry, block);
    assert!(with_bird(&registry, bird).is_err());
    assert!(call_block(&registry, block).is_err());
}

#[test]
fn a_session_is_opened_with_the_typing_of_the_deployment() {
    let mut registry: Registry<(), ()> = Registry::new();
    let loose = alloc_bird(&mut registry, ());
    let precise = alloc_bird_with(&mut registry, (), Typing::Precise);
    let placeholder = alloc_bird_with(&mut registry, (), Typing::Placeholder);
    assert_eq!((loose, precise, placeholder), (1, 2, 3));
    for handle in [loose, precise, placeholder] {
        assert_eq!(get_var(&registry, handle), Vec::new());
        set_var(&mut registry, handle, "x", num(41.0));
        set_var(&mut registry, handle, "f", JsValue::block(9));
    }
    let declared = |handle| type_of(&registry, handle, Ok(())).map(|query| query.globals);
    let any = vec![(String::from("x"), Type::Any), (String::from("f"), Type::Any)];
    assert_eq!(declared(loose), Ok(any.clone()));
    assert_eq!(declared(placeholder), Ok(any));
    assert_eq!(
        declared(precise),
        Ok(vec![(String::from("x"), Type::Number), (String::from("f"), Type::Block)])
    );
}

#[test]
fn set_var_then_get_var() {
    let mut registry: Registry<(), ()> = Registry::new();
    let s = alloc_bird(&mut registry, ());
    assert_eq!(get_var(&registry, s), Vec::new());
    set_var(&mut registry, s, "x", num(41.0));
    set_var(&mut registry, s, "who", JsValue::from(String::from("crow")));
    set_var(&mut registry, s, "x", num(42.0));
    assert_eq!(
        get_var(&registry, s),
        vec![
            (String::from("x"), num(42.0)),
            (String::from("who"), JsValue::from(String::from("crow"))),
        ]
    );
}

#[test]
fn one_session_never_sees_another() {
    let mut registry: Registry<u8, ()> = Registry::new();
    let a = alloc_bird(&mut registry, 1);
    let b = alloc_bird(&mut registry, 2);
    set_var(&mut registry, a, "x", num(1.0));
    set_var(&mut registry, b, "x", num(2.0));
    set_var(&mut registry, b, "y", JsValue::from(true));
    assert_eq!(get_var(&registry, a), vec![(String::from("x"), num(1.0))]);
    assert_eq!(
        get_var(&registry, b),
        vec![(String::from("x"), num(2.0)), (String::from("y"), JsValue::from(true))]
    );
    assert_eq!(with_bird(&registry, a).map(|bird| *bird.ns()), Ok(1));
    assert_eq!(with_bird(&registry, b).map(|bird| *bird.ns()), Ok(2));
    let in_a = evaluate(&registry, a, Ok(()), Vec::new()).unwrap();
    assert_eq!(in_a.scope.get("y"), None);
    assert_eq!(in_a.scope.get("x"), Some(&num(1.0)));
    drop_bird(&mut registry, a);
    assert_eq!(
        get_var(&registry, b),
        vec![(String::from("x"), num(2.0)), (String::from("y"), JsValue::from(true))]
    );
}

#[test]
fn a_dead_session_handle_changes_and_shows_nothing() {
    let mut registry: Registry<(), ()> = Registry::new();
    let s = alloc_bird(&mut registry, ());
    set_var(&mut registry, s, "x", num(1.0));
    drop_bird(&mut registry, s);
    set_var(&mut registry, s, "x", num(2.0));
    set_var(&mut registry, 0, "x", num(2.0));
    set_var(&mut registry, 99, "x", num(2.0));
    assert_eq!(get_var(&registry, s), Vec::new());
    assert_eq!(get_var(&registry, 0), Vec::new());
    assert_eq!(get_var(&registry, -1), Vec::new());
    assert_eq!(with_bird(&registry, s).map(|_| ()), Err(String::from("not a bird")));
    assert_eq!(with_bird_mut(&mut registry, s).map(|_| ()), Err(String::from("not a bird")));
    assert_eq!(define(&mut registry, s).map(|_| ()), Err(String::from("not a bird")));
    assert_eq!(
        evaluate(&registry, s, Ok(()), Vec::new()).map(|e| e.syntax),
        Err(String::from("not a bird"))
    );
    assert_eq!(
        type_of(&registry, s, Ok(())).map(|q| q.syntax),
        Err(String::from("not a bird"))
    );
    assert_eq!(alloc_bird(&mut registry, ()), 2);
}

#[test]
fn a_dead_handle_comes_before_a_parse_failure() {
    let registry: Registry<(), ()> = Registry::new();
    let parsed: Result<(), String> = Err(String::from("unexpected token"));
    assert_eq!(
        evaluate(&registry, 1, parsed.clone(), Vec::new()).map(|e| e.syntax),
        Err(String::from("not a bird"))
    );
    assert_eq!(type_of(&registry, 1, parsed).map(|q| q.syntax), Err(String::from("not a bird")));
}

#[test]
fn evaluate_and_type_of_go_through_the_handle() {
    let mut registry: Registry<(), ()> = Registry::new();
    let s = alloc_bird(&mut registry, ());
    set_var(&mut registry, s, "x", num(41.0));
    let inputs = vec![(String::from("k"), JsValue::from(true))];
    let evaluation = evaluate(&registry, s, Ok("x"), inputs).unwrap();
    assert_eq!(evaluation.syntax, "x");
    assert_eq!(
        evaluation.scope.into_bindings(),
        vec![(String::from("x"), num(41.0)), (String::from("k"), JsValue::from(true))]
    );
    assert_eq!(get_var(&registry, s), vec![(String::from("x"), num(41.0))]);
    let query = type_of(&registry, s, Ok("x")).unwrap();
    assert_eq!(query.globals, vec![(String::from("x"), Type::Any)]);
    assert_eq!(
        evaluate(&registry, s, Err::<&str, String>(String::from("bad")), Vec::new()).map(|e| e.syntax),
        Err(String::from("bad"))
    );
    assert_eq!(
        type_of(&registry, s, Err::<&str, String>(String::from("bad"))).map(|q| q.syntax),
        Err(String::from("bad"))
    );
}

#[test]
fn define_reaches_the_namespace_of_one_session() {
    let mut registry: Registry<Vec<&str>, ()> = Registry::new();
    let a = alloc_bird(&mut registry, vec!["prelude"]);
    let b = alloc_bird(&mut registry, vec!["prelude"]);
    set_var(&mut registry, a, "x", num(1.0));
    define(&mut registry, a).unwrap().push("greet(name)");
    assert_eq!(with_bird(&registry, a).map(|bird| bird.ns().clone()), Ok(vec!["prelude", "greet(name)"]));
    assert_eq!(with_bird(&registry, b).map(|bird| bird.ns().clone()), Ok(vec!["prelude"]));
    assert_eq!(get_var(&registry, a), vec![(String::from("x"), num(1.0))]);
}

#[test]
fn a_closure_can_be_invoked_until_it_is_freed() {
    let mut registry: Registry<(), String> = Registry::new();
    let value = from_block(&mut registry, String::from("fn(x) x + 1"));
    assert_eq!(value.try_call(&registry), Ok(&String::from("fn(x) x + 1")));
    assert_eq!(call_block_ptr(&registry, value.1), Ok(&String::from("fn(x) x + 1")));
    assert_eq!(call_block_ptr(&registry, value.1), Ok(&String::from("fn(x) x + 1")));
    drop_block(&mut registry, value.1);
    assert_eq!(call_block_ptr(&registry, value.1), Err(String::from("not a block")));
    assert_eq!(value.try_call(&registry), Err(String::from("not a block")));
}

#[test]
fn a_handle_that_is_not_positive_is_never_followed() {
    let mut registry: Registry<(), u8> = Registry::new();
    from_block(&mut registry, 1);
    assert_eq!(call_block_ptr(&registry, 0), Err(String::from("not a block")));
    assert_eq!(call_block_ptr(&registry, -1), Err(String::from("not a block")));
    assert_eq!(call_block_ptr(&registry, i32::MIN), Err(String::from("not a block")));
    assert_eq!(call_block_ptr(&registry, 2), Err(String::from("not a block")));
    assert_eq!(JsValue::from(true).try_call(&registry), Err(String::from("not a block")));
    // A value can carry a handle, and so be callable, and yet name no closure.
    let stray = JsValue(HostValue::Bool(false), -1);
    assert!(stray.callable());
    assert_eq!(stray.try_call(&registry), Err(String::from("not a block")));
}

#[test]
fn what_the_host_callable_returned_is_what_comes_back() {
    let returned = JsValue(HostValue::Text(String::from("hello crow")), 0);
    assert_eq!(wrap_callback(Ok(JsResult::Success(returned.clone()))), Ok(returned.clone()));
    // The value reaches the host again as it came.
    let through = evaluated(wrap_callback(Ok(JsResult::Success(returned.clone()))));
    assert_eq!(JsResult::from(through), JsResult::Success(returned));
}

#[test]
fn a_failure_of_the_host_callable_is_a_failure_of_the_call() {
    assert_eq!(
        wrap_callback(Ok(JsResult::Failure(String::from("no such user")))),
        Err(String::from("no such user"))
    );
    let through = evaluated(wrap_callback(Ok(JsResult::Failure(String::from("no such user")))));
    assert_eq!(through, Err(String::from("no such user")));
    assert_eq!(JsResult::from(through), JsResult::Failure(String::from("no such user")));
}

#[test]
fn an_answer_that_cannot_be_read_is_a_failure() {
    assert_eq!(
        wrap_callback(Err(String::from("expected a tagged result"))),
        Err(String::from("expected a tagged result"))
    );
}

#[test]
fn results_cross_as_payload_or_message() {
    assert_eq!(JsResult::from(Ok::<u8, String>(3)), JsResult::Success(3));
    assert_eq!(
        JsResult::<u8>::from(Err(String::from("not a bird"))),
        JsResult::Failure(String::from("not a bird"))
    );
    assert_eq!(JsResult::from(Ok::<(), String>(())), JsResult::Success(()));
}
