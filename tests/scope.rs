use std::cell::RefCell;
use std::rc::Rc;

use lua_scope::{
    CallGuard, Error, NonStaticUserDataMethods, Runtime, Scope,
};

fn key(s: &str) -> String {
    s.to_string()
}

/// A scoped data object holding `data`, with read methods "get" and "peek",
/// write method "set", free function "info" and meta-operation "__len".
fn counter(scope: &mut Scope<i64>, data: i64) -> usize {
    let mut m = NonStaticUserDataMethods::new();
    m.add_method("get", 1);
    m.add_method("peek", 2);
    m.add_method_mut("set", 3);
    m.add_function("info", 4);
    m.add_function_mut("bump", 5);
    m.add_meta_method("__len", 6);
    scope.create_nonstatic_userdata(data, m).unwrap()
}

fn method(scope: &Scope<i64>, ud: usize, name: &str) -> usize {
    scope.runtime().method(ud, &key(name), false).unwrap()
}

#[test]
fn function_handles_are_numbered_in_order() {
    let mut scope = Scope::new(Runtime::new());
    assert_eq!(scope.create_function(10), Ok(0));
    assert_eq!(scope.create_function_mut(11), Ok(1));
    assert_eq!(scope.create_static_userdata(12), Ok(2));
    assert_eq!(scope.runtime().len(), 3);
    assert_eq!(scope.runtime().value(1), Some(&11));
}

#[test]
fn function_call_grants_plain_guard() {
    let mut scope = Scope::new(Runtime::new());
    let f = scope.create_function(7).unwrap();
    let g = scope.call(f, None).unwrap();
    assert_eq!(g, CallGuard { handle: f, own: false, cell: None, write: false });
    // A plain closure may be entered again while it runs.
    let g2 = scope.call(f, None).unwrap();
    scope.finish(g2);
    scope.finish(g);
}

#[test]
fn closures_are_inert_after_end() {
    let mut scope = Scope::new(Runtime::new());
    let f = scope.create_function(1).unwrap();
    let fm = scope.create_function_mut(2).unwrap();
    let mut rt = scope.end();
    assert_eq!(rt.call(f, None), Err(Error::CallbackDestructed));
    assert_eq!(rt.call(fm, None), Err(Error::CallbackDestructed));
    assert_eq!(rt.value(f), None);
}

#[test]
fn scoped_data_is_inert_after_end() {
    let mut scope = Scope::new(Runtime::new());
    let ud = counter(&mut scope, 5);
    let get = method(&scope, ud, "get");
    let info = method(&scope, ud, "info");
    let mut rt = scope.end();
    assert_eq!(rt.call(get, Some(ud)), Err(Error::CallbackDestructed));
    assert_eq!(rt.call(info, None), Err(Error::CallbackDestructed));
    assert_eq!(rt.call(ud, None), Err(Error::NotCallable));
    assert_eq!(rt.value(ud), None);
}

#[test]
fn outside_handles_survive_the_end_of_a_scope() {
    let mut scope = Scope::new(Runtime::new());
    let f = scope.create_function(1).unwrap();
    let mut rt = scope.end();
    let mut scope = Scope::new(rt);
    let g = scope.create_function(2).unwrap();
    rt = scope.end();
    assert_eq!(g, 1);
    assert_eq!(rt.call(f, None), Err(Error::CallbackDestructed));
    assert_eq!(rt.call(g, None), Err(Error::CallbackDestructed));
}

#[test]
fn invalidation_collects_values_in_registration_order() {
    let mut scope = Scope::new(Runtime::new());
    let a = scope.create_function(100).unwrap();
    let b = scope.create_static_userdata(200).unwrap();
    let c = scope.create_function_mut(300).unwrap();
    let (rt, values) = scope.invalidate();
    assert_eq!(values, vec![100, 200, 300]);
    for h in [a, b, c] {
        assert_eq!(rt.value(h), None);
    }
}

#[test]
fn scoped_data_values_are_collected_with_their_methods() {
    let mut scope = Scope::new(Runtime::new());
    let ud = counter(&mut scope, 9);
    let (_rt, values) = scope.invalidate();
    // The data first, then the five methods, then the meta-operation.
    assert_eq!(values.len(), 7);
    assert_eq!(values[0], 9);
    assert_eq!(ud, 0);
}

struct Logged {
    id: usize,
    log: Rc<RefCell<Vec<String>>>,
}

impl Drop for Logged {
    fn drop(&mut self) {
        self.log.borrow_mut().push(format!("drop {}", self.id));
    }
}

#[test]
fn every_handle_is_inert_before_any_value_drops() {
    let log = Rc::new(RefCell::new(Vec::new()));
    let mut scope = Scope::new(Runtime::new());
    let mut handles = Vec::new();
    for id in 0..4 {
        handles.push(scope.create_function(Logged { id, log: log.clone() }).unwrap());
    }
    let (mut rt, values) = scope.invalidate();
    assert!(log.borrow().is_empty());
    for &h in &handles {
        assert_eq!(rt.call(h, None), Err(Error::CallbackDestructed));
        log.borrow_mut().push(format!("inert {}", h));
    }
    drop(values);
    let expected: Vec<String> = vec![
        "inert 0", "inert 1", "inert 2", "inert 3", "drop 0", "drop 1", "drop 2", "drop 3",
    ]
    .into_iter()
    .map(String::from)
    .collect();
    assert_eq!(*log.borrow(), expected);
}

#[test]
fn end_drops_values_in_registration_order() {
    let log = Rc::new(RefCell::new(Vec::new()));
    let mut scope = Scope::new(Runtime::new());
    for id in 0..3 {
        scope.create_static_userdata(Logged { id, log: log.clone() }).unwrap();
    }
    let rt = scope.end();
    assert_eq!(*log.borrow(), vec!["drop 0", "drop 1", "drop 2"]);
    assert_eq!(rt.len(), 3);
}

#[test]
fn method_of_one_instance_refuses_another() {
    let mut scope = Scope::new(Runtime::new());
    let a = counter(&mut scope, 1);
    let b = counter(&mut scope, 2);
    let get_a = method(&scope, a, "get");
    assert_eq!(scope.call(get_a, Some(b)), Err(Error::UserDataTypeMismatch));
    assert_eq!(scope.call(get_a, None), Err(Error::UserDataTypeMismatch));
    let f = scope.create_function(0).unwrap();
    assert_eq!(scope.call(get_a, Some(f)), Err(Error::UserDataTypeMismatch));
    let g = scope.call(get_a, Some(a)).unwrap();
    assert_eq!(scope.runtime().data(&g), Some(&1));
    scope.finish(g);
}

#[test]
fn mutating_closure_refuses_reentry() {
    let mut scope = Scope::new(Runtime::new());
    let f = scope.create_function_mut(0).unwrap();
    let g = scope.call(f, None).unwrap();
    assert!(g.own);
    assert_eq!(scope.call(f, None), Err(Error::RecursiveMutCallback));
    scope.finish(g);
    let g = scope.call(f, None).unwrap();
    scope.finish(g);
}

#[test]
fn mutating_method_refuses_reentry() {
    let mut scope = Scope::new(Runtime::new());
    let ud = counter(&mut scope, 0);
    let set = method(&scope, ud, "set");
    let bump = method(&scope, ud, "bump");
    let g = scope.call(set, Some(ud)).unwrap();
    assert_eq!(scope.call(set, Some(ud)), Err(Error::RecursiveMutCallback));
    // The mutating free function has a running flag of its own.
    let gb = scope.call(bump, None).unwrap();
    assert_eq!(scope.call(bump, None), Err(Error::RecursiveMutCallback));
    scope.finish(gb);
    scope.finish(g);
}

#[test]
fn reads_nest_and_writes_wait() {
    let mut scope = Scope::new(Runtime::new());
    let ud = counter(&mut scope, 3);
    let get = method(&scope, ud, "get");
    let peek = method(&scope, ud, "peek");
    let set = method(&scope, ud, "set");
    let g1 = scope.call(get, Some(ud)).unwrap();
    let g2 = scope.call(peek, Some(ud)).unwrap();
    assert_eq!(scope.runtime().data(&g2), Some(&3));
    assert_eq!(scope.call(set, Some(ud)), Err(Error::UserDataBorrowMutError));
    scope.finish(g2);
    assert_eq!(scope.call(set, Some(ud)), Err(Error::UserDataBorrowMutError));
    scope.finish(g1);
    let w = scope.call(set, Some(ud)).unwrap();
    assert_eq!(scope.call(get, Some(ud)), Err(Error::UserDataBorrowError));
    scope.finish(w);
    let g = scope.call(get, Some(ud)).unwrap();
    scope.finish(g);
}

#[test]
fn write_method_replaces_the_data() {
    let mut scope = Scope::new(Runtime::new());
    let ud = counter(&mut scope, 3);
    let set = method(&scope, ud, "set");
    let get = method(&scope, ud, "get");
    let w = scope.call(set, Some(ud)).unwrap();
    assert_eq!(scope.replace_data(&w, 8), Ok(3));
    scope.finish(w);
    let r = scope.call(get, Some(ud)).unwrap();
    assert_eq!(scope.runtime().data(&r), Some(&8));
    assert_eq!(scope.replace_data(&r, 9), Err(Error::UserDataBorrowMutError));
    scope.finish(r);
}

#[test]
fn static_data_round_trip() {
    let mut scope = Scope::new(Runtime::new());
    let h = scope.create_static_userdata(42).unwrap();
    let g = scope.borrow_static(h, false).unwrap();
    assert_eq!(scope.runtime().data(&g), Some(&42));
    scope.finish(g);
    let mut rt = scope.end();
    assert_eq!(rt.borrow_static(h, false), Err(Error::UserDataDestructed));
    assert_eq!(rt.borrow_static(h, true), Err(Error::UserDataDestructed));
}

#[test]
fn static_data_borrow_rules() {
    let mut scope = Scope::new(Runtime::new());
    let h = scope.create_static_userdata(1).unwrap();
    let w = scope.borrow_static(h, true).unwrap();
    assert_eq!(scope.borrow_static(h, false), Err(Error::UserDataBorrowError));
    assert_eq!(scope.borrow_static(h, true), Err(Error::UserDataBorrowMutError));
    assert_eq!(scope.replace_data(&w, 2), Ok(1));
    scope.finish(w);
    let r = scope.borrow_static(h, false).unwrap();
    assert_eq!(scope.runtime().data(&r), Some(&2));
    assert_eq!(scope.borrow_static(h, true), Err(Error::UserDataBorrowMutError));
    scope.finish(r);
}

#[test]
fn scoped_data_has_no_global_type() {
    let mut scope = Scope::new(Runtime::new());
    let ud = counter(&mut scope, 1);
    let f = scope.create_function(0).unwrap();
    assert_eq!(scope.borrow_static(ud, false), Err(Error::UserDataTypeMismatch));
    assert_eq!(scope.borrow_static(f, false), Err(Error::UserDataTypeMismatch));
}

#[test]
fn calls_on_unknown_handles_fail() {
    let mut scope: Scope<i64> = Scope::new(Runtime::new());
    assert_eq!(scope.call(0, None), Err(Error::InvalidHandle));
    assert_eq!(scope.borrow_static(3, false), Err(Error::InvalidHandle));
    let s = scope.create_static_userdata(1).unwrap();
    assert_eq!(scope.call(s, None), Err(Error::NotCallable));
}

#[test]
fn method_table_lookup() {
    let mut scope = Scope::new(Runtime::new());
    let ud = counter(&mut scope, 1);
    let rt = scope.runtime();
    assert_eq!(rt.method(ud, &key("get"), false), Ok(1));
    assert_eq!(rt.method(ud, &key("info"), false), Ok(4));
    assert_eq!(rt.method(ud, &key("__len"), true), Ok(6));
    assert_eq!(rt.method(ud, &key("__len"), false), Err(Error::NoSuchMethod));
    assert_eq!(rt.method(ud, &key("missing"), false), Err(Error::NoSuchMethod));
    assert_eq!(rt.method(99, &key("get"), false), Err(Error::InvalidHandle));
    assert_eq!(rt.value(1), Some(&1));
}

#[test]
fn method_handles_have_their_kinds() {
    let mut scope = Scope::new(Runtime::new());
    let ud = counter(&mut scope, 1);
    let info = method(&scope, ud, "info");
    let g = scope.call(info, Some(12345)).unwrap();
    assert_eq!(g.cell, None);
    scope.finish(g);
    let set = method(&scope, ud, "set");
    let g = scope.call(set, Some(ud)).unwrap();
    assert_eq!(g, CallGuard { handle: set, own: true, cell: Some(ud), write: true });
    scope.finish(g);
}

#[test]
fn adding_a_name_twice_keeps_the_last() {
    let mut m = NonStaticUserDataMethods::new();
    m.add_method("f", 1);
    m.add_method_mut("f", 2);
    let mut scope = Scope::new(Runtime::new());
    let ud = scope.create_nonstatic_userdata(0, m).unwrap();
    let f = scope.runtime().method(ud, &key("f"), false).unwrap();
    assert_eq!(scope.runtime().len(), 2);
    assert_eq!(scope.runtime().value(f), Some(&2));
    let g = scope.call(f, Some(ud)).unwrap();
    assert!(g.write);
    scope.finish(g);
}

#[test]
fn meta_operations_of_every_kind() {
    let mut m = NonStaticUserDataMethods::default();
    m.add_meta_method_mut("__newindex", 1);
    m.add_meta_function("__call", 2);
    m.add_meta_function_mut("__gc", 3);
    let mut scope = Scope::new(Runtime::new());
    let ud = scope.create_nonstatic_userdata(0, m).unwrap();
    let rt = scope.runtime();
    let newindex = rt.method(ud, &key("__newindex"), true).unwrap();
    let call = rt.method(ud, &key("__call"), true).unwrap();
    let gc = rt.method(ud, &key("__gc"), true).unwrap();
    assert_eq!((newindex, call, gc), (1, 2, 3));
    let g = scope.call(newindex, Some(ud)).unwrap();
    assert!(g.own && g.write);
    scope.finish(g);
    let g = scope.call(call, None).unwrap();
    assert!(!g.own);
    scope.finish(g);
    let g = scope.call(gc, None).unwrap();
    assert_eq!(scope.call(gc, None), Err(Error::RecursiveMutCallback));
    scope.finish(g);
}
