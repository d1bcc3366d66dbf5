use bean_scope::data::Function;
use bean_scope::modules::loader::{finish_load, get, get_reg, BeanError, Resolution};
use bean_scope::modules::registry::{ModuleRegistry, RegistryFeatures};
use bean_scope::scope::{Binding, FnTable, ScopeArena, ScopeNode};

fn f(id: u64) -> Function {
    Function { id }
}

fn fresh() -> (ScopeArena, ModuleRegistry) {
    (ScopeArena::new(), ModuleRegistry::new(RegistryFeatures::default()))
}

fn math_table() -> FnTable {
    let mut t = FnTable::new();
    t.insert(String::from("add"), Binding { function: f(10), public: true });
    t.insert(String::from("mul"), Binding { function: f(11), public: true });
    t
}

#[test]
fn local_load_runs_once_and_is_cached() {
    let (mut arena, mut registry) = fresh();

    // first resolution asks for the file
    let pending = get(&mut arena, &mut registry, "./util").unwrap();
    let (m, p) = match pending {
        Resolution::Pending(m, p) => (m, p),
        other => panic!("expected a pending load, got {:?}", other),
    };
    assert_eq!(p, String::from("./util.bean"));
    assert!(registry.is_loading("./util.bean"));

    // the front end evaluates the file against the new module
    arena.set_pub_function(m, "add", f(5));
    finish_load(&arena, &mut registry, &p, m, true);
    assert!(!registry.is_loading("./util.bean"));
    assert_eq!(registry.local_module("./util.bean"), Some(m));

    // the second resolution returns the same module, with no file work
    let len_before = arena.len();
    let w = match get(&mut arena, &mut registry, "./util").unwrap() {
        Resolution::Loaded(w) => w,
        other => panic!("expected a cached module, got {:?}", other),
    };
    // only the fresh external view was allocated
    assert_eq!(arena.len(), len_before + 1);
    match &arena.nodes[w] {
        ScopeNode::External(wrapper) => assert_eq!(wrapper.0, m),
        other => panic!("expected an external view, got {:?}", other),
    }
    // the caller observes the binding installed during the one load
    assert_eq!(arena.get_function(w, "add"), Some(f(5)));

    // and a third resolution wraps the very same module again
    let w2 = match get(&mut arena, &mut registry, "./util").unwrap() {
        Resolution::Loaded(w2) => w2,
        other => panic!("expected a cached module, got {:?}", other),
    };
    match &arena.nodes[w2] {
        ScopeNode::External(wrapper) => assert_eq!(wrapper.0, m),
        other => panic!("expected an external view, got {:?}", other),
    }
}

#[test]
fn cyclic_import_fails_with_the_closing_path() {
    let (mut arena, mut registry) = fresh();

    // `a` starts loading
    let (ma, pa) = match get(&mut arena, &mut registry, "./a").unwrap() {
        Resolution::Pending(m, p) => (m, p),
        other => panic!("expected a pending load, got {:?}", other),
    };
    // while evaluating `a`, it imports `b`, which starts loading
    let (mb, pb) = match get(&mut arena, &mut registry, "./b").unwrap() {
        Resolution::Pending(m, p) => (m, p),
        other => panic!("expected a pending load, got {:?}", other),
    };
    // while evaluating `b`, it imports `a` again: the cycle is caught
    match get(&mut arena, &mut registry, "./a") {
        Err(BeanError::CyclicLoad(p)) => assert_eq!(p, String::from("./a.bean")),
        other => panic!("expected a cyclic-load error, got {:?}", other),
    }
    // unrelated nested loads are unaffected: both finish normally
    finish_load(&arena, &mut registry, &pb, mb, true);
    finish_load(&arena, &mut registry, &pa, ma, true);
    assert!(!registry.is_loading("./a.bean"));
    assert!(!registry.is_loading("./b.bean"));
}

#[test]
fn failed_load_is_not_cached() {
    let (mut arena, mut registry) = fresh();
    let (m, p) = match get(&mut arena, &mut registry, "./broken").unwrap() {
        Resolution::Pending(m, p) => (m, p),
        other => panic!("expected a pending load, got {:?}", other),
    };
    // the file did not parse: the mark is cleared, nothing is cached
    finish_load(&arena, &mut registry, &p, m, false);
    assert!(!registry.is_loading("./broken.bean"));
    assert_eq!(registry.local_module("./broken.bean"), None);
    // a later attempt starts over from scratch
    match get(&mut arena, &mut registry, "./broken").unwrap() {
        Resolution::Pending(_, p2) => assert_eq!(p2, String::from("./broken.bean")),
        other => panic!("expected a fresh pending load, got {:?}", other),
    }
}

#[test]
fn builtin_constructed_once_and_shared() {
    let (mut arena, mut registry) = fresh();
    registry.register_builtin("math", math_table());

    let w1 = match get(&mut arena, &mut registry, "math").unwrap() {
        Resolution::Loaded(w) => w,
        other => panic!("expected a loaded built-in, got {:?}", other),
    };
    let len_after_first = arena.len();
    let w2 = match get(&mut arena, &mut registry, "math").unwrap() {
        Resolution::Loaded(w) => w,
        other => panic!("expected a loaded built-in, got {:?}", other),
    };
    // the second lookup allocated only its view: the constructor ran once
    assert_eq!(arena.len(), len_after_first + 1);
    let m1 = match &arena.nodes[w1] {
        ScopeNode::External(wrapper) => wrapper.0,
        other => panic!("expected an external view, got {:?}", other),
    };
    let m2 = match &arena.nodes[w2] {
        ScopeNode::External(wrapper) => wrapper.0,
        other => panic!("expected an external view, got {:?}", other),
    };
    assert_eq!(m1, m2);
    // both views expose identical bindings
    assert_eq!(arena.get_function(w1, "add"), Some(f(10)));
    assert_eq!(arena.get_function(w2, "add"), Some(f(10)));
    assert_eq!(arena.get_function(w1, "mul"), Some(f(11)));
    assert_eq!(arena.get_function(w2, "mul"), Some(f(11)));
}

#[test]
fn unknown_builtin_fails_with_exactly_that_name() {
    let (mut arena, mut registry) = fresh();
    registry.register_builtin("math", math_table());
    match get(&mut arena, &mut registry, "mathx") {
        Err(BeanError::UnknownModule(n)) => assert_eq!(n, String::from("mathx")),
        other => panic!("expected an unknown-module error, got {:?}", other),
    }
}

#[test]
fn get_reg_memoizes_the_instance() {
    let (mut arena, mut registry) = fresh();
    registry.register_builtin("math", math_table());
    assert_eq!(get_reg(&mut arena, &mut registry, "strings"), None);
    let m1 = get_reg(&mut arena, &mut registry, "math").unwrap();
    let len = arena.len();
    let m2 = get_reg(&mut arena, &mut registry, "math").unwrap();
    assert_eq!(m1, m2);
    // the second lookup allocated nothing at all
    assert_eq!(arena.len(), len);
}

#[test]
fn builtins_shared_between_importing_files() {
    // two different files import the same built-in in one run
    let (mut arena, mut registry) = fresh();
    registry.register_builtin("math", math_table());

    let (mf1, pf1) = match get(&mut arena, &mut registry, "./one").unwrap() {
        Resolution::Pending(m, p) => (m, p),
        other => panic!("expected a pending load, got {:?}", other),
    };
    let wa = match get(&mut arena, &mut registry, "math").unwrap() {
        Resolution::Loaded(w) => w,
        other => panic!("expected the built-in, got {:?}", other),
    };
    finish_load(&arena, &mut registry, &pf1, mf1, true);

    let (mf2, pf2) = match get(&mut arena, &mut registry, "./two").unwrap() {
        Resolution::Pending(m, p) => (m, p),
        other => panic!("expected a pending load, got {:?}", other),
    };
    let wb = match get(&mut arena, &mut registry, "math").unwrap() {
        Resolution::Loaded(w) => w,
        other => panic!("expected the built-in, got {:?}", other),
    };
    finish_load(&arena, &mut registry, &pf2, mf2, true);

    let ma = match &arena.nodes[wa] {
        ScopeNode::External(wrapper) => wrapper.0,
        other => panic!("expected an external view, got {:?}", other),
    };
    let mb = match &arena.nodes[wb] {
        ScopeNode::External(wrapper) => wrapper.0,
        other => panic!("expected an external view, got {:?}", other),
    };
    // both obtain the same instance
    assert_eq!(ma, mb);
}
