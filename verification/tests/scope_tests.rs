use bean_scope::data::{Data, Function};
use bean_scope::modules::loader::ModuleWrapper;
use bean_scope::modules::CustomModule;
use bean_scope::scope::block_scope::{BlockScope, IfState};
use bean_scope::scope::function::CallScope;
use bean_scope::scope::{ScopeArena, ScopeNode, Violation};

fn f(id: u64) -> Function {
    Function { id }
}

#[test]
fn fresh_block_defaults() {
    let b = BlockScope::new(None);
    assert_eq!(b.return_value, Data::Empty);
    assert_eq!(b.if_state, IfState::Finished);
    assert!(b.match_value.is_none());
}

#[test]
fn block_shadows_ancestor_and_leaves_it_unchanged() {
    let mut arena = ScopeArena::new();
    let m = arena.add(ScopeNode::Module(CustomModule::new(String::from("./main.bean"))));
    arena.set_function(m, "f", f(1)).unwrap();
    let b = arena.add(ScopeNode::Block(BlockScope::new(Some(m))));

    // the block sees the ancestor binding before it shadows it
    assert_eq!(arena.get_function(b, "f"), Some(f(1)));
    arena.set_function(b, "f", f(2)).unwrap();
    // inside the block the local binding wins
    assert_eq!(arena.get_function(b, "f"), Some(f(2)));
    // the ancestor's own binding is untouched
    assert_eq!(arena.get_function(m, "f"), Some(f(1)));
    // dropping the shadow restores the fall-through
    arena.delete_function(b, "f").unwrap();
    assert_eq!(arena.get_function(b, "f"), Some(f(1)));
}

#[test]
fn lookup_falls_through_nested_blocks() {
    let mut arena = ScopeArena::new();
    let m = arena.add(ScopeNode::Module(CustomModule::new(String::from("./main.bean"))));
    arena.set_function(m, "deep", f(7)).unwrap();
    let b1 = arena.add(ScopeNode::Block(BlockScope::new(Some(m))));
    let b2 = arena.add(ScopeNode::Block(BlockScope::new(Some(b1))));
    assert!(arena.has_function(b2, "deep"));
    assert_eq!(arena.get_function(b2, "deep"), Some(f(7)));
    assert!(!arena.has_function(b2, "absent"));
}

#[test]
fn private_binding_invisible_through_view() {
    let mut arena = ScopeArena::new();
    let m = arena.add(ScopeNode::Module(CustomModule::new(String::from("./a.bean"))));
    arena.set_function(m, "secret", f(3)).unwrap();
    arena.set_pub_function(m, "api", f(4));
    let w = arena.add(ScopeNode::External(ModuleWrapper(m)));

    // inside the module both resolve
    assert_eq!(arena.get_function(m, "secret"), Some(f(3)));
    assert_eq!(arena.get_function(m, "api"), Some(f(4)));
    // through the view only the export resolves
    assert!(!arena.has_function(w, "secret"));
    assert_eq!(arena.get_function(w, "secret"), None);
    assert_eq!(arena.get_function(w, "api"), Some(f(4)));
}

#[test]
fn view_mutation_reports_violation_and_changes_nothing() {
    let mut arena = ScopeArena::new();
    let m = arena.add(ScopeNode::Module(CustomModule::new(String::from("./a.bean"))));
    arena.set_pub_function(m, "api", f(4));
    let w = arena.add(ScopeNode::External(ModuleWrapper(m)));

    assert_eq!(arena.set_function(w, "api", f(9)), Err(Violation::SetInExternalModule));
    assert_eq!(arena.delete_function(w, "api"), Err(Violation::DeleteInExternalModule));
    // the wrapped module is untouched
    assert_eq!(arena.get_function(m, "api"), Some(f(4)));
    assert_eq!(arena.get_function(w, "api"), Some(f(4)));
}

#[test]
fn nearest_call_scope_is_found_from_nested_blocks() {
    let mut arena = ScopeArena::new();
    let m = arena.add(ScopeNode::Module(CustomModule::new(String::from("./main.bean"))));
    let c = arena.add(ScopeNode::Call(CallScope::new(Some(m))));
    let b1 = arena.add(ScopeNode::Block(BlockScope::new(Some(c))));
    let b2 = arena.add(ScopeNode::Block(BlockScope::new(Some(b1))));
    assert_eq!(arena.get_call_scope(b2), Some(c));
    assert_eq!(arena.get_call_scope(c), Some(c));
    assert_eq!(arena.get_call_scope(m), None);
}

#[test]
fn file_module_is_found_from_nested_blocks() {
    let mut arena = ScopeArena::new();
    let m = arena.add(ScopeNode::Module(CustomModule::new(String::from("./main.bean"))));
    let c = arena.add(ScopeNode::Call(CallScope::new(Some(m))));
    let b1 = arena.add(ScopeNode::Block(BlockScope::new(Some(c))));
    assert_eq!(arena.get_file_module(b1), Some(m));
    assert_eq!(arena.get_file_module(c), Some(m));
    assert_eq!(arena.get_file_module(m), None);
}

#[test]
fn return_value_lands_in_block_and_is_discarded_by_view() {
    let mut arena = ScopeArena::new();
    let m = arena.add(ScopeNode::Module(CustomModule::new(String::from("./a.bean"))));
    let b = arena.add(ScopeNode::Block(BlockScope::new(Some(m))));
    let w = arena.add(ScopeNode::External(ModuleWrapper(m)));

    arena.set_return_value(b, Data::Value(42));
    match &arena.nodes[b] {
        ScopeNode::Block(bs) => assert_eq!(bs.return_value, Data::Value(42)),
        _ => panic!("expected a block"),
    }
    // silently discarded on the view
    arena.set_return_value(w, Data::Value(1));
    match &arena.nodes[w] {
        ScopeNode::External(wr) => assert_eq!(*wr, ModuleWrapper(m)),
        _ => panic!("expected a view"),
    }
}

#[test]
fn function_list_respects_the_view() {
    let mut arena = ScopeArena::new();
    let m = arena.add(ScopeNode::Module(CustomModule::new(String::from("./a.bean"))));
    arena.set_function(m, "secret", f(3)).unwrap();
    arena.set_pub_function(m, "api", f(4));
    let w = arena.add(ScopeNode::External(ModuleWrapper(m)));

    let own = arena.get_function_list(m);
    assert_eq!(own.get_ref(&String::from("secret")), Some(&f(3)));
    assert_eq!(own.get_ref(&String::from("api")), Some(&f(4)));

    let seen = arena.get_function_list(w);
    assert_eq!(seen.get_ref(&String::from("secret")), None);
    assert_eq!(seen.get_ref(&String::from("api")), Some(&f(4)));
}

#[test]
fn scopes_print_uniformly() {
    let mut arena = ScopeArena::new();
    let m = arena.add(ScopeNode::Module(CustomModule::new(String::from("./a.bean"))));
    assert_eq!(arena.to_string(m), String::from("[scope]"));
}

#[test]
fn export_marker_overrides_private_binding() {
    let mut arena = ScopeArena::new();
    let m = arena.add(ScopeNode::Module(CustomModule::new(String::from("./a.bean"))));
    arena.set_function(m, "g", f(1)).unwrap();
    let w = arena.add(ScopeNode::External(ModuleWrapper(m)));
    assert!(!arena.has_function(w, "g"));
    arena.set_pub_function(m, "g", f(2));
    assert_eq!(arena.get_function(w, "g"), Some(f(2)));
    // overwriting an exported binding keeps it exported
    arena.set_function(m, "g", f(5)).unwrap();
    assert_eq!(arena.get_function(w, "g"), Some(f(5)));
}
