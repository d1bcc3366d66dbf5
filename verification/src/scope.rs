//! Lexical environments. Every environment lives in a [`ScopeArena`] and is
//! referred to by its index; a parent link is the index of an environment
//! allocated earlier. The [`Scope`] trait is the uniform interface over the
//! four environment kinds for the operations local to one environment;
//! lookups that delegate along the parent chain are arena operations.

pub mod block_scope;
pub mod function;

use vstd::prelude::*;
use crate::data::{Data, Function};
use crate::table::NameTable;
use crate::modules::CustomModule;
use crate::modules::loader::ModuleWrapper;
use crate::scope::block_scope::BlockScope;
use crate::scope::function::CallScope;

verus! {

/// One named binding as an environment stores it: the callable together
/// with whether the declaration exported it.
#[derive(Clone, Copy, Debug, PartialEq, Eq, Structural)]
pub struct Binding {
    pub function: Function,
    pub public: bool,
}

/// The binding table every environment owns.
pub type FnTable = NameTable<Binding>;

/// An internal invariant violation: a write reached an environment that
/// forbids writes. Well-formed evaluation never produces one; a caller that
/// receives it should abort rather than continue.
#[derive(Clone, Copy, Debug, PartialEq, Eq, Structural)]
pub enum Violation {
    SetInExternalModule,
    DeleteInExternalModule,
}

/// The public bindings of a table: the view an external module reference
/// exposes.
pub open spec fn pub_map(m: Map<Seq<char>, Binding>) -> Map<Seq<char>, Function> {
    Map::new(
        |k: Seq<char>| m.contains_key(k) && m[k].public,
        |k: Seq<char>| m[k].function,
    )
}

/// The export flag an insert-or-overwrite keeps: the old binding's flag
/// when the name was already bound, private otherwise.
pub open spec fn preserved_flag(m: Map<Seq<char>, Binding>, k: Seq<char>) -> bool {
    m.contains_key(k) && m[k].public
}

/// The uniform interface of one environment: its own binding table, its
/// parent link, and the writes the language may direct at it. Name lookups
/// that fall through to the parent are [`ScopeArena`] operations, since
/// only the arena can follow an index.
pub trait Scope: Sized {
    /// The bindings this environment itself holds.
    spec fn local_map(&self) -> Map<Seq<char>, Binding>;

    /// The parent environment's index, fixed at construction.
    spec fn parent_link(&self) -> Option<usize>;

    /// Whether bindings may be written or deleted through this environment.
    spec fn allows_mutation(&self) -> bool;

    /// The environment's internal well-formedness.
    spec fn inv(&self) -> bool;

    /// Insert or overwrite a binding in the local table; on an environment
    /// that forbids writes this reports a violation and changes nothing.
    fn set_function(&mut self, name: &str, function: Function) -> (r: Result<(), Violation>)
        requires
            old(self).inv(),
        ensures
            final(self).inv(),
            final(self).parent_link() == old(self).parent_link(),
            final(self).allows_mutation() == old(self).allows_mutation(),
            old(self).allows_mutation() ==> r is Ok && final(self).local_map() == old(
                self,
            ).local_map().insert(
                name@,
                (Binding { function, public: preserved_flag(old(self).local_map(), name@) }),
            ),
            !old(self).allows_mutation() ==> r == Err::<(), Violation>(
                Violation::SetInExternalModule,
            ) && *final(self) == *old(self),
    ;

    /// Remove a binding from the local table; on an environment that
    /// forbids writes this reports a violation and changes nothing.
    fn delete_function(&mut self, name: &str) -> (r: Result<(), Violation>)
        requires
            old(self).inv(),
        ensures
            final(self).inv(),
            final(self).parent_link() == old(self).parent_link(),
            final(self).allows_mutation() == old(self).allows_mutation(),
            old(self).allows_mutation() ==> r is Ok && final(self).local_map() == old(
                self,
            ).local_map().remove(name@),
            !old(self).allows_mutation() ==> r == Err::<(), Violation>(
                Violation::DeleteInExternalModule,
            ) && *final(self) == *old(self),
    ;

    /// Store a value for retrieval by an enclosing consumer; a silent no-op
    /// on environments that cannot be call targets.
    fn set_return_value(&mut self, value: Data)
        requires
            old(self).inv(),
        ensures
            final(self).inv(),
            final(self).local_map() == old(self).local_map(),
            final(self).parent_link() == old(self).parent_link(),
            final(self).allows_mutation() == old(self).allows_mutation(),
    ;

    /// The parent environment's index.
    fn parent(&self) -> (p: Option<usize>)
        ensures
            p == self.parent_link(),
    ;
}

/// One environment as the arena stores it: the tagged dispatch over the
/// fixed set of environment kinds.
#[derive(Debug)]
pub enum ScopeNode {
    Block(BlockScope),
    Call(CallScope),
    Module(CustomModule),
    External(ModuleWrapper),
}

/// A node's own bindings.
pub open spec fn node_local(n: ScopeNode) -> Map<Seq<char>, Binding> {
    match n {
        ScopeNode::Block(b) => b.local_map(),
        ScopeNode::Call(c) => c.local_map(),
        ScopeNode::Module(m) => m.local_map(),
        ScopeNode::External(w) => w.local_map(),
    }
}

/// A node's parent link.
pub open spec fn node_parent(n: ScopeNode) -> Option<usize> {
    match n {
        ScopeNode::Block(b) => b.parent_link(),
        ScopeNode::Call(c) => c.parent_link(),
        ScopeNode::Module(m) => m.parent_link(),
        ScopeNode::External(w) => w.parent_link(),
    }
}

/// A node's internal well-formedness.
pub open spec fn node_inv(n: ScopeNode) -> bool {
    match n {
        ScopeNode::Block(b) => b.inv(),
        ScopeNode::Call(c) => c.inv(),
        ScopeNode::Module(m) => m.inv(),
        ScopeNode::External(w) => w.inv(),
    }
}

/// Whether a node's links may join an arena of `len` environments whose
/// existing nodes it may point at: every link refers to an environment
/// allocated earlier, and an external view wraps a module.
pub open spec fn node_links_ok(s: Seq<ScopeNode>, n: ScopeNode) -> bool {
    node_inv(n) && match n {
        ScopeNode::Block(b) => b.parent_link() is Some ==> b.parent_link().unwrap() < s.len(),
        ScopeNode::Call(c) => c.parent_link() is Some ==> c.parent_link().unwrap() < s.len(),
        ScopeNode::Module(m) => true,
        ScopeNode::External(w) => w.0 < s.len() && s[w.0 as int] is Module,
    }
}

/// The arena invariant at one position: the node is well formed and points
/// only at environments allocated before it.
pub open spec fn node_wf(s: Seq<ScopeNode>, i: int) -> bool {
    node_inv(s[i]) && match s[i] {
        ScopeNode::Block(b) => b.parent_link() is Some ==> b.parent_link().unwrap() < i,
        ScopeNode::Call(c) => c.parent_link() is Some ==> c.parent_link().unwrap() < i,
        ScopeNode::Module(m) => true,
        ScopeNode::External(w) => w.0 < i && s[w.0 as int] is Module,
    }
}

/// The whole arena is well formed: parent links and wrapped modules always
/// lead to earlier positions, so every chain walk terminates.
pub open spec fn arena_wf(s: Seq<ScopeNode>) -> bool {
    forall|i: int| 0 <= i < s.len() ==> node_wf(s, i)
}

/// Name resolution along the scope chain from position `i`: a binding in
/// the local table wins; otherwise the search falls through to the parent.
/// A module is the chain's root; an external view answers from the wrapped
/// module's public bindings alone.
pub open spec fn chain_get(s: Seq<ScopeNode>, i: int, name: Seq<char>) -> Option<Function>
    decreases i,
        when 0 <= i < s.len() && arena_wf(s)
        via chain_get_decreases
{
    match s[i] {
        ScopeNode::Block(b) => if b.local_map().contains_key(name) {
            Some(b.local_map()[name].function)
        } else {
            match b.parent_link() {
                Some(p) => chain_get(s, p as int, name),
                None => None,
            }
        },
        ScopeNode::Call(c) => if c.local_map().contains_key(name) {
            Some(c.local_map()[name].function)
        } else {
            match c.parent_link() {
                Some(p) => chain_get(s, p as int, name),
                None => None,
            }
        },
        ScopeNode::Module(m) => if m.local_map().contains_key(name) {
            Some(m.local_map()[name].function)
        } else {
            None
        },
        ScopeNode::External(w) => if pub_map(node_local(s[w.0 as int])).contains_key(name) {
            Some(pub_map(node_local(s[w.0 as int]))[name])
        } else {
            None
        },
    }
}

#[via_fn]
proof fn chain_get_decreases(s: Seq<ScopeNode>, i: int, name: Seq<char>) {
    assert(node_wf(s, i));
}

/// The environment of the nearest enclosing function invocation: the first
/// call frame on the chain, the starting environment included.
pub open spec fn spec_call_scope(s: Seq<ScopeNode>, i: int) -> Option<usize>
    decreases i,
        when 0 <= i < s.len() && arena_wf(s)
        via spec_call_scope_decreases
{
    if s[i] is Call {
        Some(i as usize)
    } else {
        match node_parent(s[i]) {
            Some(p) => spec_call_scope(s, p as int),
            None => None,
        }
    }
}

#[via_fn]
proof fn spec_call_scope_decreases(s: Seq<ScopeNode>, i: int) {
    assert(node_wf(s, i));
}

/// The module whose file encloses position `i`: the first module found
/// walking the parent chain, or nothing outside any module.
pub open spec fn spec_file_module(s: Seq<ScopeNode>, i: int) -> Option<usize>
    decreases i,
        when 0 <= i < s.len() && arena_wf(s)
        via spec_file_module_decreases
{
    match node_parent(s[i]) {
        None => None,
        Some(p) => if s[p as int] is Module {
            Some(p)
        } else {
            spec_file_module(s, p as int)
        },
    }
}

#[via_fn]
proof fn spec_file_module_decreases(s: Seq<ScopeNode>, i: int) {
    assert(node_wf(s, i));
}

/// The enumerable bindings at a position: an external view enumerates the
/// wrapped module's public bindings, every other environment its own.
pub open spec fn list_map(s: Seq<ScopeNode>, i: int) -> Map<Seq<char>, Function> {
    match s[i] {
        ScopeNode::External(w) => pub_map(node_local(s[w.0 as int])),
        _ => crate::table::all_funcs(node_local(s[i])),
    }
}

/// The node with its return slot replaced, where it has one.
pub open spec fn with_return(n: ScopeNode, value: Data) -> ScopeNode {
    match n {
        ScopeNode::Block(b) => ScopeNode::Block(BlockScope { return_value: value, ..b }),
        ScopeNode::Call(c) => ScopeNode::Call(CallScope { return_value: value, ..c }),
        ScopeNode::Module(m) => ScopeNode::Module(m),
        ScopeNode::External(w) => ScopeNode::External(w),
    }
}

/// Two nodes of the same kind with the same links and the same
/// evaluator-visible state outside the binding table.
pub open spec fn same_except_local(a: ScopeNode, b: ScopeNode) -> bool {
    match (a, b) {
        (ScopeNode::Block(x), ScopeNode::Block(y)) => x.parent == y.parent && x.return_value
            == y.return_value && x.if_state == y.if_state && x.match_value == y.match_value,
        (ScopeNode::Call(x), ScopeNode::Call(y)) => x.parent == y.parent && x.return_value
            == y.return_value,
        (ScopeNode::Module(x), ScopeNode::Module(y)) => x.path == y.path,
        (ScopeNode::External(x), ScopeNode::External(y)) => x == y,
        _ => false,
    }
}

/// Replacing a node with one of the same kind and links keeps the arena
/// well formed.
proof fn lemma_arena_wf_update(s: Seq<ScopeNode>, i: int, n: ScopeNode)
    requires
        arena_wf(s),
        0 <= i < s.len(),
        node_inv(n),
        node_parent(n) == node_parent(s[i]),
        s[i] is Module <==> n is Module,
        n is External <==> s[i] is External,
        n is External ==> n->External_0 == s[i]->External_0,
        n is Block <==> s[i] is Block,
        n is Call <==> s[i] is Call,
    ensures
        arena_wf(s.update(i, n)),
{
    let s2 = s.update(i, n);
    assert forall|j: int| 0 <= j < s2.len() implies node_wf(s2, j) by {
        assert(node_wf(s, j));
    }
}

/// The result of a chain walk depends only on the environments up to its
/// starting position: later allocations and later updates do not change
/// what an existing chain resolves.
pub proof fn lemma_chain_get_prefix(
    s1: Seq<ScopeNode>,
    s2: Seq<ScopeNode>,
    i: int,
    name: Seq<char>,
)
    requires
        arena_wf(s1),
        arena_wf(s2),
        0 <= i < s1.len(),
        i < s2.len(),
        forall|j: int| 0 <= j <= i ==> s1[j] == s2[j],
    ensures
        chain_get(s1, i, name) == chain_get(s2, i, name),
    decreases i,
{
    assert(node_wf(s1, i));
    match s1[i] {
        ScopeNode::Block(b) => {
            if !b.local_map().contains_key(name) && b.parent_link() is Some {
                lemma_chain_get_prefix(s1, s2, b.parent_link().unwrap() as int, name);
            }
        },
        ScopeNode::Call(c) => {
            if !c.local_map().contains_key(name) && c.parent_link() is Some {
                lemma_chain_get_prefix(s1, s2, c.parent_link().unwrap() as int, name);
            }
        },
        ScopeNode::Module(m) => {},
        ScopeNode::External(w) => {},
    }
}

/// Law: an external module view separates public from private. A binding
/// the wrapped module exports resolves through the view to that binding's
/// function; a binding the module holds privately, or does not hold at
/// all, is invisible through the view.
pub proof fn lemma_view_respects_privacy(s: Seq<ScopeNode>, w: int, name: Seq<char>)
    requires
        arena_wf(s),
        0 <= w < s.len(),
        s[w] is External,
    ensures
        ({
            let m = s[w]->External_0.0 as int;
            &&& (node_local(s[m]).contains_key(name) && node_local(s[m])[name].public)
                ==> chain_get(s, w, name) == Some(node_local(s[m])[name].function)
            &&& (!node_local(s[m]).contains_key(name) || !node_local(s[m])[name].public)
                ==> chain_get(s, w, name) is None
        }),
{
    assert(node_wf(s, w));
}

/// Law: a binding declared in a block shadows any same-named binding of an
/// ancestor; a lookup inside the block resolves to the block's own
/// binding.
pub proof fn lemma_block_shadowing(s: Seq<ScopeNode>, b: int, name: Seq<char>)
    requires
        arena_wf(s),
        0 <= b < s.len(),
        s[b] is Block,
        node_local(s[b]).contains_key(name),
    ensures
        chain_get(s, b, name) == Some(node_local(s[b])[name].function),
{
    assert(node_wf(s, b));
}

/// Law: every external view of one module resolves every name alike. Two
/// imports that obtained the same module instance — a path resolved twice,
/// or a built-in looked up twice — observe identical bindings through
/// their views.
pub proof fn lemma_views_of_same_module_agree(
    s: Seq<ScopeNode>,
    w1: int,
    w2: int,
    name: Seq<char>,
)
    requires
        arena_wf(s),
        0 <= w1 < s.len(),
        0 <= w2 < s.len(),
        s[w1] is External,
        s[w2] is External,
        s[w1]->External_0.0 == s[w2]->External_0.0,
    ensures
        chain_get(s, w1, name) == chain_get(s, w2, name),
{
    assert(node_wf(s, w1));
    assert(node_wf(s, w2));
}

/// Law: writing into a nested environment leaves every ancestor's
/// resolution unchanged. Parent links only lead to earlier positions, so a
/// lookup started at an ancestor never passes the updated position.
pub proof fn lemma_update_invisible_to_ancestor(
    s: Seq<ScopeNode>,
    n: ScopeNode,
    a: int,
    b: int,
    name: Seq<char>,
)
    requires
        arena_wf(s),
        arena_wf(s.update(b, n)),
        0 <= a < b < s.len(),
    ensures
        chain_get(s.update(b, n), a, name) == chain_get(s, a, name),
{
    lemma_chain_get_prefix(s, s.update(b, n), a, name);
}

/// The environments of one run: every scope lives here and is referred to
/// by its index, so parent links are plain indices into earlier positions.
#[derive(Debug)]
pub struct ScopeArena {
    pub nodes: Vec<ScopeNode>,
}

impl View for ScopeArena {
    type V = Seq<ScopeNode>;

    open spec fn view(&self) -> Seq<ScopeNode> {
        self.nodes@
    }
}

impl ScopeArena {
    /// The arena invariant.
    pub open spec fn wf(&self) -> bool {
        arena_wf(self@)
    }

    /// An empty arena for a fresh run.
    pub fn new() -> (r: ScopeArena)
        ensures
            r.wf(),
            r@.len() == 0,
    {
        ScopeArena { nodes: Vec::new() }
    }

    /// The number of environments allocated.
    pub fn len(&self) -> (r: usize)
        ensures
            r == self@.len(),
    {
        self.nodes.len()
    }

    /// Allocate an environment; its index is the handle every later
    /// operation takes.
    pub fn add(&mut self, node: ScopeNode) -> (idx: usize)
        requires
            old(self).wf(),
            node_links_ok(old(self)@, node),
        ensures
            final(self).wf(),
            idx == old(self)@.len(),
            final(self)@ == old(self)@.push(node),
    {
        let idx = self.nodes.len();
        self.nodes.push(node);
        proof {
            assert forall|j: int| 0 <= j < self@.len() implies node_wf(self@, j) by {
                if j < idx {
                    assert(node_wf(old(self)@, j));
                }
            }
        }
        idx
    }

    /// The parent environment of position `idx`.
    pub fn parent(&self, idx: usize) -> (p: Option<usize>)
        requires
            self.wf(),
            idx < self@.len(),
        ensures
            p == node_parent(self@[idx as int]),
    {
        match &self.nodes[idx] {
            ScopeNode::Block(b) => b.parent(),
            ScopeNode::Call(c) => c.parent(),
            ScopeNode::Module(m) => m.parent(),
            ScopeNode::External(w) => w.parent(),
        }
    }

    /// Resolve a name along the scope chain from `idx`: the nearest local
    /// binding wins; an external view answers from the wrapped module's
    /// public bindings alone. Returns a copy of the binding's function.
    pub fn get_function(&self, idx: usize, name: &str) -> (r: Option<Function>)
        requires
            self.wf(),
            idx < self@.len(),
        ensures
            r == chain_get(self@, idx as int, name@),
    {
        let key: String = name.to_owned();
        let mut i: usize = idx;
        loop
            invariant
                self.wf(),
                i < self@.len(),
                key@ == name@,
                chain_get(self@, idx as int, name@) == chain_get(self@, i as int, name@),
            decreases i,
        {
            proof {
                assert(node_wf(self@, i as int));
            }
            match &self.nodes[i] {
                ScopeNode::Block(b) => {
                    match b.local_functions.get_ref(&key) {
                        Some(bind) => {
                            return Some(bind.function);
                        },
                        None => {
                            match b.parent {
                                Some(p) => {
                                    i = p;
                                },
                                None => {
                                    return None;
                                },
                            }
                        },
                    }
                },
                ScopeNode::Call(c) => {
                    match c.local_functions.get_ref(&key) {
                        Some(bind) => {
                            return Some(bind.function);
                        },
                        None => {
                            match c.parent {
                                Some(p) => {
                                    i = p;
                                },
                                None => {
                                    return None;
                                },
                            }
                        },
                    }
                },
                ScopeNode::Module(m) => {
                    return match m.functions.get_ref(&key) {
                        Some(bind) => Some(bind.function),
                        None => None,
                    };
                },
                ScopeNode::External(w) => {
                    let target = w.0;
                    proof {
                        assert(node_wf(self@, target as int));
                    }
                    return match &self.nodes[target] {
                        ScopeNode::Module(md) => md.get_pub_function(name),
                        _ => vstd::pervasive::unreached(),
                    };
                },
            }
        }
    }

    /// Whether the chain from `idx` resolves the name.
    pub fn has_function(&self, idx: usize, name: &str) -> (r: bool)
        requires
            self.wf(),
            idx < self@.len(),
        ensures
            r == (chain_get(self@, idx as int, name@) is Some),
    {
        self.get_function(idx, name).is_some()
    }

    /// Insert or overwrite a binding in the local table at `idx`; through
    /// an external view this reports a violation and changes nothing.
    pub fn set_function(&mut self, idx: usize, name: &str, function: Function) -> (r: Result<
        (),
        Violation,
    >)
        requires
            old(self).wf(),
            idx < old(self)@.len(),
        ensures
            final(self).wf(),
            final(self)@.len() == old(self)@.len(),
            final(self)@ == old(self)@.update(idx as int, final(self)@[idx as int]),
            match r {
                Ok(_) => !(old(self)@[idx as int] is External) && same_except_local(
                    old(self)@[idx as int],
                    final(self)@[idx as int],
                ) && node_local(final(self)@[idx as int]) == node_local(
                    old(self)@[idx as int],
                ).insert(
                    name@,
                    (Binding {
                        function,
                        public: preserved_flag(node_local(old(self)@[idx as int]), name@),
                    }),
                ),
                Err(v) => old(self)@[idx as int] is External && v
                    == Violation::SetInExternalModule && final(self)@ == old(self)@,
            },
    {
        let ghost s0 = self@;
        proof {
            assert(node_wf(s0, idx as int));
        }
        let mut node = self.nodes.remove(idx);
        let r = match &mut node {
            ScopeNode::Block(b) => b.set_function(name, function),
            ScopeNode::Call(c) => c.set_function(name, function),
            ScopeNode::Module(m) => m.set_function(name, function),
            ScopeNode::External(w) => w.set_function(name, function),
        };
        self.nodes.insert(idx, node);
        proof {
            assert(self@ =~= s0.update(idx as int, self@[idx as int]));
            lemma_arena_wf_update(s0, idx as int, self@[idx as int]);
            if r is Err {
                assert(self@ =~= s0);
            }
        }
        r
    }

    /// Remove a binding from the local table at `idx`; through an external
    /// view this reports a violation and changes nothing.
    pub fn delete_function(&mut self, idx: usize, name: &str) -> (r: Result<(), Violation>)
        requires
            old(self).wf(),
            idx < old(self)@.len(),
        ensures
            final(self).wf(),
            final(self)@.len() == old(self)@.len(),
            final(self)@ == old(self)@.update(idx as int, final(self)@[idx as int]),
            match r {
                Ok(_) => !(old(self)@[idx as int] is External) && same_except_local(
                    old(self)@[idx as int],
                    final(self)@[idx as int],
                ) && node_local(final(self)@[idx as int]) == node_local(
                    old(self)@[idx as int],
                ).remove(name@),
                Err(v) => old(self)@[idx as int] is External && v
                    == Violation::DeleteInExternalModule && final(self)@ == old(self)@,
            },
    {
        let ghost s0 = self@;
        proof {
            assert(node_wf(s0, idx as int));
        }
        let mut node = self.nodes.remove(idx);
        let r = match &mut node {
            ScopeNode::Block(b) => b.delete_function(name),
            ScopeNode::Call(c) => c.delete_function(name),
            ScopeNode::Module(m) => m.delete_function(name),
            ScopeNode::External(w) => w.delete_function(name),
        };
        self.nodes.insert(idx, node);
        proof {
            assert(self@ =~= s0.update(idx as int, self@[idx as int]));
            lemma_arena_wf_update(s0, idx as int, self@[idx as int]);
            if r is Err {
                assert(self@ =~= s0);
            }
        }
        r
    }

    /// Insert or overwrite a binding at `idx` and mark it exported, as a
    /// declaration with the export marker does. Only a module distinguishes
    /// exports, so `idx` must name one.
    pub fn set_pub_function(&mut self, idx: usize, name: &str, function: Function)
        requires
            old(self).wf(),
            idx < old(self)@.len(),
            old(self)@[idx as int] is Module,
        ensures
            final(self).wf(),
            final(self)@.len() == old(self)@.len(),
            final(self)@ == old(self)@.update(idx as int, final(self)@[idx as int]),
            final(self)@[idx as int] is Module,
            same_except_local(old(self)@[idx as int], final(self)@[idx as int]),
            node_local(final(self)@[idx as int]) == node_local(old(self)@[idx as int]).insert(
                name@,
                (Binding { function, public: true }),
            ),
    {
        let ghost s0 = self@;
        proof {
            assert(node_wf(s0, idx as int));
        }
        let mut node = self.nodes.remove(idx);
        match &mut node {
            ScopeNode::Module(m) => {
                m.set_pub_function(name, function);
            },
            _ => {
                proof {
                    assert(false);
                }
            },
        };
        self.nodes.insert(idx, node);
        proof {
            assert(self@ =~= s0.update(idx as int, self@[idx as int]));
            lemma_arena_wf_update(s0, idx as int, self@[idx as int]);
        }
    }

    /// Store a value in the return slot at `idx`. On an environment that
    /// cannot be a call target the value is silently discarded, by design.
    pub fn set_return_value(&mut self, idx: usize, value: Data)
        requires
            old(self).wf(),
            idx < old(self)@.len(),
        ensures
            final(self).wf(),
            final(self)@ == old(self)@.update(
                idx as int,
                with_return(old(self)@[idx as int], value),
            ),
    {
        let ghost s0 = self@;
        proof {
            assert(node_wf(s0, idx as int));
        }
        let mut node = self.nodes.remove(idx);
        match &mut node {
            ScopeNode::Block(b) => b.set_return_value(value),
            ScopeNode::Call(c) => c.set_return_value(value),
            ScopeNode::Module(m) => m.set_return_value(value),
            ScopeNode::External(w) => w.set_return_value(value),
        };
        self.nodes.insert(idx, node);
        proof {
            assert(self@ =~= s0.update(idx as int, self@[idx as int]));
            assert(self@[idx as int] == with_return(s0[idx as int], value));
            lemma_arena_wf_update(s0, idx as int, self@[idx as int]);
        }
    }

    /// The nearest enclosing call frame, the starting environment included.
    pub fn get_call_scope(&self, idx: usize) -> (r: Option<usize>)
        requires
            self.wf(),
            idx < self@.len(),
        ensures
            r == spec_call_scope(self@, idx as int),
    {
        let mut i: usize = idx;
        loop
            invariant
                self.wf(),
                i < self@.len(),
                spec_call_scope(self@, idx as int) == spec_call_scope(self@, i as int),
            decreases i,
        {
            proof {
                assert(node_wf(self@, i as int));
            }
            match &self.nodes[i] {
                ScopeNode::Call(_) => {
                    return Some(i);
                },
                _ => {},
            }
            match self.parent(i) {
                Some(p) => {
                    i = p;
                },
                None => {
                    return None;
                },
            }
        }
    }

    /// The module whose file encloses position `idx`: the first module on
    /// the parent chain, or nothing outside any module.
    pub fn get_file_module(&self, idx: usize) -> (r: Option<usize>)
        requires
            self.wf(),
            idx < self@.len(),
        ensures
            r == spec_file_module(self@, idx as int),
    {
        let mut i: usize = idx;
        loop
            invariant
                self.wf(),
                i < self@.len(),
                spec_file_module(self@, idx as int) == spec_file_module(self@, i as int),
            decreases i,
        {
            proof {
                assert(node_wf(self@, i as int));
            }
            match self.parent(i) {
                Some(p) => {
                    match &self.nodes[p] {
                        ScopeNode::Module(_) => {
                            return Some(p);
                        },
                        _ => {
                            i = p;
                        },
                    }
                },
                None => {
                    return None;
                },
            }
        }
    }

    /// The enumerable bindings at `idx`: its own for an ordinary
    /// environment, the wrapped module's public bindings for an external
    /// view.
    pub fn get_function_list(&self, idx: usize) -> (r: NameTable<Function>)
        requires
            self.wf(),
            idx < self@.len(),
        ensures
            r.wf(),
            r@ == list_map(self@, idx as int),
    {
        proof {
            assert(node_wf(self@, idx as int));
        }
        match &self.nodes[idx] {
            ScopeNode::Block(b) => b.local_functions.function_list(false),
            ScopeNode::Call(c) => c.local_functions.function_list(false),
            ScopeNode::Module(m) => m.functions.function_list(false),
            ScopeNode::External(w) => {
                proof {
                    assert(node_wf(self@, w.0 as int));
                }
                match &self.nodes[w.0] {
                    ScopeNode::Module(md) => md.functions.function_list(true),
                    _ => vstd::pervasive::unreached(),
                }
            },
        }
    }

    /// A scope's display form; scopes print uniformly.
    pub fn to_string(&self, idx: usize) -> (r: String)
        requires
            idx < self@.len(),
        ensures
            r@ == "[scope]"@,
    {
        "[scope]".to_owned()
    }
}

} // verus!
