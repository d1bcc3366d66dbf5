//! The module registry: the run-wide catalog of loaded and built-in
//! modules, and the guard against re-entrant loads.

use vstd::prelude::*;
use crate::scope::{FnTable, ScopeNode};
use crate::table::NameTable;

verus! {

/// Evaluator-owned feature switches handed to a fresh registry. Which
/// built-ins the front end registers may depend on them; this core only
/// carries them.
#[derive(Clone, Copy, Debug, PartialEq, Eq, Structural, Default)]
pub struct RegistryFeatures {
    /// Whether the front end registers its interactive conveniences.
    pub interactive: bool,
}

/// One catalog entry for a built-in module name: the bindings its
/// constructor would install, or the module already constructed from them.
/// An entry moves from `Uninitialized` to `Available` at most once and
/// never back.
#[derive(Debug)]
pub enum RegistryEntry {
    /// The constructor's bindings, waiting for the first lookup.
    Uninitialized(FnTable),
    /// The module the first lookup constructed, by its arena index.
    Available(usize),
}

/// An entry's internal well-formedness.
pub open spec fn entry_inv(e: RegistryEntry) -> bool {
    match e {
        RegistryEntry::Uninitialized(t) => t.wf(),
        RegistryEntry::Available(_) => true,
    }
}

/// The run-wide catalog: canonical file paths of loaded modules, built-in
/// names, and the paths whose load is still in progress. One registry is
/// created per program run and shared by every module and the loader.
#[derive(Debug)]
pub struct ModuleRegistry {
    /// Canonical file path to the loaded module's arena index.
    pub local: NameTable<usize>,
    /// Built-in name to its catalog entry.
    pub registered: NameTable<RegistryEntry>,
    /// The mid-load set: paths marked before their evaluation begins and
    /// cleared when it completes, the sole re-entrancy guard.
    pub loading: NameTable<()>,
    /// The feature switches this run was started with.
    pub features: RegistryFeatures,
}

/// Every module the registry refers to is a module environment that the
/// arena really holds.
pub open spec fn linked(s: Seq<ScopeNode>, r: ModuleRegistry) -> bool {
    (forall|k: Seq<char>|
        #[trigger] r.local@.contains_key(k) ==> r.local@[k] < s.len() && s[r.local@[k] as int]
            is Module) && (forall|k: Seq<char>|
        #[trigger] r.registered@.contains_key(k) && r.registered@[k] is Available
            ==> r.registered@[k]->Available_0 < s.len() && s[r.registered@[k]->Available_0 as int]
            is Module)
}

impl ModuleRegistry {
    /// The registry invariant: well-formed tables, and every waiting
    /// constructor's bindings well formed.
    pub open spec fn wf(&self) -> bool {
        &&& self.local.wf()
        &&& self.registered.wf()
        &&& self.loading.wf()
        &&& forall|k: Seq<char>|
            #[trigger] self.registered@.contains_key(k) ==> entry_inv(self.registered@[k])
    }

    /// A fresh, empty registry for one program run.
    pub fn new(features: RegistryFeatures) -> (r: ModuleRegistry)
        ensures
            r.wf(),
            r.local@ == Map::<Seq<char>, usize>::empty(),
            r.registered@ == Map::<Seq<char>, RegistryEntry>::empty(),
            r.loading@ == Map::<Seq<char>, ()>::empty(),
            r.features == features,
    {
        ModuleRegistry {
            local: NameTable::new(),
            registered: NameTable::new(),
            loading: NameTable::new(),
            features,
        }
    }

    /// Catalog a built-in under a bare name, with the bindings its
    /// constructor will install on first lookup. Each name is registered
    /// once per run.
    pub fn register_builtin(&mut self, name: &str, functions: FnTable)
        requires
            old(self).wf(),
            functions.wf(),
            !old(self).registered@.contains_key(name@),
        ensures
            final(self).wf(),
            final(self).registered@ == old(self).registered@.insert(
                name@,
                RegistryEntry::Uninitialized(functions),
            ),
            final(self).local@ == old(self).local@,
            final(self).loading@ == old(self).loading@,
            final(self).features == old(self).features,
    {
        let key: String = name.to_owned();
        self.registered.insert(key, RegistryEntry::Uninitialized(functions));
    }

    /// Whether a path is currently mid-load.
    pub fn is_loading(&self, path: &str) -> (r: bool)
        requires
            self.wf(),
        ensures
            r == self.loading@.contains_key(path@),
    {
        let key: String = path.to_owned();
        self.loading.contains(&key)
    }

    /// The cached module for a canonical path, if that path has completed
    /// a load this run.
    pub fn local_module(&self, path: &str) -> (r: Option<usize>)
        requires
            self.wf(),
        ensures
            match r {
                Some(m) => self.local@.contains_key(path@) && m == self.local@[path@],
                None => !self.local@.contains_key(path@),
            },
    {
        let key: String = path.to_owned();
        match self.local.get_ref(&key) {
            Some(m) => Some(*m),
            None => None,
        }
    }
}

} // verus!
