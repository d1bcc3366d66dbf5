//! Modules: the persistent, file-scoped environments and the machinery
//! that loads them.

pub mod loader;
pub mod registry;

use vstd::prelude::*;
use crate::data::{Data, Function};
use crate::scope::{preserved_flag, pub_map, Binding, FnTable, Scope, Violation};

verus! {

/// The module environment: created once per loaded source file (or per
/// built-in), it owns the file's top-level bindings with their
/// public/private distinction and is the root of the scope chain while the
/// file evaluates. Its identity, for caching and mutation visibility, is
/// its canonical path; the run's one registry holds it by that path.
#[derive(Debug)]
pub struct CustomModule {
    pub functions: FnTable,
    /// The canonical path of the source file, or the registered name of a
    /// built-in.
    pub path: String,
}

impl CustomModule {
    /// A fresh, empty module tagged with its canonical path.
    pub fn new(path: String) -> (r: CustomModule)
        ensures
            r.inv(),
            r.local_map() == Map::<Seq<char>, Binding>::empty(),
            r.path@ == path@,
            r.parent_link() is None,
            r.allows_mutation(),
    {
        CustomModule { functions: FnTable::new(), path }
    }

    /// A module whose bindings are given up front, as a built-in's
    /// constructor supplies them.
    pub fn with_bindings(path: String, functions: FnTable) -> (r: CustomModule)
        requires
            functions.wf(),
        ensures
            r.inv(),
            r.local_map() == functions@,
            r.path@ == path@,
            r.parent_link() is None,
            r.allows_mutation(),
    {
        CustomModule { functions, path }
    }

    /// Insert or overwrite a binding and mark it exported, as a declaration
    /// with the export marker does.
    pub fn set_pub_function(&mut self, name: &str, function: Function)
        requires
            old(self).inv(),
        ensures
            final(self).inv(),
            final(self).local_map() == old(self).local_map().insert(
                name@,
                (Binding { function, public: true }),
            ),
            final(self).path == old(self).path,
    {
        let key: String = name.to_owned();
        self.functions.insert(key, Binding { function, public: true });
    }

    /// Whether the module exports a binding of this name.
    pub fn has_pub_function(&self, name: &str) -> (r: bool)
        requires
            self.inv(),
        ensures
            r == pub_map(self.local_map()).contains_key(name@),
    {
        let key: String = name.to_owned();
        match self.functions.get_ref(&key) {
            Some(b) => b.public,
            None => false,
        }
    }

    /// A copy of the exported binding of this name, if there is one.
    pub fn get_pub_function(&self, name: &str) -> (r: Option<Function>)
        requires
            self.inv(),
        ensures
            match r {
                Some(f) => pub_map(self.local_map()).contains_key(name@) && f == pub_map(
                    self.local_map(),
                )[name@],
                None => !pub_map(self.local_map()).contains_key(name@),
            },
    {
        let key: String = name.to_owned();
        match self.functions.get_ref(&key) {
            Some(b) => if b.public {
                Some(b.function)
            } else {
                None
            },
            None => None,
        }
    }
}

impl Scope for CustomModule {
    open spec fn local_map(&self) -> Map<Seq<char>, Binding> {
        self.functions@
    }

    open spec fn parent_link(&self) -> Option<usize> {
        None
    }

    open spec fn allows_mutation(&self) -> bool {
        true
    }

    open spec fn inv(&self) -> bool {
        self.functions.wf()
    }

    fn set_function(&mut self, name: &str, function: Function) -> (r: Result<(), Violation>)
        ensures
            final(self).path == old(self).path,
    {
        let key: String = name.to_owned();
        let public = match self.functions.get_ref(&key) {
            Some(b) => b.public,
            None => false,
        };
        self.functions.insert(key, Binding { function, public });
        Ok(())
    }

    fn delete_function(&mut self, name: &str) -> (r: Result<(), Violation>)
        ensures
            final(self).path == old(self).path,
    {
        let key: String = name.to_owned();
        self.functions.remove(&key);
        Ok(())
    }

    /// A module is not a call target; the value is discarded by design.
    fn set_return_value(&mut self, value: Data)
        ensures
            *final(self) == *old(self),
    {
    }

    fn parent(&self) -> (p: Option<usize>) {
        None
    }
}

} // verus!
