//! The call frame: the environment of one function invocation. Its exact
//! contents beyond what scope resolution reads are owned by the evaluator;
//! this core holds what the scope-chain walk and the return-value plumbing
//! need.

use vstd::prelude::*;
use crate::data::{Data, Function};
use crate::scope::{preserved_flag, Binding, FnTable, Scope, Violation};

verus! {

/// The environment of one function invocation: the arguments and locals the
/// evaluator binds, a parent link into the defining scope chain, and the
/// slot an enclosed `return` fills.
#[derive(Debug)]
pub struct CallScope {
    pub local_functions: FnTable,
    pub parent: Option<usize>,
    pub return_value: Data,
}

impl CallScope {
    /// A fresh call frame under the given parent.
    pub fn new(parent: Option<usize>) -> (r: CallScope)
        ensures
            r.inv(),
            r.local_map() == Map::<Seq<char>, Binding>::empty(),
            r.parent_link() == parent,
            r.allows_mutation(),
            r.return_value == Data::Empty,
    {
        CallScope { local_functions: FnTable::new(), parent, return_value: Data::Empty }
    }
}

impl Scope for CallScope {
    open spec fn local_map(&self) -> Map<Seq<char>, Binding> {
        self.local_functions@
    }

    open spec fn parent_link(&self) -> Option<usize> {
        self.parent
    }

    open spec fn allows_mutation(&self) -> bool {
        true
    }

    open spec fn inv(&self) -> bool {
        self.local_functions.wf()
    }

    fn set_function(&mut self, name: &str, function: Function) -> (r: Result<(), Violation>)
        ensures
            final(self).return_value == old(self).return_value,
    {
        let key: String = name.to_owned();
        let public = match self.local_functions.get_ref(&key) {
            Some(b) => b.public,
            None => false,
        };
        self.local_functions.insert(key, Binding { function, public });
        Ok(())
    }

    fn delete_function(&mut self, name: &str) -> (r: Result<(), Violation>)
        ensures
            final(self).return_value == old(self).return_value,
    {
        let key: String = name.to_owned();
        self.local_functions.remove(&key);
        Ok(())
    }

    fn set_return_value(&mut self, value: Data)
        ensures
            final(self).return_value == value,
            final(self).local_functions == old(self).local_functions,
            final(self).parent == old(self).parent,
    {
        self.return_value = value;
    }

    fn parent(&self) -> (p: Option<usize>) {
        self.parent
    }
}

} // verus!
