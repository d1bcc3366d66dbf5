//! The block environment: one nested lexical frame, as a conditional or
//! loop body creates it.

use vstd::prelude::*;
use crate::data::{Data, Function};
use crate::scope::{preserved_flag, Binding, FnTable, Scope, Violation};

verus! {

/// The evaluation state of the control construct a block models. A
/// conditional or match persists across several visits by the tree-walking
/// evaluator, so the block records how far it has come.
#[derive(Clone, Copy, Debug, PartialEq, Eq, Structural)]
pub enum IfState {
    /// The condition or match subject is not yet resolved.
    Started,
    /// A branch result has been computed and stored for the consumer.
    Captured,
    /// Evaluation is complete; no further capture is expected.
    Finished,
}

/// One nested lexical frame: a local binding table, a parent link set once
/// at construction, a return-value slot, the branch marker, and the
/// captured match subject.
#[derive(Debug)]
pub struct BlockScope {
    pub local_functions: FnTable,
    pub parent: Option<usize>,
    pub return_value: Data,
    pub if_state: IfState,
    pub match_value: Option<Data>,
}

impl BlockScope {
    /// A fresh block under the given parent: empty bindings, an empty
    /// return slot, a finished branch marker and no captured subject.
    pub fn new(parent: Option<usize>) -> (r: BlockScope)
        ensures
            r.inv(),
            r.local_map() == Map::<Seq<char>, Binding>::empty(),
            r.parent_link() == parent,
            r.allows_mutation(),
            r.return_value == Data::Empty,
            r.if_state == IfState::Finished,
            r.match_value is None,
    {
        BlockScope {
            local_functions: FnTable::new(),
            parent,
            return_value: Data::Empty,
            if_state: IfState::Finished,
            match_value: None,
        }
    }
}

impl Scope for BlockScope {
    open spec fn local_map(&self) -> Map<Seq<char>, Binding> {
        self.local_functions@
    }

    open spec fn parent_link(&self) -> Option<usize> {
        self.parent
    }

    open spec fn allows_mutation(&self) -> bool {
        true
    }

    open spec fn inv(&self) -> bool {
        self.local_functions.wf()
    }

    fn set_function(&mut self, name: &str, function: Function) -> (r: Result<(), Violation>)
        ensures
            final(self).return_value == old(self).return_value,
            final(self).if_state == old(self).if_state,
            final(self).match_value == old(self).match_value,
    {
        let key: String = name.to_owned();
        let public = match self.local_functions.get_ref(&key) {
            Some(b) => b.public,
            None => false,
        };
        self.local_functions.insert(key, Binding { function, public });
        Ok(())
    }

    fn delete_function(&mut self, name: &str) -> (r: Result<(), Violation>)
        ensures
            final(self).return_value == old(self).return_value,
            final(self).if_state == old(self).if_state,
            final(self).match_value == old(self).match_value,
    {
        let key: String = name.to_owned();
        self.local_functions.remove(&key);
        Ok(())
    }

    fn set_return_value(&mut self, value: Data)
        ensures
            final(self).return_value == value,
            final(self).if_state == old(self).if_state,
            final(self).match_value == old(self).match_value,
            final(self).local_functions == old(self).local_functions,
            final(self).parent == old(self).parent,
    {
        self.return_value = value;
    }

    fn parent(&self) -> (p: Option<usize>) {
        self.parent
    }
}

} // verus!
