//! The loader: resolves an import-path string to an environment through the
//! run's registry, and the read-only view it hands out.

use vstd::prelude::*;
use vstd::string::StrSliceExecFns;
use vstd::string::StringExecFns;
use crate::data::{Data, Function};
use crate::modules::registry::{linked, ModuleRegistry, RegistryEntry};
use crate::modules::CustomModule;
use crate::scope::{Binding, Scope, ScopeArena, ScopeNode, Violation};

verus! {

/// A load or lookup failure the caller can recover from, each carrying
/// the identifier it is about.
#[derive(Clone, Debug, PartialEq, Eq)]
pub enum BeanError {
    /// No built-in of this name is registered.
    UnknownModule(String),
    /// The file at this path is already mid-load: importing it again would
    /// recurse without bound.
    CyclicLoad(String),
    /// The file at this path could not be read. The front end, which does
    /// the reading, reports it through this variant.
    ReadFailure(String),
    /// The file at this path did not parse. The front end, which drives
    /// the parser, reports it through this variant.
    ParseFailure(String),
}

/// What resolving an import produced.
#[derive(Clone, Debug, PartialEq, Eq)]
pub enum Resolution {
    /// The import is resolved to this arena index.
    Loaded(usize),
    /// A fresh module was allocated at the index and its path marked
    /// mid-load; the caller must read, parse and evaluate the file at the
    /// carried path against it, then report the outcome to `finish_load`.
    Pending(usize, String),
}

/// Whether an import path names a local file rather than a built-in.
pub open spec fn is_local_path(p: Seq<char>) -> bool {
    p.len() >= 2 && p[0] == '.' && p[1] == '/'
}

/// A local import path resolved to its source file: the fixed extension
/// appended.
pub open spec fn with_extension(p: Seq<char>) -> Seq<char> {
    p + ".bean"@
}

/// Whether the path starts with the explicit local-path marker.
fn is_local(path: &str) -> (r: bool)
    ensures
        r == is_local_path(path@),
{
    let n = path.unicode_len();
    if n < 2 {
        return false;
    }
    path.get_char(0) == '.' && path.get_char(1) == '/'
}

/// A read-only view of a module, exposing only its public bindings: the
/// environment an importing file sees. The field is the arena index of the
/// wrapped module; lookups through the view are arena operations, since
/// only the arena can follow the index.
#[derive(Clone, Copy, Debug, PartialEq, Eq, Structural)]
pub struct ModuleWrapper(pub usize);

impl Scope for ModuleWrapper {
    /// The view stores no bindings of its own; it forwards to the wrapped
    /// module's public table.
    open spec fn local_map(&self) -> Map<Seq<char>, Binding> {
        Map::empty()
    }

    open spec fn parent_link(&self) -> Option<usize> {
        None
    }

    open spec fn allows_mutation(&self) -> bool {
        false
    }

    open spec fn inv(&self) -> bool {
        true
    }

    /// Writing into an imported namespace is an evaluator bug; the view
    /// reports the violation and changes nothing.
    fn set_function(&mut self, name: &str, function: Function) -> (r: Result<(), Violation>)
        ensures
            r is Err,
    {
        Err(Violation::SetInExternalModule)
    }

    /// Deleting from an imported namespace is an evaluator bug; the view
    /// reports the violation and changes nothing.
    fn delete_function(&mut self, name: &str) -> (r: Result<(), Violation>)
        ensures
            r is Err,
    {
        Err(Violation::DeleteInExternalModule)
    }

    /// An imported namespace is never itself invoked as a frame; the value
    /// is silently discarded by design.
    fn set_return_value(&mut self, value: Data)
        ensures
            *final(self) == *old(self),
    {
    }

    fn parent(&self) -> (p: Option<usize>) {
        None
    }
}

/// Registered resolution: look a built-in name up in the catalog. The
/// first lookup of a waiting entry constructs the module, memoizes it as
/// `Available`, and every later lookup returns that same instance; an
/// unregistered name resolves to nothing. An `Available` entry is never
/// replaced, so a built-in is constructed at most once per run.
pub fn get_reg(arena: &mut ScopeArena, registry: &mut ModuleRegistry, name: &str) -> (r: Option<
    usize,
>)
    requires
        old(arena).wf(),
        old(registry).wf(),
        linked(old(arena)@, *old(registry)),
    ensures
        final(arena).wf(),
        final(registry).wf(),
        linked(final(arena)@, *final(registry)),
        final(registry).local@ == old(registry).local@,
        final(registry).loading@ == old(registry).loading@,
        final(registry).features == old(registry).features,
        forall|k: Seq<char>|
            #[trigger] old(registry).registered@.contains_key(k) && old(registry).registered@[k]
                is Available ==> final(registry).registered@.contains_key(k) && final(registry).registered@[k] == old(registry).registered@[k],
        match r {
            None => {
                &&& !old(registry).registered@.contains_key(name@)
                &&& final(arena)@ == old(arena)@
                &&& *final(registry) == *old(registry)
            },
            Some(m) => {
                &&& old(registry).registered@.contains_key(name@)
                &&& m < final(arena)@.len()
                &&& final(arena)@[m as int] is Module
                &&& final(registry).registered@ == old(registry).registered@.insert(
                    name@,
                    RegistryEntry::Available(m),
                )
                &&& match old(registry).registered@[name@] {
                    RegistryEntry::Available(i) => {
                        &&& m == i
                        &&& final(arena)@ == old(arena)@
                        &&& *final(registry) == *old(registry)
                    },
                    RegistryEntry::Uninitialized(t) => {
                        &&& m == old(arena)@.len()
                        &&& final(arena)@ == old(arena)@.push(final(arena)@[m as int])
                        &&& final(arena)@[m as int]->Module_0.functions@ == t@
                        &&& final(arena)@[m as int]->Module_0.path@ == name@
                    },
                }
            },
        },
{
    let key: String = name.to_owned();
    let mut pending: Option<crate::scope::FnTable> = None;
    match registry.registered.get_ref(&key) {
        None => {
            return None;
        },
        Some(entry) => {
            match entry {
                RegistryEntry::Available(i) => {
                    let m = *i;
                    proof {
                        assert(registry.registered@.contains_key(key@));
                        assert(registry.registered@.insert(
                            key@,
                            RegistryEntry::Available(m),
                        ) =~= registry.registered@);
                    }
                    return Some(m);
                },
                RegistryEntry::Uninitialized(t) => {
                    pending = Some(t.duplicate());
                },
            }
        },
    }
    let table = match pending {
        Some(t) => t,
        None => vstd::pervasive::unreached(),
    };
    let module = CustomModule::with_bindings(key.clone(), table);
    let m = arena.add(ScopeNode::Module(module));
    registry.registered.insert(key, RegistryEntry::Available(m));
    proof {
        assert forall|k: Seq<char>| #[trigger] registry.local@.contains_key(k) implies registry
            .local@[k] < arena@.len() && arena@[registry.local@[k] as int] is Module by {
            assert(old(registry).local@.contains_key(k));
        }
        assert forall|k: Seq<char>|
            #[trigger] registry.registered@.contains_key(k) && registry.registered@[k]
                is Available implies registry.registered@[k]->Available_0 < arena@.len()
            && arena@[registry.registered@[k]->Available_0 as int] is Module by {
            if k != name@ {
                assert(old(registry).registered@.contains_key(k));
            }
        }
    }
    Some(m)
}

/// Local resolution of an already-resolved source-file path. A path that
/// is mid-load fails with a cyclic-load error; a path already cached
/// resolves to its one module, with no file work; otherwise a fresh module
/// is allocated and the path marked mid-load, and the caller must evaluate
/// the file against it and then call `finish_load`. `Loaded` here carries
/// the module itself; `get` wraps it in an external view.
pub fn get_local(arena: &mut ScopeArena, registry: &mut ModuleRegistry, resolved: &str) -> (r:
    Result<Resolution, BeanError>)
    requires
        old(arena).wf(),
        old(registry).wf(),
        linked(old(arena)@, *old(registry)),
    ensures
        final(arena).wf(),
        final(registry).wf(),
        linked(final(arena)@, *final(registry)),
        final(registry).registered@ == old(registry).registered@,
        final(registry).features == old(registry).features,
        match r {
            Ok(Resolution::Loaded(m)) => {
                &&& old(registry).local@.contains_key(resolved@)
                &&& !old(registry).loading@.contains_key(resolved@)
                &&& m == old(registry).local@[resolved@]
                &&& final(arena)@ == old(arena)@
                &&& *final(registry) == *old(registry)
            },
            Ok(Resolution::Pending(m, p)) => {
                &&& p@ == resolved@
                &&& !old(registry).loading@.contains_key(resolved@)
                &&& !old(registry).local@.contains_key(resolved@)
                &&& m == old(arena)@.len()
                &&& final(arena)@ == old(arena)@.push(final(arena)@[m as int])
                &&& final(arena)@[m as int] is Module
                &&& final(arena)@[m as int]->Module_0.functions@ == Map::<
                    Seq<char>,
                    Binding,
                >::empty()
                &&& final(arena)@[m as int]->Module_0.path@ == resolved@
                &&& final(registry).loading@ == old(registry).loading@.insert(resolved@, ())
                &&& final(registry).local@ == old(registry).local@
            },
            Err(BeanError::CyclicLoad(p)) => {
                &&& p@ == resolved@
                &&& old(registry).loading@.contains_key(resolved@)
                &&& final(arena)@ == old(arena)@
                &&& *final(registry) == *old(registry)
            },
            Err(_) => false,
        },
{
    let key: String = resolved.to_owned();
    if registry.loading.contains(&key) {
        return Err(BeanError::CyclicLoad(key));
    }
    match registry.local.get_ref(&key) {
        Some(m) => {
            return Ok(Resolution::Loaded(*m));
        },
        None => {},
    }
    let module = CustomModule::new(key.clone());
    let m = arena.add(ScopeNode::Module(module));
    registry.loading.insert(key.clone(), ());
    proof {
        assert forall|k: Seq<char>| #[trigger] registry.local@.contains_key(k) implies registry
            .local@[k] < arena@.len() && arena@[registry.local@[k] as int] is Module by {
            assert(old(registry).local@.contains_key(k));
        }
        assert forall|k: Seq<char>|
            #[trigger] registry.registered@.contains_key(k) && registry.registered@[k]
                is Available implies registry.registered@[k]->Available_0 < arena@.len()
            && arena@[registry.registered@[k]->Available_0 as int] is Module by {
            assert(old(registry).registered@.contains_key(k));
        }
    }
    Ok(Resolution::Pending(m, key))
}

/// Close out a pending local load: clear the mid-load mark, and cache the
/// module under its path when evaluation succeeded. A failed load is not
/// cached, so a later attempt on the same path starts over.
pub fn finish_load(
    arena: &ScopeArena,
    registry: &mut ModuleRegistry,
    path: &str,
    module: usize,
    success: bool,
)
    requires
        arena.wf(),
        old(registry).wf(),
        linked(arena@, *old(registry)),
        old(registry).loading@.contains_key(path@),
        !old(registry).local@.contains_key(path@),
        module < arena@.len(),
        arena@[module as int] is Module,
    ensures
        final(registry).wf(),
        linked(arena@, *final(registry)),
        final(registry).loading@ == old(registry).loading@.remove(path@),
        final(registry).registered@ == old(registry).registered@,
        final(registry).features == old(registry).features,
        success ==> final(registry).local@ == old(registry).local@.insert(path@, module),
        !success ==> final(registry).local@ == old(registry).local@,
{
    let key: String = path.to_owned();
    registry.loading.remove(&key);
    if success {
        registry.local.insert(key, module);
        proof {
            assert forall|k: Seq<char>| #[trigger] registry.local@.contains_key(k) implies registry
                .local@[k] < arena@.len() && arena@[registry.local@[k] as int] is Module by {
                if k != path@ {
                    assert(old(registry).local@.contains_key(k));
                }
            }
        }
    }
}

/// Resolve an import-path string to an environment reference through the
/// run's registry. A path with the explicit local marker goes through
/// local resolution against the fixed source extension; a bare name goes
/// through the built-in catalog, and an unrecognized one fails with an
/// error naming exactly the requested identifier. A resolved module is
/// handed out wrapped in a fresh external view, so the importer sees only
/// its public bindings.
pub fn get(arena: &mut ScopeArena, registry: &mut ModuleRegistry, path: &str) -> (r: Result<
    Resolution,
    BeanError,
>)
    requires
        old(arena).wf(),
        old(registry).wf(),
        linked(old(arena)@, *old(registry)),
    ensures
        final(arena).wf(),
        final(registry).wf(),
        linked(final(arena)@, *final(registry)),
        old(arena)@.len() <= final(arena)@.len(),
        final(arena)@.subrange(0, old(arena)@.len() as int) == old(arena)@,
        final(registry).features == old(registry).features,
        forall|k: Seq<char>|
            #[trigger] old(registry).registered@.contains_key(k) && old(registry).registered@[k]
                is Available ==> final(registry).registered@.contains_key(k) && final(registry).registered@[k] == old(registry).registered@[k],
        match r {
            Ok(Resolution::Loaded(w)) => {
                &&& w + 1 == final(arena)@.len()
                &&& final(arena)@[w as int] is External
                &&& if is_local_path(path@) {
                    let res = with_extension(path@);
                    &&& old(registry).local@.contains_key(res)
                    &&& !old(registry).loading@.contains_key(res)
                    &&& *final(registry) == *old(registry)
                    &&& w == old(arena)@.len()
                    &&& final(arena)@ == old(arena)@.push(
                        ScopeNode::External(ModuleWrapper(old(registry).local@[res])),
                    )
                } else {
                    &&& old(registry).registered@.contains_key(path@)
                    &&& final(registry).local@ == old(registry).local@
                    &&& final(registry).loading@ == old(registry).loading@
                    &&& match old(registry).registered@[path@] {
                        RegistryEntry::Available(i) => {
                            &&& *final(registry) == *old(registry)
                            &&& w == old(arena)@.len()
                            &&& final(arena)@ == old(arena)@.push(
                                ScopeNode::External(ModuleWrapper(i)),
                            )
                        },
                        RegistryEntry::Uninitialized(t) => {
                            &&& w == old(arena)@.len() + 1
                            &&& final(arena)@.len() == old(arena)@.len() + 2
                            &&& final(arena)@[w as int] == ScopeNode::External(
                                ModuleWrapper((w - 1) as usize),
                            )
                            &&& final(arena)@[w - 1] is Module
                            &&& final(arena)@[w - 1]->Module_0.functions@ == t@
                            &&& final(arena)@[w - 1]->Module_0.path@ == path@
                            &&& final(registry).registered@ == old(registry).registered@.insert(
                                path@,
                                RegistryEntry::Available((w - 1) as usize),
                            )
                        },
                    }
                }
            },
            Ok(Resolution::Pending(m, p)) => {
                &&& is_local_path(path@)
                &&& p@ == with_extension(path@)
                &&& !old(registry).loading@.contains_key(p@)
                &&& !old(registry).local@.contains_key(p@)
                &&& m == old(arena)@.len()
                &&& final(arena)@ == old(arena)@.push(final(arena)@[m as int])
                &&& final(arena)@[m as int] is Module
                &&& final(arena)@[m as int]->Module_0.functions@ == Map::<
                    Seq<char>,
                    Binding,
                >::empty()
                &&& final(arena)@[m as int]->Module_0.path@ == p@
                &&& final(registry).loading@ == old(registry).loading@.insert(p@, ())
                &&& final(registry).local@ == old(registry).local@
                &&& final(registry).registered@ == old(registry).registered@
            },
            Err(e) => {
                &&& final(arena)@ == old(arena)@
                &&& *final(registry) == *old(registry)
                &&& match e {
                    BeanError::UnknownModule(n) => !is_local_path(path@) && n@ == path@
                        && !old(registry).registered@.contains_key(path@),
                    BeanError::CyclicLoad(p) => is_local_path(path@) && p@ == with_extension(path@)
                        && old(registry).loading@.contains_key(p@),
                    _ => false,
                }
            },
        },
{
    let ghost s0 = arena@;
    if is_local(path) {
        let resolved: String = path.to_owned().concat(".bean");
        match get_local(arena, registry, resolved.as_str()) {
            Ok(Resolution::Loaded(m)) => {
                proof {
                    assert(registry.local@.contains_key(resolved@));
                }
                let w = arena.add(ScopeNode::External(ModuleWrapper(m)));
                proof {
                    assert(arena@.subrange(0, s0.len() as int) =~= s0);
                }
                Ok(Resolution::Loaded(w))
            },
            Ok(Resolution::Pending(m, p)) => {
                proof {
                    assert(arena@.subrange(0, s0.len() as int) =~= s0);
                }
                Ok(Resolution::Pending(m, p))
            },
            Err(e) => Err(e),
        }
    } else {
        match get_reg(arena, registry, path) {
            Some(m) => {
                let w = arena.add(ScopeNode::External(ModuleWrapper(m)));
                proof {
                    assert(arena@.subrange(0, s0.len() as int) =~= s0);
                    if old(registry).registered@[path@] is Available {
                        assert(arena@ =~= s0.push(
                            ScopeNode::External(
                                ModuleWrapper(old(registry).registered@[path@]->Available_0),
                            ),
                        ));
                    }
                }
                Ok(Resolution::Loaded(w))
            },
            None => Err(BeanError::UnknownModule(path.to_owned())),
        }
    }
}

} // verus!
