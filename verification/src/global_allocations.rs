//! The table of global allocations: which global variable, function or
//! function hook lives at which address.
//!
//! The table takes into account both module-private and public
//! definitions, of both the strong and the weak variety.

use crate::backend::SolverRef;
use crate::callable::{Callable, CallableView, HookId};
use crate::double_keyed_map::DoubleKeyedMap;
use crate::linkage::{Linkage, LinkageClass};
use crate::name::{Name, NameView};
use crate::table::{
    distinct_keys, lemma_entry_in_map, lemma_key_has_entry, lemma_mapped_entries, Duplicate,
    TableKey, VecMap,
};
use std::collections::HashMap;
use vstd::prelude::*;
use vstd::std_specs::hash::group_hash_axioms;

verus! {

broadcast use group_hash_axioms;

/// Strong and weak definitions.
///
/// Of several definitions of one public name:
///   - two strong definitions are an error;
///   - of one strong and one weak definition, the strong one wins;
///   - of two weak definitions, the first one is kept.
#[derive(Debug, PartialEq, Eq)]
pub enum Definition<V> {
    Strong(V),
    Weak(V),
}

impl<V: Duplicate> Clone for Definition<V> {
    fn clone(&self) -> (copy: Self)
        ensures
            copy == *self,
    {
        self.duplicated()
    }
}

impl<V: Duplicate> Duplicate for Definition<V> {
    fn duplicated(&self) -> (copy: Self) {
        match self {
            Definition::Strong(address) => Definition::Strong(address.duplicated()),
            Definition::Weak(address) => Definition::Weak(address.duplicated()),
        }
    }
}

impl<V> Definition<V> {
    /// The address of the definition.
    pub open spec fn address(self) -> V {
        match self {
            Definition::Strong(address) => address,
            Definition::Weak(address) => address,
        }
    }

    /// The definition of the same strength at the address `f(address)`.
    pub open spec fn map_address(self, f: spec_fn(V) -> V) -> Definition<V> {
        match self {
            Definition::Strong(address) => Definition::Strong(f(address)),
            Definition::Weak(address) => Definition::Weak(f(address)),
        }
    }

    /// The address of the definition.
    pub fn get(&self) -> (address: &V)
        ensures
            *address == self.address(),
    {
        match self {
            Definition::Strong(address) => address,
            Definition::Weak(address) => address,
        }
    }
}

/// What came of an allocation.
#[derive(Clone, Copy, Debug, PartialEq, Eq, Structural)]
pub enum AllocationResult {
    /// Allocated the global as public.
    Public,
    /// Allocated the global as module-private.
    ModulePrivate,
    /// Did not allocate the global: another definition took precedence.
    NoAllocate,
}

/// Why a definition cannot be allocated.
#[derive(Clone, Copy, Debug, PartialEq, Eq, Structural)]
pub enum AllocationConflict {
    /// The module already has a module-private definition of the name.
    DuplicateModulePrivate,
    /// The name already has a strong public definition.
    DuplicateStrong,
    /// The table does not allocate definitions of this linkage.
    UnsupportedLinkage,
}

/// A module, as far as the table needs to know it.
#[derive(Debug)]
pub struct Module {
    /// The name of the module.
    pub name: String,
}

/// A global variable, as far as the table needs to know it.
#[derive(Debug)]
pub struct GlobalVariable {
    pub name: Name,
    pub linkage: Linkage,
    /// Whether the variable has an initializer: a definition has one, a
    /// declaration has none.
    pub has_initializer: bool,
}

/// A function definition, as far as the table needs to know it.
#[derive(Debug)]
pub struct Function {
    pub name: String,
    pub linkage: Linkage,
}

/// What global variables and functions have in common: both are global
/// objects with a name and a linkage.
pub trait Global {
    /// The linkage of the global.
    spec fn linkage(&self) -> Linkage;

    /// The name of the global.
    spec fn name(&self) -> NameView;

    /// The linkage of the global.
    fn get_linkage(&self) -> (linkage: Linkage)
        ensures
            linkage == self.linkage(),
    ;

    /// The name of the global.
    fn get_name(&self) -> (name: Name)
        ensures
            name@ == self.name(),
    ;
}

impl Global for GlobalVariable {
    open spec fn linkage(&self) -> Linkage {
        self.linkage
    }

    open spec fn name(&self) -> NameView {
        self.name@
    }

    fn get_linkage(&self) -> (linkage: Linkage) {
        self.linkage
    }

    fn get_name(&self) -> (name: Name) {
        self.name.clone()
    }
}

impl Global for Function {
    open spec fn linkage(&self) -> Linkage {
        self.linkage
    }

    open spec fn name(&self) -> NameView {
        NameView::Name(self.name@)
    }

    fn get_linkage(&self) -> (linkage: Linkage) {
        self.linkage
    }

    fn get_name(&self) -> (name: Name) {
        Name::Name(self.name.clone())
    }
}

/// The function that sends each address of the context that `solver` was
/// duplicated from to the address that stands for it in the context of
/// `solver`.
pub open spec fn rebinding<V, S: SolverRef<V>>(solver: S) -> spec_fn(V) -> V {
    |address: V| solver.matching(address).unwrap()
}

/// The function that moves the address of a definition by `f` and keeps
/// its strength.
pub open spec fn on_definitions<V>(f: spec_fn(V) -> V) -> spec_fn(Definition<V>) -> Definition<V> {
    |definition: Definition<V>| definition.map_address(f)
}

/// The function that sends a callable to what it stands for.
pub open spec fn callable_view() -> spec_fn(Callable) -> CallableView {
    |callable: Callable| callable@
}

/// What a table of allocations holds, as maps.
pub ghost struct AllocationsView<V> {
    /// The public definitions of global variables and functions, by name.
    pub globals: Map<NameView, Definition<V>>,
    /// The addresses of the function hooks.
    pub hooks: Map<HookId, V>,
    /// What is allocated at an address, for public functions and for
    /// function hooks.
    pub functions: Map<u64, CallableView>,
    /// The addresses of the module-private globals, by module and name.
    pub private_globals: Map<(Seq<char>, NameView), V>,
    /// What is allocated at an address, for the module-private functions
    /// of a module.
    pub private_functions: Map<(Seq<char>, u64), CallableView>,
}

impl<V> AllocationsView<V> {
    /// The table that holds nothing.
    pub open spec fn empty() -> Self {
        AllocationsView {
            globals: Map::empty(),
            hooks: Map::empty(),
            functions: Map::empty(),
            private_globals: Map::empty(),
            private_functions: Map::empty(),
        }
    }

    /// The address of the global `name` as seen from `module`: that of the
    /// module's own private definition where it has one, else that of the
    /// public definition.
    pub open spec fn address_of(self, name: NameView, module: Seq<char>) -> Option<V> {
        if self.private_globals.contains_key((module, name)) {
            Some(self.private_globals[(module, name)])
        } else if self.globals.contains_key(name) {
            Some(self.globals[name].address())
        } else {
            None
        }
    }

    /// The address of the function hook `hook`.
    pub open spec fn hook_address(self, hook: HookId) -> Option<V> {
        if self.hooks.contains_key(hook) {
            Some(self.hooks[hook])
        } else {
            None
        }
    }

    /// What a function pointer with the value `addr` points to, as seen
    /// from `module`: a public function or a hook at that address where
    /// there is one, else a private function of the module.
    pub open spec fn callable_at(self, addr: u64, module: Seq<char>) -> Option<CallableView> {
        if self.functions.contains_key(addr) {
            Some(self.functions[addr])
        } else if self.private_functions.contains_key((module, addr)) {
            Some(self.private_functions[(module, addr)])
        } else {
            None
        }
    }

    /// What stands against allocating a definition of `name` with the
    /// linkage `linkage` in `module`, if anything does.
    pub open spec fn conflict(self, name: NameView, linkage: Linkage, module: Seq<char>) -> Option<
        AllocationConflict,
    > {
        match linkage.spec_class() {
            LinkageClass::ModulePrivate => if self.private_globals.contains_key((module, name)) {
                Some(AllocationConflict::DuplicateModulePrivate)
            } else {
                None
            },
            LinkageClass::PublicStrong => if self.globals.contains_key(name)
                && self.globals[name] is Strong {
                Some(AllocationConflict::DuplicateStrong)
            } else {
                None
            },
            LinkageClass::PublicWeak => None,
            LinkageClass::Unsupported => Some(AllocationConflict::UnsupportedLinkage),
        }
    }

    /// What comes of allocating a definition of `name` with the linkage
    /// `linkage`.
    pub open spec fn outcome(self, name: NameView, linkage: Linkage) -> AllocationResult {
        match linkage.spec_class() {
            LinkageClass::ModulePrivate => AllocationResult::ModulePrivate,
            LinkageClass::PublicStrong => AllocationResult::Public,
            LinkageClass::PublicWeak => if self.globals.contains_key(name) {
                AllocationResult::NoAllocate
            } else {
                AllocationResult::Public
            },
            LinkageClass::Unsupported => AllocationResult::NoAllocate,
        }
    }

    /// The table after allocating a definition of `name` with the linkage
    /// `linkage`, found in `module`, at the address `addr`.
    pub open spec fn allocate(
        self,
        name: NameView,
        linkage: Linkage,
        module: Seq<char>,
        addr: V,
    ) -> Self {
        match linkage.spec_class() {
            LinkageClass::ModulePrivate => AllocationsView {
                private_globals: self.private_globals.insert((module, name), addr),
                ..self
            },
            LinkageClass::PublicStrong => AllocationsView {
                globals: self.globals.insert(name, Definition::Strong(addr)),
                ..self
            },
            LinkageClass::PublicWeak => if self.globals.contains_key(name) {
                self
            } else {
                AllocationsView {
                    globals: self.globals.insert(name, Definition::Weak(addr)),
                    ..self
                }
            },
            LinkageClass::Unsupported => self,
        }
    }

    /// The table after recording that the function `function` was
    /// allocated at `addr`, where `result` is what came of allocating its
    /// name.
    pub open spec fn register_function(
        self,
        result: AllocationResult,
        function: Seq<char>,
        module: Seq<char>,
        addr: u64,
    ) -> Self {
        match result {
            AllocationResult::Public => AllocationsView {
                functions: self.functions.insert(addr, CallableView::LLVMFunction(function)),
                ..self
            },
            AllocationResult::ModulePrivate => AllocationsView {
                private_functions: self.private_functions.insert(
                    (module, addr),
                    CallableView::LLVMFunction(function),
                ),
                ..self
            },
            AllocationResult::NoAllocate => self,
        }
    }

    /// The table after allocating the function `function` with the linkage
    /// `linkage`, found in `module`, at the address `addr`, whose symbolic
    /// form is `addr_bv`.
    pub open spec fn allocate_function(
        self,
        function: Seq<char>,
        linkage: Linkage,
        module: Seq<char>,
        addr: u64,
        addr_bv: V,
    ) -> Self {
        self.allocate(NameView::Name(function), linkage, module, addr_bv).register_function(
            self.outcome(NameView::Name(function), linkage),
            function,
            module,
            addr,
        )
    }

    /// The table after allocating the function hook `hook` at the address
    /// `addr`, whose symbolic form is `addr_bv`.
    pub open spec fn allocate_hook(self, hook: HookId, addr: u64, addr_bv: V) -> Self {
        AllocationsView {
            hooks: self.hooks.insert(hook, addr_bv),
            functions: self.functions.insert(addr, CallableView::FunctionHook(hook)),
            ..self
        }
    }

    /// Whether `address` is the address of some global or hook of the
    /// table.
    pub open spec fn holds_address(self, address: V) -> bool {
        ||| exists|name: NameView| #[trigger]
            self.globals.contains_key(name) && self.globals[name].address() == address
        ||| exists|hook: HookId| #[trigger]
            self.hooks.contains_key(hook) && self.hooks[hook] == address
        ||| exists|key: (Seq<char>, NameView)| #[trigger]
            self.private_globals.contains_key(key) && self.private_globals[key] == address
    }

    /// The table with every address `a` of a global or hook replaced by
    /// `f(a)`. What is allocated where stays as it is.
    pub open spec fn rebind(self, f: spec_fn(V) -> V) -> Self {
        AllocationsView {
            globals: self.globals.map_values(on_definitions(f)),
            hooks: self.hooks.map_values(f),
            private_globals: self.private_globals.map_values(f),
            ..self
        }
    }
}

/// Whether each definition of `table` has an address that stands for its
/// own in the context of `solver`.
fn definitions_match<V, S: SolverRef<V>>(table: &VecMap<Name, Definition<V>>, solver: &S) -> (all:
    bool)
    requires
        table.wf(),
    ensures
        all == (forall|name: NameView| #[trigger]
            table@.contains_key(name) ==> solver.matching(table@[name].address()) is Some),
{
    let n = table.len();
    let mut i: usize = 0;
    while i < n
        invariant
            i <= n,
            n == table.entries().len(),
            table.wf(),
            forall|j: int|
                0 <= j < i ==> solver.matching((#[trigger] table.entries()[j]).1.address())
                    is Some,
        decreases n - i,
    {
        if solver.match_bv(table.value_at(i).get()).is_none() {
            proof {
                lemma_entry_in_map(table.entries(), i as int);
                assert(table@.contains_key(table.entries()[i as int].0@));
            }
            return false;
        }
        i += 1;
    }
    proof {
        assert forall|name: NameView| #[trigger] table@.contains_key(name) implies solver.matching(
            table@[name].address(),
        ) is Some by {
            lemma_key_has_entry(table.entries(), name);
        }
    }
    true
}

/// Whether each address of `table` has one that stands for it in the
/// context of `solver`.
fn addresses_match<K: TableKey, V, S: SolverRef<V>>(table: &VecMap<K, V>, solver: &S) -> (all:
    bool)
    requires
        table.wf(),
    ensures
        all == (forall|key: K::V| #[trigger]
            table@.contains_key(key) ==> solver.matching(table@[key]) is Some),
{
    let n = table.len();
    let mut i: usize = 0;
    while i < n
        invariant
            i <= n,
            n == table.entries().len(),
            table.wf(),
            forall|j: int| 0 <= j < i ==> solver.matching((#[trigger] table.entries()[j]).1) is Some,
        decreases n - i,
    {
        if solver.match_bv(table.value_at(i)).is_none() {
            proof {
                lemma_entry_in_map(table.entries(), i as int);
                assert(table@.contains_key(table.entries()[i as int].0@));
            }
            return false;
        }
        i += 1;
    }
    proof {
        assert forall|key: K::V| #[trigger] table@.contains_key(key) implies solver.matching(
            table@[key],
        ) is Some by {
            lemma_key_has_entry(table.entries(), key);
        }
    }
    true
}

/// Replaces the address of each definition of `table` by the one that
/// stands for it in the context of `solver`, keeping names and strengths.
fn rebind_definitions<V, S: SolverRef<V>>(table: &mut VecMap<Name, Definition<V>>, solver: &S)
    requires
        old(table).wf(),
        forall|name: NameView| #[trigger]
            old(table)@.contains_key(name) ==> solver.matching(old(table)@[name].address())
                is Some,
    ensures
        final(table).wf(),
        final(table)@ == old(table)@.map_values(on_definitions(rebinding(*solver))),
{
    let ghost start = table.entries();
    let ghost f = on_definitions(rebinding(*solver));
    let n = table.len();
    proof {
        assert forall|j: int| 0 <= j < n implies solver.matching(
            (#[trigger] start[j]).1.address(),
        ) is Some by {
            lemma_entry_in_map(start, j);
            assert(old(table)@.contains_key(start[j].0@));
        }
    }
    let mut i: usize = 0;
    while i < n
        invariant
            i <= n,
            n == start.len(),
            table.entries().len() == n,
            distinct_keys(start),
            table.wf(),
            f == on_definitions(rebinding(*solver)),
            forall|j: int|
                0 <= j < n ==> solver.matching((#[trigger] start[j]).1.address()) is Some,
            forall|j: int| 0 <= j < n ==> (#[trigger] table.entries()[j]).0 == start[j].0,
            forall|j: int| 0 <= j < i ==> (#[trigger] table.entries()[j]).1 == f(start[j].1),
            forall|j: int| i <= j < n ==> (#[trigger] table.entries()[j]).1 == start[j].1,
        decreases n - i,
    {
        assert(solver.matching(start[i as int].1.address()) is Some);
        let rebound = match table.value_at(i) {
            Definition::Strong(address) => Definition::Strong(solver.match_bv(address).unwrap()),
            Definition::Weak(address) => Definition::Weak(solver.match_bv(address).unwrap()),
        };
        table.set_value_at(i, rebound);
        i += 1;
    }
    proof {
        lemma_mapped_entries(start, table.entries(), f);
    }
}

/// Replaces each address of `table` by the one that stands for it in the
/// context of `solver`, keeping the keys.
fn rebind_addresses<K: TableKey, V, S: SolverRef<V>>(table: &mut VecMap<K, V>, solver: &S)
    requires
        old(table).wf(),
        forall|key: K::V| #[trigger]
            old(table)@.contains_key(key) ==> solver.matching(old(table)@[key]) is Some,
    ensures
        final(table).wf(),
        final(table)@ == old(table)@.map_values(rebinding(*solver)),
{
    let ghost start = table.entries();
    let ghost f = rebinding(*solver);
    let n = table.len();
    proof {
        assert forall|j: int| 0 <= j < n implies solver.matching((#[trigger] start[j]).1)
            is Some by {
            lemma_entry_in_map(start, j);
            assert(old(table)@.contains_key(start[j].0@));
        }
    }
    let mut i: usize = 0;
    while i < n
        invariant
            i <= n,
            n == start.len(),
            table.entries().len() == n,
            distinct_keys(start),
            table.wf(),
            f == rebinding(*solver),
            forall|j: int| 0 <= j < n ==> solver.matching((#[trigger] start[j]).1) is Some,
            forall|j: int| 0 <= j < n ==> (#[trigger] table.entries()[j]).0 == start[j].0,
            forall|j: int| 0 <= j < i ==> (#[trigger] table.entries()[j]).1 == f(start[j].1),
            forall|j: int| i <= j < n ==> (#[trigger] table.entries()[j]).1 == start[j].1,
        decreases n - i,
    {
        assert(solver.matching(start[i as int].1) is Some);
        let rebound = solver.match_bv(table.value_at(i)).unwrap();
        table.set_value_at(i, rebound);
        i += 1;
    }
    proof {
        lemma_mapped_entries(start, table.entries(), f);
    }
}

/// Keeps track of which global variable and function names in which
/// modules resolve to which addresses, and of what is allocated at an
/// address.
///
/// `V` is the type of symbolic addresses.
pub struct GlobalAllocations<V> {
    /// From the names of public global variables and functions to the
    /// addresses at which they are allocated, as strong or weak
    /// definitions.
    allocated_globals: VecMap<Name, Definition<V>>,
    /// From function hooks to the addresses at which they are allocated.
    /// Hooks are always public and strong.
    allocated_hooks: VecMap<HookId, V>,
    /// From an address to the public function or the hook allocated there.
    addr_to_function: HashMap<u64, Callable>,
    /// From a module's name and a global's name to the address of the
    /// module-private global. Module-private definitions are always strong.
    module_private_allocated_globals: DoubleKeyedMap<String, Name, V>,
    /// From a module's name and an address to the module-private function
    /// allocated there.
    module_private_addr_to_function: DoubleKeyedMap<String, u64, Callable>,
}

impl<V: Duplicate> Clone for GlobalAllocations<V> {
    /// A table that holds what this one holds and can go its own way from
    /// there.
    fn clone(&self) -> (copy: Self)
        ensures
            copy@ == self@,
            self.wf() ==> copy.wf(),
    {
        GlobalAllocations {
            allocated_globals: self.allocated_globals.clone(),
            allocated_hooks: self.allocated_hooks.clone(),
            addr_to_function: self.addr_to_function.clone(),
            module_private_allocated_globals: self.module_private_allocated_globals.clone(),
            module_private_addr_to_function: self.module_private_addr_to_function.clone(),
        }
    }
}

impl<V> View for GlobalAllocations<V> {
    type V = AllocationsView<V>;

    closed spec fn view(&self) -> AllocationsView<V> {
        AllocationsView {
            globals: self.allocated_globals@,
            hooks: self.allocated_hooks@,
            functions: self.addr_to_function@.map_values(callable_view()),
            private_globals: self.module_private_allocated_globals@,
            private_functions: self.module_private_addr_to_function@.map_values(callable_view()),
        }
    }
}

impl<V> GlobalAllocations<V> {
    /// No table holds two entries under one key.
    pub closed spec fn wf(&self) -> bool {
        &&& self.allocated_globals.wf()
        &&& self.allocated_hooks.wf()
        &&& self.module_private_allocated_globals.wf()
        &&& self.module_private_addr_to_function.wf()
    }

    /// A table that holds nothing.
    pub fn new() -> (table: Self)
        ensures
            table.wf(),
            table@ == AllocationsView::<V>::empty(),
    {
        let table = GlobalAllocations {
            allocated_globals: VecMap::new(),
            allocated_hooks: VecMap::new(),
            addr_to_function: HashMap::new(),
            module_private_allocated_globals: DoubleKeyedMap::new(),
            module_private_addr_to_function: DoubleKeyedMap::new(),
        };
        assert(table@.functions =~= Map::<u64, CallableView>::empty());
        assert(table@.private_functions =~= Map::<(Seq<char>, u64), CallableView>::empty());
        table
    }

    /// Says what stands against allocating `global`, found in `module`:
    /// what [`allocate_global`](Self::allocate_global) asks to be absent.
    pub fn allocation_conflict<G: Global>(&self, global: &G, module: &Module) -> (conflict: Option<
        AllocationConflict,
    >)
        requires
            self.wf(),
        ensures
            conflict == self@.conflict(global.name(), global.linkage(), module.name@),
    {
        let name = global.get_name();
        match global.get_linkage().class() {
            LinkageClass::ModulePrivate => {
                if self.module_private_allocated_globals.contains_key(&module.name, &name) {
                    Some(AllocationConflict::DuplicateModulePrivate)
                } else {
                    None
                }
            },
            LinkageClass::PublicStrong => {
                match self.allocated_globals.get(&name) {
                    Some(Definition::Strong(_)) => Some(AllocationConflict::DuplicateStrong),
                    _ => None,
                }
            },
            LinkageClass::PublicWeak => None,
            LinkageClass::Unsupported => Some(AllocationConflict::UnsupportedLinkage),
        }
    }

    /// Allocates the global variable or function `global`, found in
    /// `module`, at the address `addr`, and says what came of it.
    ///
    /// A module-private definition is recorded for its module. A strong
    /// public definition is recorded and supersedes a weak one of the same
    /// name. A weak public definition is recorded only if the name has no
    /// public definition yet.
    pub fn allocate_global<G: Global>(&mut self, global: &G, module: &Module, addr: V) -> (result:
        AllocationResult)
        requires
            old(self).wf(),
            old(self)@.conflict(global.name(), global.linkage(), module.name@) is None,
        ensures
            final(self).wf(),
            final(self)@ == old(self)@.allocate(
                global.name(),
                global.linkage(),
                module.name@,
                addr,
            ),
            result == old(self)@.outcome(global.name(), global.linkage()),
    {
        match global.get_linkage().class() {
            LinkageClass::ModulePrivate => {
                self.module_private_allocated_globals.insert(
                    module.name.clone(),
                    global.get_name(),
                    addr,
                );
                AllocationResult::ModulePrivate
            },
            LinkageClass::PublicStrong => {
                self.allocated_globals.insert(global.get_name(), Definition::Strong(addr));
                AllocationResult::Public
            },
            LinkageClass::PublicWeak => {
                let name = global.get_name();
                if self.allocated_globals.contains_key(&name) {
                    AllocationResult::NoAllocate
                } else {
                    self.allocated_globals.insert(name, Definition::Weak(addr));
                    AllocationResult::Public
                }
            },
            LinkageClass::Unsupported => AllocationResult::NoAllocate,
        }
    }

    /// Allocates `global`, found in `module`, at the address `addr`, unless
    /// something stands against it: then the table stays as it is, so that
    /// no earlier definition is replaced, and the conflict is returned.
    pub fn try_allocate_global<G: Global>(&mut self, global: &G, module: &Module, addr: V) -> (result:
        Result<AllocationResult, AllocationConflict>)
        requires
            old(self).wf(),
        ensures
            final(self).wf(),
            match result {
                Ok(allocated) => {
                    &&& old(self)@.conflict(global.name(), global.linkage(), module.name@) is None
                    &&& allocated == old(self)@.outcome(global.name(), global.linkage())
                    &&& final(self)@ == old(self)@.allocate(
                        global.name(),
                        global.linkage(),
                        module.name@,
                        addr,
                    )
                },
                Err(conflict) => {
                    &&& old(self)@.conflict(global.name(), global.linkage(), module.name@) == Some(
                        conflict,
                    )
                    &&& final(self)@ == old(self)@
                },
            },
    {
        match self.allocation_conflict(global, module) {
            Some(conflict) => Err(conflict),
            None => Ok(self.allocate_global(global, module, addr)),
        }
    }

    /// Allocates the function definition `func`, found in `module`, at the
    /// address `addr`, whose symbolic form is `addr_bv`, and says what
    /// came of allocating its name; unless something stands against it:
    /// then the table stays as it is, so that no earlier definition is
    /// replaced and nothing is registered at `addr`, and the conflict is
    /// returned.
    pub fn try_allocate_function(
        &mut self,
        func: &Function,
        module: &Module,
        addr: u64,
        addr_bv: V,
    ) -> (result: Result<AllocationResult, AllocationConflict>)
        requires
            old(self).wf(),
        ensures
            final(self).wf(),
            match result {
                Ok(allocated) => {
                    &&& old(self)@.conflict(NameView::Name(func.name@), func.linkage, module.name@)
                        is None
                    &&& allocated == old(self)@.outcome(NameView::Name(func.name@), func.linkage)
                    &&& final(self)@ == old(self)@.allocate_function(
                        func.name@,
                        func.linkage,
                        module.name@,
                        addr,
                        addr_bv,
                    )
                },
                Err(conflict) => {
                    &&& old(self)@.conflict(NameView::Name(func.name@), func.linkage, module.name@)
                        == Some(conflict)
                    &&& final(self)@ == old(self)@
                },
            },
    {
        match self.allocation_conflict(func, module) {
            Some(conflict) => Err(conflict),
            None => Ok(self.allocate_function(func, module, addr, addr_bv)),
        }
    }

    /// Allocates the global variable definition `var`, found in `module`,
    /// at the address `addr`. Only a definition can be allocated, not a
    /// declaration.
    pub fn allocate_global_var(&mut self, var: &GlobalVariable, module: &Module, addr: V)
        requires
            old(self).wf(),
            var.has_initializer,
            old(self)@.conflict(var.name@, var.linkage, module.name@) is None,
        ensures
            final(self).wf(),
            final(self)@ == old(self)@.allocate(var.name@, var.linkage, module.name@, addr),
    {
        self.allocate_global(var, module, addr);
    }

    /// Allocates the function definition `func`, found in `module`, at the
    /// address `addr`, whose symbolic form is `addr_bv`. Where the
    /// function's name is allocated, a pointer with the value `addr` is
    /// from now on taken to point to `func`: for everyone if the function
    /// is public, for `module` if it is module-private. The result says
    /// what came of allocating the name.
    pub fn allocate_function(
        &mut self,
        func: &Function,
        module: &Module,
        addr: u64,
        addr_bv: V,
    ) -> (result: AllocationResult)
        requires
            old(self).wf(),
            old(self)@.conflict(NameView::Name(func.name@), func.linkage, module.name@) is None,
        ensures
            final(self).wf(),
            result == old(self)@.outcome(NameView::Name(func.name@), func.linkage),
            final(self)@ == old(self)@.allocate_function(
                func.name@,
                func.linkage,
                module.name@,
                addr,
                addr_bv,
            ),
    {
        let result = self.allocate_global(func, module, addr_bv);
        match result {
            AllocationResult::Public => {
                self.addr_to_function.insert(addr, Callable::LLVMFunction(func.name.clone()));
                assert(final(self)@.functions =~= old(self)@.functions.insert(
                    addr,
                    CallableView::LLVMFunction(func.name@),
                ));
            },
            AllocationResult::ModulePrivate => {
                self.module_private_addr_to_function.insert(
                    module.name.clone(),
                    addr,
                    Callable::LLVMFunction(func.name.clone()),
                );
                assert(final(self)@.private_functions =~= old(self)@.private_functions.insert(
                    (module.name@, addr),
                    CallableView::LLVMFunction(func.name@),
                ));
            },
            AllocationResult::NoAllocate => {},
        }
        result
    }

    /// Allocates the function hook `hook` at the address `addr`, whose
    /// symbolic form is `addr_bv`. Pointers with the value `addr` are from
    /// now on taken to point to `hook`.
    ///
    /// A function hook is visible everywhere: there are no module-private
    /// hooks.
    pub fn allocate_function_hook(&mut self, hook: HookId, addr: u64, addr_bv: V)
        requires
            old(self).wf(),
        ensures
            final(self).wf(),
            final(self)@ == old(self)@.allocate_hook(hook, addr, addr_bv),
    {
        self.allocated_hooks.insert(hook, addr_bv);
        self.addr_to_function.insert(addr, Callable::FunctionHook(hook));
        assert(final(self)@.functions =~= old(self)@.functions.insert(
            addr,
            CallableView::FunctionHook(hook),
        ));
    }

    /// The address at which the global variable or function `name` is
    /// allocated, as seen from `module`; `None` if it is not allocated.
    ///
    /// A module may have a module-private global of its own with that
    /// name: it takes precedence over a public definition.
    pub fn get_global_address(&self, name: &Name, module: &Module) -> (address: Option<&V>)
        requires
            self.wf(),
        ensures
            match address {
                Some(a) => self@.address_of(name@, module.name@) == Some(*a),
                None => self@.address_of(name@, module.name@) is None,
            },
    {
        match self.module_private_allocated_globals.get(&module.name, name) {
            Some(address) => Some(address),
            None => match self.allocated_globals.get(name) {
                Some(definition) => Some(definition.get()),
                None => None,
            },
        }
    }

    /// The address at which the function hook `hook` is allocated; `None`
    /// if it is not allocated.
    pub fn get_function_hook_address(&self, hook: &HookId) -> (address: Option<&V>)
        requires
            self.wf(),
        ensures
            match address {
                Some(a) => self@.hook_address(*hook) == Some(*a),
                None => self@.hook_address(*hook) is None,
            },
    {
        self.allocated_hooks.get(hook)
    }

    /// Whether a public function or a hook is allocated at the address
    /// `addr`: whether what a pointer with that value points to is the
    /// same seen from every module.
    pub fn is_public_address(&self, addr: u64) -> (public: bool)
        requires
            self.wf(),
        ensures
            public == self@.functions.contains_key(addr),
    {
        self.addr_to_function.contains_key(&addr)
    }

    /// What is allocated at the address `addr`, as seen from `module`;
    /// `None` if nothing is.
    pub fn get_func_for_address(&self, addr: u64, module: &Module) -> (callable: Option<Callable>)
        requires
            self.wf(),
        ensures
            match callable {
                Some(c) => self@.callable_at(addr, module.name@) == Some(c@),
                None => self@.callable_at(addr, module.name@) is None,
            },
    {
        match self.addr_to_function.get(&addr) {
            Some(callable) => Some(callable.clone()),
            None => match self.module_private_addr_to_function.get(&module.name, &addr) {
                Some(callable) => Some(callable.clone()),
                None => None,
            },
        }
    }

    /// Says whether every symbolic address of the table has one that
    /// stands for it in the context of `new_solver`: what
    /// [`change_solver`](Self::change_solver) asks for.
    pub fn can_change_solver<S: SolverRef<V>>(&self, new_solver: &S) -> (all: bool)
        requires
            self.wf(),
        ensures
            all == (forall|address: V| #[trigger]
                self@.holds_address(address) ==> new_solver.matching(address) is Some),
    {
        let all = definitions_match(&self.allocated_globals, new_solver)
            && addresses_match(&self.allocated_hooks, new_solver)
            && addresses_match(&self.module_private_allocated_globals.table, new_solver);
        proof {
            let view = self@;
            if all {
                assert forall|address: V| #[trigger]
                    view.holds_address(address) implies new_solver.matching(address) is Some by {
                    if exists|name: NameView| #[trigger]
                        view.globals.contains_key(name) && view.globals[name].address()
                            == address {
                        let name = choose|name: NameView| #[trigger]
                            view.globals.contains_key(name) && view.globals[name].address()
                                == address;
                        assert(self.allocated_globals@.contains_key(name));
                    } else if exists|hook: HookId| #[trigger]
                        view.hooks.contains_key(hook) && view.hooks[hook] == address {
                        let hook = choose|hook: HookId| #[trigger]
                            view.hooks.contains_key(hook) && view.hooks[hook] == address;
                        assert(self.allocated_hooks@.contains_key(hook));
                    } else {
                        let key = choose|key: (Seq<char>, NameView)| #[trigger]
                            view.private_globals.contains_key(key) && view.private_globals[key]
                                == address;
                        assert(self.module_private_allocated_globals@.contains_key(key));
                    }
                }
            } else {
                if !(forall|name: NameView| #[trigger]
                    self.allocated_globals@.contains_key(name) ==> new_solver.matching(
                        self.allocated_globals@[name].address(),
                    ) is Some) {
                    let name = choose|name: NameView| #[trigger]
                        self.allocated_globals@.contains_key(name) && !(new_solver.matching(
                            self.allocated_globals@[name].address(),
                        ) is Some);
                    assert(view.globals.contains_key(name));
                    assert(view.holds_address(view.globals[name].address()));
                } else if !(forall|hook: HookId| #[trigger]
                    self.allocated_hooks@.contains_key(hook) ==> new_solver.matching(
                        self.allocated_hooks@[hook],
                    ) is Some) {
                    let hook = choose|hook: HookId| #[trigger]
                        self.allocated_hooks@.contains_key(hook) && !(new_solver.matching(
                            self.allocated_hooks@[hook],
                        ) is Some);
                    assert(view.hooks.contains_key(hook));
                    assert(view.holds_address(view.hooks[hook]));
                } else {
                    let key = choose|key: (Seq<char>, NameView)| #[trigger]
                        self.module_private_allocated_globals@.contains_key(key) && !(
                        new_solver.matching(self.module_private_allocated_globals@[key]) is Some);
                    assert(view.private_globals.contains_key(key));
                    assert(view.holds_address(view.private_globals[key]));
                }
            }
        }
        all
    }

    /// Adapts the table to a new solver context: every symbolic address,
    /// of a public global, of a module-private global and of a hook, is
    /// replaced by the one that stands for it in the context of
    /// `new_solver`.
    ///
    /// `new_solver` is to come, directly or through further duplicates,
    /// from duplicating the context in which the addresses of the table
    /// were made, with no value made in between: then every address has
    /// one that stands for it.
    pub fn change_solver<S: SolverRef<V>>(&mut self, new_solver: S)
        requires
            old(self).wf(),
            forall|address: V| #[trigger]
                old(self)@.holds_address(address) ==> new_solver.matching(address) is Some,
        ensures
            final(self).wf(),
            final(self)@ == old(self)@.rebind(rebinding(new_solver)),
    {
        proof {
            let view = self@;
            assert forall|name: NameView| #[trigger]
                self.allocated_globals@.contains_key(name) implies new_solver.matching(
                self.allocated_globals@[name].address(),
            ) is Some by {
                assert(view.globals.contains_key(name));
                assert(view.holds_address(view.globals[name].address()));
            }
            assert forall|hook: HookId| #[trigger]
                self.allocated_hooks@.contains_key(hook) implies new_solver.matching(
                self.allocated_hooks@[hook],
            ) is Some by {
                assert(view.hooks.contains_key(hook));
                assert(view.holds_address(view.hooks[hook]));
            }
            assert forall|key: (Seq<char>, NameView)| #[trigger]
                self.module_private_allocated_globals@.contains_key(key) implies new_solver.matching(
                self.module_private_allocated_globals@[key],
            ) is Some by {
                assert(view.private_globals.contains_key(key));
                assert(view.holds_address(view.private_globals[key]));
            }
        }
        rebind_definitions(&mut self.allocated_globals, &new_solver);
        rebind_addresses(&mut self.allocated_hooks, &new_solver);
        rebind_addresses(&mut self.module_private_allocated_globals.table, &new_solver);
    }
}

} // verus!
