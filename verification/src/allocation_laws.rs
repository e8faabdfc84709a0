//! What holds of every table of global allocations.
//!
//! The laws are stated over [`AllocationsView`], the maps that a table
//! stands for: the operations of
//! [`GlobalAllocations`](crate::global_allocations::GlobalAllocations) are
//! specified by the functions of that view.

use crate::callable::{CallableView, HookId};
use crate::global_allocations::{AllocationConflict, AllocationResult, AllocationsView};
use crate::linkage::{Linkage, LinkageClass};
use crate::name::NameView;
use vstd::prelude::*;

verus! {

/// A strong definition wins over a weak one of the same public name, in
/// whichever order the two are allocated: seen from a module without a
/// private global of that name, the name resolves to the strong address.
pub proof fn law_strong_over_weak<V>(
    table: AllocationsView<V>,
    name: NameView,
    strong: Linkage,
    strong_module: Seq<char>,
    strong_addr: V,
    weak: Linkage,
    weak_module: Seq<char>,
    weak_addr: V,
    from: Seq<char>,
)
    requires
        strong.spec_class() == LinkageClass::PublicStrong,
        weak.spec_class() == LinkageClass::PublicWeak,
        table.conflict(name, strong, strong_module) is None,
        !table.private_globals.contains_key((from, name)),
    ensures
        table.allocate(name, weak, weak_module, weak_addr).conflict(name, strong, strong_module)
            is None,
        table.allocate(name, weak, weak_module, weak_addr).allocate(
            name,
            strong,
            strong_module,
            strong_addr,
        ).address_of(name, from) == Some(strong_addr),
        table.allocate(name, strong, strong_module, strong_addr).conflict(
            name,
            weak,
            weak_module,
        ) is None,
        table.allocate(name, strong, strong_module, strong_addr).allocate(
            name,
            weak,
            weak_module,
            weak_addr,
        ).address_of(name, from) == Some(strong_addr),
{
}

/// After a strong public definition of a name, a second strong public
/// definition of that name is a conflict, whatever module it comes from.
pub proof fn law_duplicate_strong_conflict<V>(
    table: AllocationsView<V>,
    name: NameView,
    first: Linkage,
    first_module: Seq<char>,
    first_addr: V,
    second: Linkage,
    second_module: Seq<char>,
)
    requires
        first.spec_class() == LinkageClass::PublicStrong,
        second.spec_class() == LinkageClass::PublicStrong,
    ensures
        table.allocate(name, first, first_module, first_addr).conflict(
            name,
            second,
            second_module,
        ) == Some(AllocationConflict::DuplicateStrong),
{
}

/// After a module-private definition of a name, a second module-private
/// definition of that name in the same module is a conflict.
pub proof fn law_duplicate_module_private_conflict<V>(
    table: AllocationsView<V>,
    name: NameView,
    module: Seq<char>,
    first: Linkage,
    first_addr: V,
    second: Linkage,
)
    requires
        first.spec_class() == LinkageClass::ModulePrivate,
        second.spec_class() == LinkageClass::ModulePrivate,
    ensures
        table.allocate(name, first, module, first_addr).conflict(name, second, module) == Some(
            AllocationConflict::DuplicateModulePrivate,
        ),
{
}

/// Of two weak definitions of a public name that has no definition yet,
/// the first is kept: the second allocates nothing, and the name resolves
/// to the first address.
pub proof fn law_weak_first_wins<V>(
    table: AllocationsView<V>,
    name: NameView,
    first: Linkage,
    first_module: Seq<char>,
    first_addr: V,
    second: Linkage,
    second_module: Seq<char>,
    second_addr: V,
    from: Seq<char>,
)
    requires
        first.spec_class() == LinkageClass::PublicWeak,
        second.spec_class() == LinkageClass::PublicWeak,
        !table.globals.contains_key(name),
        !table.private_globals.contains_key((from, name)),
    ensures
        table.outcome(name, first) == AllocationResult::Public,
        table.allocate(name, first, first_module, first_addr).outcome(name, second)
            == AllocationResult::NoAllocate,
        table.allocate(name, first, first_module, first_addr).allocate(
            name,
            second,
            second_module,
            second_addr,
        ) == table.allocate(name, first, first_module, first_addr),
        table.allocate(name, first, first_module, first_addr).allocate(
            name,
            second,
            second_module,
            second_addr,
        ).address_of(name, from) == Some(first_addr),
{
}

/// A module-private definition shadows a public one of the same name:
/// seen from the module that has the private definition the name resolves
/// to the private address, seen from a module without a private global
/// of that name it resolves to the public address. The order of the two
/// allocations makes no difference.
pub proof fn law_module_private_shadows_public<V>(
    table: AllocationsView<V>,
    name: NameView,
    public: Linkage,
    public_module: Seq<char>,
    public_addr: V,
    private: Linkage,
    private_module: Seq<char>,
    private_addr: V,
    other: Seq<char>,
)
    requires
        private.spec_class() == LinkageClass::ModulePrivate,
        public.spec_class() == LinkageClass::PublicStrong || (public.spec_class()
            == LinkageClass::PublicWeak && !table.globals.contains_key(name)),
        other != private_module,
        !table.private_globals.contains_key((other, name)),
    ensures
        table.allocate(name, public, public_module, public_addr).allocate(
            name,
            private,
            private_module,
            private_addr,
        ) == table.allocate(name, private, private_module, private_addr).allocate(
            name,
            public,
            public_module,
            public_addr,
        ),
        table.allocate(name, public, public_module, public_addr).allocate(
            name,
            private,
            private_module,
            private_addr,
        ).address_of(name, private_module) == Some(private_addr),
        table.allocate(name, public, public_module, public_addr).allocate(
            name,
            private,
            private_module,
            private_addr,
        ).address_of(name, other) == Some(public_addr),
{
}

/// Two modules can each have a module-private global of the same name:
/// seen from either module the name resolves to that module's own
/// address, and the order of the two allocations makes no difference.
pub proof fn law_module_private_globals_are_independent<V>(
    table: AllocationsView<V>,
    name: NameView,
    linkage_a: Linkage,
    module_a: Seq<char>,
    addr_a: V,
    linkage_b: Linkage,
    module_b: Seq<char>,
    addr_b: V,
)
    requires
        linkage_a.spec_class() == LinkageClass::ModulePrivate,
        linkage_b.spec_class() == LinkageClass::ModulePrivate,
        module_a != module_b,
    ensures
        table.conflict(name, linkage_b, module_b) is None ==> table.allocate(
            name,
            linkage_a,
            module_a,
            addr_a,
        ).conflict(name, linkage_b, module_b) is None,
        table.allocate(name, linkage_a, module_a, addr_a).allocate(
            name,
            linkage_b,
            module_b,
            addr_b,
        ) == table.allocate(name, linkage_b, module_b, addr_b).allocate(
            name,
            linkage_a,
            module_a,
            addr_a,
        ),
        table.allocate(name, linkage_a, module_a, addr_a).allocate(
            name,
            linkage_b,
            module_b,
            addr_b,
        ).address_of(name, module_a) == Some(addr_a),
        table.allocate(name, linkage_a, module_a, addr_a).allocate(
            name,
            linkage_b,
            module_b,
            addr_b,
        ).address_of(name, module_b) == Some(addr_b),
{
    let ab = table.allocate(name, linkage_a, module_a, addr_a).allocate(
        name,
        linkage_b,
        module_b,
        addr_b,
    );
    let ba = table.allocate(name, linkage_b, module_b, addr_b).allocate(
        name,
        linkage_a,
        module_a,
        addr_a,
    );
    assert(ab.private_globals =~= ba.private_globals);
}

/// A function hook is public: once it is allocated, its address is known,
/// and a pointer to that address points to the hook, seen from any module.
pub proof fn law_hooks_are_public<V>(
    table: AllocationsView<V>,
    hook: HookId,
    addr: u64,
    addr_bv: V,
    from: Seq<char>,
)
    ensures
        table.allocate_hook(hook, addr, addr_bv).hook_address(hook) == Some(addr_bv),
        table.allocate_hook(hook, addr, addr_bv).callable_at(addr, from) == Some(
            CallableView::FunctionHook(hook),
        ),
        table.allocate_hook(hook, addr, addr_bv).globals == table.globals,
        table.allocate_hook(hook, addr, addr_bv).private_globals == table.private_globals,
{
}

/// A pointer to the address of a public function points to the function,
/// seen from any module.
pub proof fn law_public_function_is_found_by_address<V>(
    table: AllocationsView<V>,
    function: Seq<char>,
    linkage: Linkage,
    module: Seq<char>,
    addr: u64,
    addr_bv: V,
    from: Seq<char>,
)
    requires
        table.outcome(NameView::Name(function), linkage) == AllocationResult::Public,
    ensures
        table.allocate_function(function, linkage, module, addr, addr_bv).callable_at(addr, from)
            == Some(CallableView::LLVMFunction(function)),
        !table.private_globals.contains_key((from, NameView::Name(function)))
            ==> table.allocate_function(function, linkage, module, addr, addr_bv).address_of(
            NameView::Name(function),
            from,
        ) == Some(addr_bv),
{
}

/// A pointer to the address of a module-private function points to the
/// function seen from the function's own module, unless something public
/// is allocated at that address. Seen from another module the pointer
/// points to what it pointed to before.
pub proof fn law_private_function_is_found_in_its_module<V>(
    table: AllocationsView<V>,
    function: Seq<char>,
    linkage: Linkage,
    module: Seq<char>,
    addr: u64,
    addr_bv: V,
    from: Seq<char>,
)
    requires
        table.outcome(NameView::Name(function), linkage) == AllocationResult::ModulePrivate,
        from != module,
    ensures
        !table.functions.contains_key(addr) ==> table.allocate_function(
            function,
            linkage,
            module,
            addr,
            addr_bv,
        ).callable_at(addr, module) == Some(CallableView::LLVMFunction(function)),
        table.allocate_function(function, linkage, module, addr, addr_bv).callable_at(addr, from)
            == table.callable_at(addr, from),
        table.allocate_function(function, linkage, module, addr, addr_bv).address_of(
            NameView::Name(function),
            module,
        ) == Some(addr_bv),
        table.allocate_function(function, linkage, module, addr, addr_bv).address_of(
            NameView::Name(function),
            from,
        ) == table.address_of(NameView::Name(function), from),
{
}

/// A function whose name is not allocated, because a definition that was
/// there took precedence, is not registered at its address either.
pub proof fn law_skipped_function_is_not_registered<V>(
    table: AllocationsView<V>,
    function: Seq<char>,
    linkage: Linkage,
    module: Seq<char>,
    addr: u64,
    addr_bv: V,
)
    requires
        table.outcome(NameView::Name(function), linkage) == AllocationResult::NoAllocate,
    ensures
        table.allocate_function(function, linkage, module, addr, addr_bv) == table,
{
}

/// Moving a table to another solver context keeps what resolves and
/// moves what it resolves to: a name or a hook that had the address `a`
/// has the address `f(a)`, one that had none has none, and what is
/// allocated at an address stays as it is.
pub proof fn law_rebinding_keeps_what_resolves<V>(
    table: AllocationsView<V>,
    f: spec_fn(V) -> V,
    name: NameView,
    hook: HookId,
    addr: u64,
    from: Seq<char>,
)
    ensures
        table.rebind(f).address_of(name, from) == (match table.address_of(name, from) {
            Some(address) => Some(f(address)),
            None => None,
        }),
        table.rebind(f).hook_address(hook) == (match table.hook_address(hook) {
            Some(address) => Some(f(address)),
            None => None,
        }),
        table.rebind(f).callable_at(addr, from) == table.callable_at(addr, from),
        forall|linkage: Linkage, module: Seq<char>|
            table.rebind(f).conflict(name, linkage, module) == #[trigger] table.conflict(
                name,
                linkage,
                module,
            ),
{
}

} // verus!
