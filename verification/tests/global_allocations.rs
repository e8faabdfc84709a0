use haybale::backend::SolverRef;
use haybale::callable::{Callable, HookId};
use haybale::global_allocations::{
    AllocationConflict, AllocationResult, Definition, Function, GlobalAllocations, GlobalVariable,
    Module,
};
use haybale::linkage::{Linkage, LinkageClass};
use haybale::name::Name;

fn module(name: &str) -> Module {
    Module { name: name.to_owned() }
}

fn variable(name: &str, linkage: Linkage) -> GlobalVariable {
    GlobalVariable { name: Name::Name(name.to_owned()), linkage, has_initializer: true }
}

fn function(name: &str, linkage: Linkage) -> Function {
    Function { name: name.to_owned(), linkage }
}

fn name(text: &str) -> Name {
    Name::Name(text.to_owned())
}

const WEAK_LINKAGES: [Linkage; 7] = [
    Linkage::AvailableExternally,
    Linkage::LinkOnceAny,
    Linkage::WeakAny,
    Linkage::Common,
    Linkage::ExternalWeak,
    Linkage::LinkOnceODR,
    Linkage::WeakODR,
];

const UNSUPPORTED_LINKAGES: [Linkage; 7] = [
    Linkage::LinkOnceODRAutoHide,
    Linkage::Appending,
    Linkage::DLLImport,
    Linkage::DLLExport,
    Linkage::GhostLinkage,
    Linkage::LinkerPrivate,
    Linkage::LinkerPrivateWeak,
];

#[test]
fn linkages_are_classified() {
    assert_eq!(Linkage::Private.class(), LinkageClass::ModulePrivate);
    assert_eq!(Linkage::Internal.class(), LinkageClass::ModulePrivate);
    assert_eq!(Linkage::External.class(), LinkageClass::PublicStrong);
    for linkage in WEAK_LINKAGES.iter() {
        assert_eq!(linkage.class(), LinkageClass::PublicWeak);
    }
    for linkage in UNSUPPORTED_LINKAGES.iter() {
        assert_eq!(linkage.class(), LinkageClass::Unsupported);
    }
}

#[test]
fn empty_table_resolves_nothing() {
    let table: GlobalAllocations<u64> = GlobalAllocations::new();
    let a = module("A");
    assert_eq!(table.get_global_address(&name("g"), &a), None);
    assert_eq!(table.get_function_hook_address(&HookId { id: 0 }), None);
    assert!(table.get_func_for_address(0, &a).is_none());
}

#[test]
fn definition_gives_its_address() {
    assert_eq!(*Definition::Strong(5u64).get(), 5);
    assert_eq!(*Definition::Weak(6u64).get(), 6);
}

#[test]
fn strong_wins_over_earlier_weak() {
    let mut table: GlobalAllocations<u64> = GlobalAllocations::new();
    let a = module("A");
    let b = module("B");
    table.allocate_global_var(&variable("g", Linkage::WeakAny), &a, 100);
    assert_eq!(table.get_global_address(&name("g"), &b), Some(&100));
    assert_eq!(table.allocation_conflict(&variable("g", Linkage::External), &b), None);
    table.allocate_global_var(&variable("g", Linkage::External), &b, 200);
    assert_eq!(table.get_global_address(&name("g"), &a), Some(&200));
    assert_eq!(table.get_global_address(&name("g"), &b), Some(&200));
}

#[test]
fn strong_wins_over_later_weak() {
    let mut table: GlobalAllocations<u64> = GlobalAllocations::new();
    let a = module("A");
    let b = module("B");
    let strong = variable("g", Linkage::External);
    let weak = variable("g", Linkage::Common);
    assert_eq!(table.allocate_global(&strong, &a, 200), AllocationResult::Public);
    assert_eq!(table.allocation_conflict(&weak, &b), None);
    assert_eq!(table.allocate_global(&weak, &b, 100), AllocationResult::NoAllocate);
    assert_eq!(table.get_global_address(&name("g"), &a), Some(&200));
    assert_eq!(table.get_global_address(&name("g"), &b), Some(&200));
}

#[test]
fn second_strong_definition_is_a_conflict() {
    let mut table: GlobalAllocations<u64> = GlobalAllocations::new();
    let a = module("A");
    let b = module("B");
    let strong = variable("g", Linkage::External);
    assert_eq!(table.allocation_conflict(&strong, &a), None);
    table.allocate_global_var(&strong, &a, 200);
    assert_eq!(table.allocation_conflict(&strong, &a), Some(AllocationConflict::DuplicateStrong));
    assert_eq!(table.allocation_conflict(&strong, &b), Some(AllocationConflict::DuplicateStrong));
    assert_eq!(
        table.allocation_conflict(&function("g", Linkage::External), &b),
        Some(AllocationConflict::DuplicateStrong)
    );
    // another name is free
    assert_eq!(table.allocation_conflict(&variable("h", Linkage::External), &b), None);
}

#[test]
fn second_module_private_definition_is_a_conflict() {
    let mut table: GlobalAllocations<u64> = GlobalAllocations::new();
    let a = module("A");
    let b = module("B");
    let private = variable("g", Linkage::Private);
    let internal = variable("g", Linkage::Internal);
    assert_eq!(table.allocate_global(&private, &a, 10), AllocationResult::ModulePrivate);
    assert_eq!(
        table.allocation_conflict(&private, &a),
        Some(AllocationConflict::DuplicateModulePrivate)
    );
    assert_eq!(
        table.allocation_conflict(&internal, &a),
        Some(AllocationConflict::DuplicateModulePrivate)
    );
    // the same name in another module is free
    assert_eq!(table.allocation_conflict(&private, &b), None);
}

#[test]
fn conflicting_allocation_changes_nothing() {
    let mut table: GlobalAllocations<u64> = GlobalAllocations::new();
    let a = module("A");
    let b = module("B");
    // a second strong definition, as a variable and as a function
    assert_eq!(
        table.try_allocate_global(&variable("g", Linkage::External), &a, 1),
        Ok(AllocationResult::Public)
    );
    assert_eq!(
        table.try_allocate_global(&variable("g", Linkage::External), &b, 2),
        Err(AllocationConflict::DuplicateStrong)
    );
    assert_eq!(
        table.try_allocate_function(&function("g", Linkage::External), &b, 0x40, 3),
        Err(AllocationConflict::DuplicateStrong)
    );
    assert_eq!(table.get_global_address(&name("g"), &a), Some(&1));
    assert_eq!(table.get_global_address(&name("g"), &b), Some(&1));
    assert_eq!(table.get_func_for_address(0x40, &b), None);

    // a second module-private definition, under either private linkage
    assert_eq!(
        table.try_allocate_function(&function("p", Linkage::Private), &a, 0x50, 10),
        Ok(AllocationResult::ModulePrivate)
    );
    assert_eq!(
        table.try_allocate_function(&function("p", Linkage::Internal), &a, 0x60, 11),
        Err(AllocationConflict::DuplicateModulePrivate)
    );
    assert_eq!(
        table.try_allocate_global(&variable("p", Linkage::Private), &a, 12),
        Err(AllocationConflict::DuplicateModulePrivate)
    );
    assert_eq!(table.get_global_address(&name("p"), &a), Some(&10));
    assert_eq!(table.get_func_for_address(0x60, &a), None);
    assert_eq!(table.get_func_for_address(0x50, &a), Some(Callable::LLVMFunction("p".to_owned())));

    // a linkage that is not allocated
    assert_eq!(
        table.try_allocate_global(&variable("u", Linkage::Appending), &a, 20),
        Err(AllocationConflict::UnsupportedLinkage)
    );
    assert_eq!(table.get_global_address(&name("u"), &a), None);

    // a weak definition that gives way is no conflict
    assert_eq!(
        table.try_allocate_function(&function("g", Linkage::WeakAny), &b, 0x70, 4),
        Ok(AllocationResult::NoAllocate)
    );
    assert_eq!(table.get_func_for_address(0x70, &b), None);
}

#[test]
fn allocating_a_function_says_what_came_of_it() {
    let mut table: GlobalAllocations<u64> = GlobalAllocations::new();
    let a = module("A");
    assert_eq!(
        table.allocate_function(&function("f", Linkage::External), &a, 0x40, 1),
        AllocationResult::Public
    );
    assert_eq!(
        table.allocate_function(&function("f", Linkage::LinkOnceODR), &a, 0x50, 2),
        AllocationResult::NoAllocate
    );
    assert_eq!(
        table.allocate_function(&function("f", Linkage::Internal), &a, 0x60, 3),
        AllocationResult::ModulePrivate
    );
}

#[test]
fn unsupported_linkage_is_a_conflict() {
    let table: GlobalAllocations<u64> = GlobalAllocations::new();
    let a = module("A");
    for linkage in UNSUPPORTED_LINKAGES.iter() {
        assert_eq!(
            table.allocation_conflict(&variable("g", *linkage), &a),
            Some(AllocationConflict::UnsupportedLinkage)
        );
    }
}

#[test]
fn first_weak_definition_is_kept() {
    for first in WEAK_LINKAGES.iter() {
        for second in WEAK_LINKAGES.iter() {
            let mut table: GlobalAllocations<u64> = GlobalAllocations::new();
            let a = module("A");
            let b = module("B");
            assert_eq!(
                table.allocate_global(&variable("g", *first), &a, 1),
                AllocationResult::Public
            );
            assert_eq!(
                table.allocate_global(&variable("g", *second), &b, 2),
                AllocationResult::NoAllocate
            );
            assert_eq!(table.get_global_address(&name("g"), &a), Some(&1));
            assert_eq!(table.get_global_address(&name("g"), &b), Some(&1));
        }
    }
}

#[test]
fn module_private_shadows_public() {
    let mut table: GlobalAllocations<u64> = GlobalAllocations::new();
    let a = module("A");
    let b = module("B");
    let c = module("C");
    table.allocate_global_var(&variable("g", Linkage::External), &a, 1000);
    table.allocate_global_var(&variable("g", Linkage::Internal), &b, 2000);
    assert_eq!(table.get_global_address(&name("g"), &b), Some(&2000));
    assert_eq!(table.get_global_address(&name("g"), &a), Some(&1000));
    assert_eq!(table.get_global_address(&name("g"), &c), Some(&1000));

    // the other order
    let mut table: GlobalAllocations<u64> = GlobalAllocations::new();
    table.allocate_global_var(&variable("g", Linkage::Internal), &b, 2000);
    assert_eq!(table.get_global_address(&name("g"), &a), None);
    table.allocate_global_var(&variable("g", Linkage::WeakODR), &a, 1000);
    assert_eq!(table.get_global_address(&name("g"), &b), Some(&2000));
    assert_eq!(table.get_global_address(&name("g"), &a), Some(&1000));
    assert_eq!(table.get_global_address(&name("g"), &c), Some(&1000));
}

#[test]
fn two_modules_have_their_own_private_global() {
    let a = module("A");
    let b = module("B");
    let c = module("C");
    let g = variable("g", Linkage::Private);

    let mut table: GlobalAllocations<u64> = GlobalAllocations::new();
    table.allocate_global_var(&g, &a, 0xa000);
    table.allocate_global_var(&g, &b, 0xb000);
    assert_eq!(table.get_global_address(&name("g"), &a), Some(&0xa000));
    assert_eq!(table.get_global_address(&name("g"), &b), Some(&0xb000));
    assert_eq!(table.get_global_address(&name("g"), &c), None);

    let mut table: GlobalAllocations<u64> = GlobalAllocations::new();
    table.allocate_global_var(&g, &b, 0xb000);
    table.allocate_global_var(&g, &a, 0xa000);
    assert_eq!(table.get_global_address(&name("g"), &a), Some(&0xa000));
    assert_eq!(table.get_global_address(&name("g"), &b), Some(&0xb000));
    assert_eq!(table.get_global_address(&name("g"), &c), None);
}

#[test]
fn textual_and_numeric_names_are_different() {
    let mut table: GlobalAllocations<u64> = GlobalAllocations::new();
    let a = module("A");
    let numbered = GlobalVariable {
        name: Name::Number(7),
        linkage: Linkage::External,
        has_initializer: true,
    };
    table.allocate_global_var(&numbered, &a, 70);
    table.allocate_global_var(&variable("7", Linkage::External), &a, 71);
    assert_eq!(table.get_global_address(&Name::Number(7), &a), Some(&70));
    assert_eq!(table.get_global_address(&name("7"), &a), Some(&71));
    assert_eq!(table.get_global_address(&Name::Number(8), &a), None);
}

#[test]
fn public_function_is_found_by_its_address_from_every_module() {
    let mut table: GlobalAllocations<u64> = GlobalAllocations::new();
    let a = module("A");
    let b = module("B");
    table.allocate_function(&function("f", Linkage::External), &a, 0x40, 0x4040);
    assert_eq!(table.get_global_address(&name("f"), &b), Some(&0x4040));
    assert_eq!(table.get_func_for_address(0x40, &a), Some(Callable::LLVMFunction("f".to_owned())));
    assert_eq!(table.get_func_for_address(0x40, &b), Some(Callable::LLVMFunction("f".to_owned())));
    assert_eq!(table.get_func_for_address(0x41, &b), None);
}

#[test]
fn module_private_function_is_found_in_its_module_only() {
    let mut table: GlobalAllocations<u64> = GlobalAllocations::new();
    let a = module("A");
    let b = module("B");
    table.allocate_function(&function("f", Linkage::Internal), &a, 0x40, 0x4040);
    assert_eq!(table.get_global_address(&name("f"), &a), Some(&0x4040));
    assert_eq!(table.get_global_address(&name("f"), &b), None);
    assert_eq!(table.get_func_for_address(0x40, &a), Some(Callable::LLVMFunction("f".to_owned())));
    assert_eq!(table.get_func_for_address(0x40, &b), None);
}

#[test]
fn skipped_weak_function_is_not_registered() {
    let mut table: GlobalAllocations<u64> = GlobalAllocations::new();
    let a = module("A");
    table.allocate_function(&function("f", Linkage::External), &a, 0x40, 0x4040);
    table.allocate_function(&function("f", Linkage::WeakAny), &a, 0x50, 0x5050);
    assert_eq!(table.get_global_address(&name("f"), &a), Some(&0x4040));
    assert_eq!(table.get_func_for_address(0x50, &a), None);
    assert_eq!(table.get_func_for_address(0x40, &a), Some(Callable::LLVMFunction("f".to_owned())));
}

#[test]
fn public_callable_is_found_before_a_private_one_at_the_same_address() {
    let mut table: GlobalAllocations<u64> = GlobalAllocations::new();
    let a = module("A");
    table.allocate_function(&function("hidden", Linkage::Private), &a, 0x40, 1);
    table.allocate_function(&function("shown", Linkage::External), &a, 0x40, 2);
    assert_eq!(
        table.get_func_for_address(0x40, &a),
        Some(Callable::LLVMFunction("shown".to_owned()))
    );
}

#[test]
fn public_addresses_are_told_from_private_ones() {
    let mut table: GlobalAllocations<u64> = GlobalAllocations::new();
    let a = module("A");
    table.allocate_function(&function("shown", Linkage::External), &a, 0x40, 1);
    table.allocate_function(&function("hidden", Linkage::Private), &a, 0x50, 2);
    table.allocate_function_hook(HookId { id: 1 }, 0x60, 3);
    assert!(table.is_public_address(0x40));
    assert!(!table.is_public_address(0x50));
    assert!(table.is_public_address(0x60));
    assert!(!table.is_public_address(0x70));
}

#[test]
fn function_hooks_are_public() {
    let mut table: GlobalAllocations<u64> = GlobalAllocations::new();
    let a = module("A");
    let b = module("B");
    let hook = HookId { id: 3 };
    let other = HookId { id: 4 };
    table.allocate_function_hook(hook, 0x80, 0x8080);
    assert_eq!(table.get_function_hook_address(&hook), Some(&0x8080));
    assert_eq!(table.get_function_hook_address(&other), None);
    assert_eq!(table.get_func_for_address(0x80, &a), Some(Callable::FunctionHook(hook)));
    assert_eq!(table.get_func_for_address(0x80, &b), Some(Callable::FunctionHook(hook)));
    // a hook has no name: no global resolves to it
    assert_eq!(table.get_global_address(&name("3"), &a), None);
    // allocating the hook again moves it
    table.allocate_function_hook(hook, 0x90, 0x9090);
    assert_eq!(table.get_function_hook_address(&hook), Some(&0x9090));
    assert_eq!(table.get_func_for_address(0x90, &a), Some(Callable::FunctionHook(hook)));
}

/// A solver context in which every address is the old one plus an offset,
/// and which does not know the addresses above a limit.
struct Shifted {
    offset: u64,
    limit: u64,
}

impl SolverRef<u64> for Shifted {
    fn matching(&self, bv: u64) -> Option<u64> {
        if bv <= self.limit {
            Some(bv + self.offset)
        } else {
            None
        }
    }

    fn match_bv(&self, bv: &u64) -> Option<u64> {
        self.matching(*bv)
    }
}

#[test]
fn solver_handle_matches_what_it_knows() {
    let solver = Shifted { offset: 10, limit: 5 };
    assert_eq!(solver.match_bv(&5), Some(15));
    assert_eq!(solver.match_bv(&6), None);
}

#[test]
fn change_solver_rebinds_every_address() {
    let mut table: GlobalAllocations<u64> = GlobalAllocations::new();
    let a = module("A");
    let b = module("B");
    let hook = HookId { id: 1 };
    table.allocate_global_var(&variable("strong", Linkage::External), &a, 1);
    table.allocate_global_var(&variable("weak", Linkage::WeakAny), &a, 2);
    table.allocate_global_var(&variable("private", Linkage::Private), &a, 3);
    table.allocate_global_var(&variable("private", Linkage::Private), &b, 4);
    table.allocate_function(&function("f", Linkage::External), &a, 0x40, 5);
    table.allocate_function(&function("p", Linkage::Internal), &b, 0x50, 6);
    table.allocate_function_hook(hook, 0x60, 7);

    table.change_solver(Shifted { offset: 1000, limit: 7 });

    assert_eq!(table.get_global_address(&name("strong"), &b), Some(&1001));
    assert_eq!(table.get_global_address(&name("weak"), &b), Some(&1002));
    assert_eq!(table.get_global_address(&name("private"), &a), Some(&1003));
    assert_eq!(table.get_global_address(&name("private"), &b), Some(&1004));
    assert_eq!(table.get_global_address(&name("f"), &b), Some(&1005));
    assert_eq!(table.get_global_address(&name("p"), &b), Some(&1006));
    assert_eq!(table.get_function_hook_address(&hook), Some(&1007));
    // what is allocated where stays as it is
    assert_eq!(table.get_func_for_address(0x40, &b), Some(Callable::LLVMFunction("f".to_owned())));
    assert_eq!(table.get_func_for_address(0x50, &b), Some(Callable::LLVMFunction("p".to_owned())));
    assert_eq!(table.get_func_for_address(0x60, &b), Some(Callable::FunctionHook(hook)));
    // strengths are kept: the weak definition still gives way, the strong one does not
    assert_eq!(table.allocation_conflict(&variable("weak", Linkage::External), &a), None);
    assert_eq!(
        table.allocation_conflict(&variable("strong", Linkage::External), &a),
        Some(AllocationConflict::DuplicateStrong)
    );
}

#[test]
fn solver_change_is_possible_if_every_address_has_a_match() {
    let mut table: GlobalAllocations<u64> = GlobalAllocations::new();
    let a = module("A");
    assert!(table.can_change_solver(&Shifted { offset: 1, limit: 0 }));
    table.allocate_global_var(&variable("g", Linkage::External), &a, 1);
    table.allocate_global_var(&variable("p", Linkage::Private), &a, 2);
    table.allocate_function_hook(HookId { id: 0 }, 0x10, 3);
    assert!(table.can_change_solver(&Shifted { offset: 1, limit: 3 }));
    // each of the three tables is looked at
    assert!(!table.can_change_solver(&Shifted { offset: 1, limit: 2 }));
    assert!(!table.can_change_solver(&Shifted { offset: 1, limit: 0 }));
    let mut private_only: GlobalAllocations<u64> = GlobalAllocations::new();
    private_only.allocate_global_var(&variable("p", Linkage::Private), &a, 2);
    assert!(!private_only.can_change_solver(&Shifted { offset: 1, limit: 1 }));
    assert!(private_only.can_change_solver(&Shifted { offset: 1, limit: 2 }));
    // an address at which a function is allocated needs no match: only symbolic addresses do
    let mut functions: GlobalAllocations<u64> = GlobalAllocations::new();
    functions.allocate_function(&function("f", Linkage::External), &a, 0x4000, 1);
    assert!(functions.can_change_solver(&Shifted { offset: 1, limit: 1 }));
}

#[test]
fn cloned_table_is_independent() {
    let mut table: GlobalAllocations<u64> = GlobalAllocations::new();
    let a = module("A");
    table.allocate_global_var(&variable("g", Linkage::WeakAny), &a, 1);
    let snapshot = table.clone();
    table.allocate_global_var(&variable("g", Linkage::External), &a, 2);
    assert_eq!(snapshot.get_global_address(&name("g"), &a), Some(&1));
    assert_eq!(table.get_global_address(&name("g"), &a), Some(&2));
}
