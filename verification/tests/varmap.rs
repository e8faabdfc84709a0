use haybale::name::Name;
use haybale::varmap::{VarMap, VERSION_LIMIT_MESSAGE};
use z3::ast::{Ast, BV};

#[test]
fn lookup_vars() {
    let ctx = z3::Context::new(&z3::Config::new());
    let mut varmap = VarMap::new(&ctx, 20);
    let funcname = "foo".to_owned();

    // create names
    let valname = Name::Name("val".to_owned());
    let boolname = Name::Number(2);

    // create corresponding Z3 values
    let valvar = varmap.new_bv_with_name(funcname.clone(), valname.clone(), 64).unwrap();
    let boolvar = varmap.new_bool_with_name(funcname.clone(), boolname.clone()).unwrap();

    // check that looking up the names gives the correct Z3 values
    assert_eq!(varmap.lookup_bv_var(&funcname, &valname).ast(), valvar.ast());
    assert_eq!(varmap.lookup_bool_var(&funcname, &boolname).ast(), boolvar.ast());
}

#[test]
fn vars_are_uniqued() {
    let ctx = z3::Context::new(&z3::Config::new());
    let mut varmap = VarMap::new(&ctx, 20);
    let solver = z3::Solver::new(&ctx);
    let funcname = "foo".to_owned();

    // create two vars with the same name
    let name = Name::Name("x".to_owned());
    let x1 = varmap.new_bv_with_name(funcname.clone(), name.clone(), 64).unwrap();
    let x2 = varmap.new_bv_with_name(funcname.clone(), name, 64).unwrap();

    // constrain with incompatible constraints
    solver.assert(&x1.ast().bvugt(&BV::from_u64(&ctx, 2, 64)));
    solver.assert(&x2.ast().bvult(&BV::from_u64(&ctx, 1, 64)));

    // check that we're still sat
    assert!(solver.check() == z3::SatResult::Sat);

    // now repeat with integer names
    let name = Name::Number(3);
    let x1 = varmap.new_bv_with_name(funcname.clone(), name.clone(), 64).unwrap();
    let x2 = varmap.new_bv_with_name(funcname.clone(), name, 64).unwrap();
    solver.assert(&x1.ast().bvugt(&BV::from_u64(&ctx, 2, 64)));
    solver.assert(&x2.ast().bvult(&BV::from_u64(&ctx, 1, 64)));
    assert!(solver.check() == z3::SatResult::Sat);

    // now repeat with the same name but different functions
    let name = Name::Number(10);
    let otherfuncname = "bar".to_owned();
    let x1 = varmap.new_bv_with_name(funcname.clone(), name.clone(), 64).unwrap();
    let x2 = varmap.new_bv_with_name(otherfuncname.clone(), name.clone(), 64).unwrap();
    solver.assert(&x1.ast().bvugt(&BV::from_u64(&ctx, 2, 64)));
    solver.assert(&x2.ast().bvult(&BV::from_u64(&ctx, 1, 64)));
    assert!(solver.check() == z3::SatResult::Sat);
}

#[test]
fn enforces_max_version() {
    let ctx = z3::Context::new(&z3::Config::new());

    // Create a `VarMap` with a ceiling of 10 versions
    let mut varmap = VarMap::new(&ctx, 10);

    // Check that we can create 10 versions of the same `Name`
    let funcname = "foo".to_owned();
    let name = Name::Number(7);
    for _ in 0..10 {
        let bv = varmap.new_bv_with_name(funcname.clone(), name.clone(), 64);
        assert!(bv.is_ok());
    }

    // Check that we can create another 10 versions of that `Name` in a different function
    let funcname2 = "bar".to_owned();
    for _ in 0..10 {
        let bv = varmap.new_bv_with_name(funcname2.clone(), name.clone(), 64);
        assert!(bv.is_ok());
    }

    // Check that we can't create an 11th version of that `Name`
    let bv = varmap.new_bv_with_name(funcname, name, 64);
    assert!(bv.is_err());
}

#[test]
fn version_limit_error_carries_the_message() {
    let ctx = z3::Context::new(&z3::Config::new());
    let mut varmap = VarMap::new(&ctx, 1);
    let funcname = "f".to_owned();
    let name = Name::Name("x".to_owned());
    assert!(varmap.new_bool_with_name(funcname.clone(), name.clone()).is_ok());
    match varmap.new_bool_with_name(funcname.clone(), name.clone()) {
        Ok(_) => panic!("a second version was made under a ceiling of one"),
        Err(message) => {
            assert_eq!(message, "Exceeded maximum number of versions of that `Name`");
            assert_eq!(message, VERSION_LIMIT_MESSAGE);
        }
    }
    match varmap.new_bv_with_name(funcname.clone(), name.clone(), 8) {
        Ok(_) => panic!("a second version was made under a ceiling of one"),
        Err(message) => assert_eq!(message, VERSION_LIMIT_MESSAGE),
    };
}

#[test]
fn ceiling_of_zero_allows_no_version() {
    let ctx = z3::Context::new(&z3::Config::new());
    let mut varmap = VarMap::new(&ctx, 0);
    assert!(varmap.new_bv_with_name("f".to_owned(), Name::Number(0), 32).is_err());
    assert!(varmap.active_binding(&"f".to_owned(), &Name::Number(0)).is_none());
}

#[test]
fn failed_binding_changes_nothing() {
    let ctx = z3::Context::new(&z3::Config::new());
    let mut varmap = VarMap::new(&ctx, 2);
    let funcname = "f".to_owned();
    let name = Name::Name("x".to_owned());
    let _first = varmap.new_bv_with_name(funcname.clone(), name.clone(), 16).unwrap();
    let second = varmap.new_bv_with_name(funcname.clone(), name.clone(), 16).unwrap();
    assert!(varmap.new_bv_with_name(funcname.clone(), name.clone(), 16).is_err());
    assert!(varmap.new_bool_with_name(funcname.clone(), name.clone()).is_err());
    assert_eq!(varmap.lookup_bv_var(&funcname, &name).ast(), second.ast());
}

#[test]
fn symbols_follow_the_naming_scheme() {
    let ctx = z3::Context::new(&z3::Config::new());
    let mut varmap = VarMap::new(&ctx, 20);
    let funcname = "foo".to_owned();
    let x0 = varmap.new_bv_with_name(funcname.clone(), Name::Name("x".to_owned()), 64).unwrap();
    let x1 = varmap.new_bv_with_name(funcname.clone(), Name::Name("x".to_owned()), 64).unwrap();
    let n0 = varmap.new_bool_with_name(funcname.clone(), Name::Number(3)).unwrap();
    assert_eq!(x0.ast(), &BV::new_const(&ctx, "@foo_name_x_0", 64));
    assert_eq!(x1.ast(), &BV::new_const(&ctx, "@foo_name_x_1", 64));
    assert_eq!(n0.ast(), &z3::ast::Bool::new_const(&ctx, "@foo_%3_0"));
    assert_eq!(x0.ast().get_size(), 64);
    assert!(x0.ast() != x1.ast());
}

#[test]
fn versions_are_unique_and_the_second_is_active() {
    let ctx = z3::Context::new(&z3::Config::new());
    let mut varmap = VarMap::new(&ctx, 20);
    let funcname = "f".to_owned();
    let name = Name::Number(1);
    let first = varmap.new_bool_with_name(funcname.clone(), name.clone()).unwrap();
    let second = varmap.new_bool_with_name(funcname.clone(), name.clone()).unwrap();
    assert!(first.ast() != second.ast());
    assert_eq!(varmap.lookup_bool_var(&funcname, &name).ast(), second.ast());
}

#[test]
fn snapshot_and_restore_round_trip() {
    let ctx = z3::Context::new(&z3::Config::new());
    let mut varmap = VarMap::new(&ctx, 20);
    let f = "f".to_owned();
    let g = "g".to_owned();
    let a = Name::Name("a".to_owned());
    let b = Name::Number(5);
    let c = Name::Name("c".to_owned());
    let v1 = varmap.new_bv_with_name(f.clone(), a.clone(), 32).unwrap();
    let v2 = varmap.new_bool_with_name(f.clone(), b.clone()).unwrap();
    let other = varmap.new_bv_with_name(g.clone(), a.clone(), 32).unwrap();

    let rinfo = varmap.get_restore_info_for_fn(f.clone());

    let newer_a = varmap.new_bv_with_name(f.clone(), a.clone(), 32).unwrap();
    let newer_b = varmap.new_bool_with_name(f.clone(), b.clone()).unwrap();
    let newer_other = varmap.new_bv_with_name(g.clone(), a.clone(), 32).unwrap();
    let added = varmap.new_bv_with_name(f.clone(), c.clone(), 8).unwrap();
    assert_eq!(varmap.lookup_bv_var(&f, &a).ast(), newer_a.ast());
    assert_eq!(varmap.lookup_bool_var(&f, &b).ast(), newer_b.ast());

    varmap.restore_fn_vars(rinfo);

    assert_eq!(varmap.lookup_bv_var(&f, &a).ast(), v1.ast());
    assert_eq!(varmap.lookup_bool_var(&f, &b).ast(), v2.ast());
    // another function's variables and variables bound since are left alone
    assert_eq!(varmap.lookup_bv_var(&g, &a).ast(), newer_other.ast());
    assert!(varmap.lookup_bv_var(&g, &a).ast() != other.ast());
    assert_eq!(varmap.lookup_bv_var(&f, &c).ast(), added.ast());
    // the count of versions is not set back: the next version is a new one
    let next = varmap.new_bv_with_name(f.clone(), a.clone(), 32).unwrap();
    assert_eq!(next.ast(), &BV::new_const(&ctx, "@f_name_a_2", 32));
}

#[test]
fn snapshot_of_a_function_without_variables_restores_nothing() {
    let ctx = z3::Context::new(&z3::Config::new());
    let mut varmap = VarMap::new(&ctx, 20);
    let f = "f".to_owned();
    let a = Name::Name("a".to_owned());
    let v = varmap.new_bv_with_name(f.clone(), a.clone(), 32).unwrap();
    let rinfo = varmap.get_restore_info_for_fn("nobody".to_owned());
    varmap.restore_fn_vars(rinfo);
    assert_eq!(varmap.lookup_bv_var(&f, &a).ast(), v.ast());
}

#[test]
fn boolean_is_looked_up_as_one_bit_vector() {
    let ctx = z3::Context::new(&z3::Config::new());
    let mut varmap = VarMap::new(&ctx, 20);
    let f = "f".to_owned();
    let name = Name::Name("flag".to_owned());
    let flag = varmap.new_bool_with_name(f.clone(), name.clone()).unwrap();
    let as_bv = varmap.lookup_bv_var(&f, &name);
    assert_eq!(as_bv.ast().get_size(), 1);
    let expected = flag.ast().ite(&BV::from_u64(&ctx, 1, 1), &BV::from_u64(&ctx, 0, 1));
    assert_eq!(as_bv.ast(), &expected);

    // the bit-vector is 1 exactly if the boolean holds
    let solver = z3::Solver::new(&ctx);
    solver.assert(flag.ast());
    solver.assert(&as_bv.ast()._eq(&BV::from_u64(&ctx, 0, 1)));
    assert!(solver.check() == z3::SatResult::Unsat);
    let solver = z3::Solver::new(&ctx);
    solver.assert(&flag.ast().not());
    solver.assert(&as_bv.ast()._eq(&BV::from_u64(&ctx, 1, 1)));
    assert!(solver.check() == z3::SatResult::Unsat);
}

#[test]
fn one_bit_vector_is_looked_up_as_boolean() {
    let ctx = z3::Context::new(&z3::Config::new());
    let mut varmap = VarMap::new(&ctx, 20);
    let f = "f".to_owned();
    let name = Name::Number(9);
    let bit = varmap.new_bv_with_name(f.clone(), name.clone(), 1).unwrap();
    assert!(varmap.active_binding(&f, &name).unwrap().converts_to_bool());
    let as_bool = varmap.lookup_bool_var(&f, &name);
    assert_eq!(as_bool.ast(), &bit.ast()._eq(&BV::from_u64(&ctx, 1, 1)));

    // the boolean holds exactly if the bit is 1
    let solver = z3::Solver::new(&ctx);
    solver.assert(as_bool.ast());
    solver.assert(&bit.ast()._eq(&BV::from_u64(&ctx, 0, 1)));
    assert!(solver.check() == z3::SatResult::Unsat);
    let solver = z3::Solver::new(&ctx);
    solver.assert(&as_bool.ast().not());
    solver.assert(&bit.ast()._eq(&BV::from_u64(&ctx, 1, 1)));
    assert!(solver.check() == z3::SatResult::Unsat);
}

#[test]
fn wider_bit_vector_does_not_convert_to_boolean() {
    let ctx = z3::Context::new(&z3::Config::new());
    let mut varmap = VarMap::new(&ctx, 20);
    let f = "f".to_owned();
    let wide = Name::Name("wide".to_owned());
    let flag = Name::Name("flag".to_owned());
    varmap.new_bv_with_name(f.clone(), wide.clone(), 8).unwrap();
    varmap.new_bool_with_name(f.clone(), flag.clone()).unwrap();
    let binding = varmap.active_binding(&f, &wide).unwrap();
    assert!(binding.is_bv());
    assert!(!binding.is_bool());
    assert!(!binding.converts_to_bool());
    assert_eq!(binding.as_bv().ast().get_size(), 8);
    let binding = varmap.active_binding(&f, &flag).unwrap();
    assert!(binding.is_bool());
    assert!(binding.converts_to_bool());
    assert!(varmap.active_binding(&f, &Name::Number(0)).is_none());
    assert!(varmap.active_binding(&"g".to_owned(), &wide).is_none());
}

#[test]
fn snapshot_can_be_restored_into_the_map_it_came_from() {
    let ctx = z3::Context::new(&z3::Config::new());
    let mut varmap = VarMap::new(&ctx, 20);
    let f = "f".to_owned();
    varmap.new_bv_with_name(f.clone(), Name::Number(1), 8).unwrap();
    let rinfo = varmap.get_restore_info_for_fn(f.clone());
    assert!(varmap.can_restore(&rinfo));
    varmap.new_bv_with_name(f.clone(), Name::Number(1), 8).unwrap();
    varmap.new_bv_with_name(f.clone(), Name::Number(2), 8).unwrap();
    assert!(varmap.can_restore(&rinfo));
    let copy = rinfo.clone();
    varmap.restore_fn_vars(rinfo);
    assert!(varmap.can_restore(&copy));
}

#[test]
fn snapshot_that_names_an_unknown_variable_cannot_be_restored() {
    let ctx = z3::Context::new(&z3::Config::new());
    let mut source = VarMap::new(&ctx, 20);
    let mut target = VarMap::new(&ctx, 20);
    let f = "f".to_owned();
    source.new_bv_with_name(f.clone(), Name::Number(1), 8).unwrap();
    source.new_bv_with_name(f.clone(), Name::Number(2), 8).unwrap();
    target.new_bv_with_name(f.clone(), Name::Number(1), 8).unwrap();
    let rinfo = source.get_restore_info_for_fn(f.clone());
    assert!(!target.can_restore(&rinfo));
    // once the map knows the variable, the snapshot can be restored
    target.new_bv_with_name(f.clone(), Name::Number(2), 8).unwrap();
    assert!(target.can_restore(&rinfo));
    // a snapshot of a function without variables names nothing
    let nothing = source.get_restore_info_for_fn("g".to_owned());
    assert!(target.can_restore(&nothing));
}

#[test]
fn snapshot_of_another_context_cannot_be_restored() {
    let ctx = z3::Context::new(&z3::Config::new());
    let other_ctx = z3::Context::new(&z3::Config::new());
    let mut varmap = VarMap::new(&ctx, 20);
    let mut elsewhere = VarMap::new(&other_ctx, 20);
    let f = "f".to_owned();
    varmap.new_bv_with_name(f.clone(), Name::Number(1), 8).unwrap();
    elsewhere.new_bv_with_name(f.clone(), Name::Number(1), 8).unwrap();
    let rinfo = elsewhere.get_restore_info_for_fn(f.clone());
    assert!(!varmap.can_restore(&rinfo));
    assert!(elsewhere.can_restore(&rinfo));
}

#[test]
fn bindings_describe_themselves() {
    let ctx = z3::Context::new(&z3::Config::new());
    let mut varmap = VarMap::new(&ctx, 20);
    let f = "f".to_owned();
    let bv = varmap.new_bv_with_name(f.clone(), Name::Name("x".to_owned()), 8).unwrap();
    let flag = varmap.new_bool_with_name(f.clone(), Name::Name("b".to_owned())).unwrap();
    let described = varmap.active_binding(&f, &Name::Name("x".to_owned())).unwrap().describe();
    assert_eq!(described, format!("BV( {} )", bv.ast()));
    let described = varmap.active_binding(&f, &Name::Name("b".to_owned())).unwrap().describe();
    assert_eq!(described, format!("Bool( {} )", flag.ast()));
}

#[test]
fn cloned_map_goes_its_own_way() {
    let ctx = z3::Context::new(&z3::Config::new());
    let mut varmap = VarMap::new(&ctx, 2);
    let f = "f".to_owned();
    let name = Name::Number(1);
    let first = varmap.new_bv_with_name(f.clone(), name.clone(), 8).unwrap();
    let mut copy = varmap.clone();
    let second = varmap.new_bv_with_name(f.clone(), name.clone(), 8).unwrap();
    assert_eq!(copy.lookup_bv_var(&f, &name).ast(), first.ast());
    assert_eq!(varmap.lookup_bv_var(&f, &name).ast(), second.ast());
    // the copy counts its versions by itself
    assert!(varmap.new_bv_with_name(f.clone(), name.clone(), 8).is_err());
    assert!(copy.new_bv_with_name(f.clone(), name.clone(), 8).is_ok());
    assert!(copy.new_bv_with_name(f.clone(), name.clone(), 8).is_err());
}

#[test]
fn bindings_convert_by_value() {
    let ctx = z3::Context::new(&z3::Config::new());
    let mut varmap = VarMap::new(&ctx, 20);
    let f = "f".to_owned();
    let x = Name::Name("x".to_owned());
    let b = Name::Name("b".to_owned());
    let bv = varmap.new_bv_with_name(f.clone(), x.clone(), 8).unwrap();
    let flag = varmap.new_bool_with_name(f.clone(), b.clone()).unwrap();

    let binding = varmap.active_binding(&f, &x).unwrap().clone();
    assert_eq!(binding.clone().into_bv().ast(), bv.ast());
    assert_eq!(binding.to_bv(&ctx).ast(), bv.ast());

    let binding = varmap.active_binding(&f, &b).unwrap().clone();
    assert_eq!(binding.as_bool().ast(), flag.ast());
    assert_eq!(binding.clone().into_bool().ast(), flag.ast());
    assert_eq!(binding.clone().to_bool(&ctx).ast(), flag.ast());
    assert_eq!(binding.to_bv(&ctx).ast().get_size(), 1);

    let from_bv = haybale::binding::BVorBool::from(bv.clone());
    assert!(from_bv.is_bv());
    assert_eq!(from_bv.as_bv().ast(), bv.ast());
    let from_bool = haybale::binding::BVorBool::from(flag.clone());
    assert!(from_bool.is_bool());
    assert_eq!(from_bool.as_bool().ast(), flag.ast());
}

#[test]
fn variables_of_different_functions_never_share_a_constant() {
    let ctx = z3::Context::new(&z3::Config::new());
    let mut varmap = VarMap::new(&ctx, 20);
    let first = varmap
        .new_bv_with_name("f".to_owned(), Name::Name("x_name_y".to_owned()), 8)
        .unwrap();
    let second = varmap
        .new_bv_with_name("f_name_x".to_owned(), Name::Name("y".to_owned()), 8)
        .unwrap();
    assert!(first.ast() != second.ast());
    assert_eq!(first.ast(), &BV::new_const(&ctx, "@f_name_x_name_y_0", 8));
    assert_eq!(second.ast(), &BV::new_const(&ctx, "@f~uname~ux_name_y_0", 8));

    // a textual name that reads like a number is not the number
    let text = varmap.new_bv_with_name("f".to_owned(), Name::Name("3".to_owned()), 8).unwrap();
    let number = varmap.new_bv_with_name("f".to_owned(), Name::Number(3), 8).unwrap();
    assert!(text.ast() != number.ast());
}

#[test]
fn symbolic_values_are_equal_if_they_are_the_same_term() {
    let ctx = z3::Context::new(&z3::Config::new());
    let other_ctx = z3::Context::new(&z3::Config::new());
    let mut varmap = VarMap::new(&ctx, 20);
    let mut elsewhere = VarMap::new(&other_ctx, 20);
    let f = "f".to_owned();
    let x = Name::Name("x".to_owned());
    let b = Name::Name("b".to_owned());
    let first = varmap.new_bv_with_name(f.clone(), x.clone(), 8).unwrap();
    let second = varmap.new_bv_with_name(f.clone(), x.clone(), 8).unwrap();
    let flag = varmap.new_bool_with_name(f.clone(), b.clone()).unwrap();
    let foreign = elsewhere.new_bv_with_name(f.clone(), x.clone(), 8).unwrap();
    let foreign_flag = elsewhere.new_bool_with_name(f.clone(), b.clone()).unwrap();

    assert!(first == first.clone());
    assert!(first != second);
    assert!(varmap.lookup_bv_var(&f, &x) == second);
    assert!(flag == flag.clone());
    assert!(varmap.lookup_bool_var(&f, &b) == flag);
    // the same constant of another context is another value
    assert!(first != foreign);
    assert!(flag != foreign_flag);

    let bound = varmap.active_binding(&f, &x).unwrap();
    let bound_flag = varmap.active_binding(&f, &b).unwrap();
    assert!(*bound == haybale::binding::BVorBool::from(second.clone()));
    assert!(*bound != haybale::binding::BVorBool::from(first.clone()));
    assert!(*bound != *bound_flag);
    assert!(*bound_flag == haybale::binding::BVorBool::from(flag.clone()));
}

#[test]
fn snapshots_are_equal_if_they_hold_the_same_versions() {
    let ctx = z3::Context::new(&z3::Config::new());
    let mut varmap = VarMap::new(&ctx, 20);
    let f = "f".to_owned();
    let g = "g".to_owned();
    varmap.new_bv_with_name(f.clone(), Name::Number(1), 8).unwrap();
    varmap.new_bool_with_name(f.clone(), Name::Number(2)).unwrap();
    let before = varmap.get_restore_info_for_fn(f.clone());
    assert!(before == before.clone());
    assert!(before == varmap.get_restore_info_for_fn(f.clone()));
    assert!(before != varmap.get_restore_info_for_fn(g.clone()));
    assert!(varmap.get_restore_info_for_fn(g.clone()) == varmap.get_restore_info_for_fn(g));

    varmap.new_bv_with_name(f.clone(), Name::Number(1), 8).unwrap();
    let after = varmap.get_restore_info_for_fn(f.clone());
    assert!(before != after);
    varmap.restore_fn_vars(before.clone());
    assert!(before == varmap.get_restore_info_for_fn(f.clone()));

    varmap.new_bv_with_name(f.clone(), Name::Number(3), 8).unwrap();
    assert!(before != varmap.get_restore_info_for_fn(f));
}

#[test]
fn can_bind_tells_whether_a_version_is_left() {
    let ctx = z3::Context::new(&z3::Config::new());
    let mut varmap = VarMap::new(&ctx, 2);
    let f = "f".to_owned();
    let g = "g".to_owned();
    let x = Name::Name("x".to_owned());
    assert!(varmap.can_bind(&f, &x));
    varmap.new_bv_with_name(f.clone(), x.clone(), 8).unwrap();
    assert!(varmap.can_bind(&f, &x));
    varmap.new_bool_with_name(f.clone(), x.clone()).unwrap();
    assert!(!varmap.can_bind(&f, &x));
    // other names and other functions have their own budget
    assert!(varmap.can_bind(&f, &Name::Number(0)));
    assert!(varmap.can_bind(&g, &x));
    assert!(varmap.new_bv_with_name(f.clone(), x.clone(), 8).is_err());
    assert!(!varmap.can_bind(&f, &x));

    let none = VarMap::new(&ctx, 0);
    assert!(!none.can_bind(&f, &x));
}

#[test]
fn used_up_budget_is_reported_whatever_the_width_and_the_names() {
    let ctx = z3::Context::new(&z3::Config::new());
    let mut varmap = VarMap::new(&ctx, 1);
    let f = "f\0".to_owned();
    let x = Name::Name("x".to_owned());
    let plain = "f".to_owned();
    let bound = varmap.new_bv_with_name(plain.clone(), x.clone(), 8).unwrap();

    // no version is left: the error comes back and the solver is not asked
    assert_eq!(varmap.new_bv_with_name(plain.clone(), x.clone(), 0).err(), Some(VERSION_LIMIT_MESSAGE));
    assert_eq!(
        varmap.new_bv_with_name(plain.clone(), x.clone(), u32::MAX).err(),
        Some(VERSION_LIMIT_MESSAGE)
    );
    assert!(varmap.lookup_bv_var(&plain, &x) == bound);

    let mut none = VarMap::new(&ctx, 0);
    assert_eq!(none.new_bv_with_name(f.clone(), x.clone(), 0).err(), Some(VERSION_LIMIT_MESSAGE));
    assert_eq!(
        none.new_bool_with_name(f.clone(), Name::Name("\0".to_owned())).err(),
        Some(VERSION_LIMIT_MESSAGE)
    );
    assert!(none.active_binding(&f, &x).is_none());
}

#[test]
fn widest_bit_vector_can_be_named() {
    assert_eq!(haybale::symbolic::MAX_WIDTH, 1 << 23);
    let ctx = z3::Context::new(&z3::Config::new());
    let mut varmap = VarMap::new(&ctx, 2);
    let wide = varmap.new_bv_with_name("f".to_owned(), Name::Number(0), 4096).unwrap();
    assert_eq!(wide.ast().get_size(), 4096);
    let widest = varmap
        .new_bv_with_name("f".to_owned(), Name::Number(1), haybale::symbolic::MAX_WIDTH)
        .unwrap();
    assert_eq!(widest.ast().get_size(), 1 << 23);
}
