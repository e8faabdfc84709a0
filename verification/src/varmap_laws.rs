//! What holds of every map of variables.
//!
//! The laws are stated over [`VarMapView`], the maps that a map of
//! variables stands for: the operations of
//! [`VarMap`](crate::varmap::VarMap) are specified by the functions of
//! that view.

use crate::name::NameView;
use crate::symbol::{
    lemma_symbols_are_unique, lemma_symbols_distinct_within_function, versioned_symbol,
};
use crate::term::Term;
use crate::varmap::{VarKey, VarMapView};
use vstd::prelude::*;

verus! {

/// The map after one version after another was made of the local value
/// `key`, bound to the terms of `terms` in their order.
pub open spec fn bind_all(view: VarMapView, key: VarKey, terms: Seq<Term>) -> VarMapView
    decreases terms.len(),
{
    if terms.len() == 0 {
        view
    } else {
        bind_all(view, key, terms.drop_last()).bind(key, terms.last())
    }
}

/// Making versions of one local value counts against that local value
/// alone. While the ceiling is not reached the count goes up by one with
/// each version; the counts of all other local values, of the same
/// function or of another, stay as they are.
pub proof fn law_versions_are_counted_per_name(
    view: VarMapView,
    key: VarKey,
    terms: Seq<Term>,
    other: VarKey,
)
    requires
        view.created(key) + terms.len() <= view.max_versions,
        other != key,
    ensures
        bind_all(view, key, terms).max_versions == view.max_versions,
        bind_all(view, key, terms).created(key) == view.created(key) + terms.len(),
        bind_all(view, key, terms).created(other) == view.created(other),
        bind_all(view, key, terms).can_bind(other) == view.can_bind(other),
    decreases terms.len(),
{
    if terms.len() > 0 {
        law_versions_are_counted_per_name(view, key, terms.drop_last(), other);
    }
}

/// With a ceiling of N, the first N versions of a local value can be made
/// and the next one cannot; and after them a local value of the same name
/// in another function can still have its own N versions.
pub proof fn law_version_ceiling(
    view: VarMapView,
    key: VarKey,
    terms: Seq<Term>,
    made: int,
    other: VarKey,
)
    requires
        view.created(key) == 0,
        terms.len() == view.max_versions,
        0 <= made <= terms.len(),
        other != key,
    ensures
        made < terms.len() ==> bind_all(view, key, terms.take(made)).can_bind(key),
        !bind_all(view, key, terms).can_bind(key),
        bind_all(view, key, terms).created(other) == view.created(other),
        bind_all(view, key, terms).can_bind(other) == view.can_bind(other),
{
    law_versions_are_counted_per_name(view, key, terms.take(made), other);
    law_versions_are_counted_per_name(view, key, terms, other);
}

/// The map after the calls of `calls`, in their order, each of which asks
/// for a new version of a local value.
pub open spec fn after_attempts(view: VarMapView, calls: Seq<(VarKey, Term)>) -> VarMapView
    decreases calls.len(),
{
    if calls.len() == 0 {
        view
    } else {
        after_attempts(view, calls.drop_last()).attempt(calls.last().0, calls.last().1)
    }
}

/// How many of the calls of `calls` ask for a new version of the local
/// value `key`.
pub open spec fn attempts_for(calls: Seq<(VarKey, Term)>, key: VarKey) -> nat
    decreases calls.len(),
{
    if calls.len() == 0 {
        0
    } else if calls.last().0 == key {
        attempts_for(calls.drop_last(), key) + 1
    } else {
        attempts_for(calls.drop_last(), key)
    }
}

/// Over any history of calls, for whatever local values of whatever
/// functions: the next call for a local value makes a version exactly if
/// fewer calls were made for that local value than the ceiling leaves
/// room for. The calls for other local values make no difference, a call
/// that fails makes none, and once a call for a local value has failed
/// every later one fails.
pub proof fn law_ceiling_over_any_history(
    view: VarMapView,
    calls: Seq<(VarKey, Term)>,
    key: VarKey,
)
    requires
        view.created(key) <= view.max_versions,
    ensures
        after_attempts(view, calls).max_versions == view.max_versions,
        after_attempts(view, calls).created(key) == (if view.created(key) + attempts_for(
            calls,
            key,
        ) <= view.max_versions {
            view.created(key) + attempts_for(calls, key)
        } else {
            view.max_versions as nat
        }),
        after_attempts(view, calls).can_bind(key) <==> view.created(key) + attempts_for(calls, key)
            < view.max_versions,
        after_attempts(view, calls).can_bind(key) ==> after_attempts(view, calls).next_symbol(key)
            == versioned_symbol(key.0, key.1, view.created(key) + attempts_for(calls, key)),
    decreases calls.len(),
{
    if calls.len() > 0 {
        law_ceiling_over_any_history(view, calls.drop_last(), key);
    }
}

/// The symbol of a new version differs from the symbol of the version
/// made before it for the same local value.
pub proof fn law_next_symbol_is_new(view: VarMapView, key: VarKey, term: Term)
    requires
        view.can_bind(key),
    ensures
        view.bind(key, term).next_symbol(key) != view.next_symbol(key),
{
    if view.bind(key, term).next_symbol(key) == view.next_symbol(key) {
        lemma_symbols_distinct_within_function(
            key.0,
            key.1,
            view.bind(key, term).created(key),
            key.1,
            view.created(key),
        );
    }
}

/// A symbol names one version of one local value of one function: where
/// the next versions of two local values have the same symbol, the two
/// are the same local value of the same function, with the same number of
/// versions made. So the solver constants of different functions, of
/// different local values and of different versions are all different.
pub proof fn law_symbols_are_globally_unique(
    view_a: VarMapView,
    key_a: VarKey,
    view_b: VarMapView,
    key_b: VarKey,
)
    requires
        view_a.next_symbol(key_a) == view_b.next_symbol(key_b),
    ensures
        key_a == key_b,
        view_a.created(key_a) == view_b.created(key_b),
{
    lemma_symbols_are_unique(
        key_a.0,
        key_a.1,
        view_a.created(key_a),
        key_b.0,
        key_b.1,
        view_b.created(key_b),
    );
}

/// Two bit-vectors made one after the other for the same local value are
/// different, and after both the second one is the active version.
pub proof fn law_bitvector_versions_are_unique(
    view: VarMapView,
    key: VarKey,
    first_bits: u32,
    second_bits: u32,
)
    requires
        view.can_bind(key),
    ensures
        view.bind_bv(key, first_bits).next_bv(key, second_bits) != view.next_bv(key, first_bits),
        view.bind_bv(key, first_bits).bind_bv(key, second_bits).active[key].to_bv()
            == view.bind_bv(key, first_bits).next_bv(key, second_bits),
{
    law_next_symbol_is_new(view, key, Term::BV(view.next_bv(key, first_bits)));
}

/// Two booleans made one after the other for the same local value are
/// different, and after both the second one is the active version.
pub proof fn law_boolean_versions_are_unique(view: VarMapView, key: VarKey)
    requires
        view.can_bind(key),
    ensures
        view.bind_bool(key).next_bool(key) != view.next_bool(key),
        view.bind_bool(key).bind_bool(key).active[key].to_bool() == view.bind_bool(
            key,
        ).next_bool(key),
{
    law_next_symbol_is_new(view, key, Term::Bool(view.next_bool(key)));
}

/// What was captured from a map can be restored into it, and still can
/// after any number of new versions were made.
pub proof fn law_snapshots_stay_restorable(
    before: VarMapView,
    funcname: Seq<char>,
    later: VarMapView,
    key: VarKey,
    term: Term,
)
    requires
        later.restorable(funcname, before.snapshot(funcname)),
    ensures
        before.restorable(funcname, before.snapshot(funcname)),
        later.bind(key, term).restorable(funcname, before.snapshot(funcname)),
{
}

/// Restoring a snapshot of a function brings back, for each local value
/// that the function had when the snapshot was taken, the version that
/// was active then, whatever versions were made since. The local values
/// of other functions, those that the function got since, and the counts
/// of versions stay as they are.
pub proof fn law_snapshot_restore_round_trip(
    before: VarMapView,
    later: VarMapView,
    funcname: Seq<char>,
    name: NameView,
    elsewhere: VarKey,
)
    requires
        later.restorable(funcname, before.snapshot(funcname)),
    ensures
        before.active.contains_key((funcname, name)) ==> later.restore(
            funcname,
            before.snapshot(funcname),
        ).active.contains_key((funcname, name)) && later.restore(
            funcname,
            before.snapshot(funcname),
        ).active[(funcname, name)] == before.active[(funcname, name)],
        later.active.contains_key(elsewhere) && !before.active.contains_key(elsewhere)
            ==> later.restore(funcname, before.snapshot(funcname)).active[elsewhere]
            == later.active[elsewhere],
        later.active.contains_key(elsewhere) && elsewhere.0 != funcname ==> later.restore(
            funcname,
            before.snapshot(funcname),
        ).active[elsewhere] == later.active[elsewhere],
        later.restore(funcname, before.snapshot(funcname)).versions == later.versions,
        later.restore(funcname, before.snapshot(funcname)).active.dom() == later.active.dom(),
{
    let restored = later.restore(funcname, before.snapshot(funcname));
    assert(before.active.contains_key((funcname, name)) ==> before.snapshot(
        funcname,
    ).contains_key(name));
    assert(restored.active.dom() =~= later.active.dom());
}

/// A function has the local values `a` and `b`. A snapshot is taken, new
/// versions of `a` and `b` are made, and the snapshot is restored: then
/// `a` and `b` have the versions again that they had when the snapshot
/// was taken, not the newer ones.
pub proof fn law_restore_undoes_new_versions(
    view: VarMapView,
    funcname: Seq<char>,
    a: NameView,
    new_a: Term,
    b: NameView,
    new_b: Term,
)
    requires
        view.active.contains_key((funcname, a)),
        view.active.contains_key((funcname, b)),
    ensures
        view.bind((funcname, a), new_a).bind((funcname, b), new_b).restorable(
            funcname,
            view.snapshot(funcname),
        ),
        view.bind((funcname, a), new_a).bind((funcname, b), new_b).restore(
            funcname,
            view.snapshot(funcname),
        ).active[(funcname, a)] == view.active[(funcname, a)],
        view.bind((funcname, a), new_a).bind((funcname, b), new_b).restore(
            funcname,
            view.snapshot(funcname),
        ).active[(funcname, b)] == view.active[(funcname, b)],
{
    let after_a = view.bind((funcname, a), new_a);
    let later = after_a.bind((funcname, b), new_b);
    law_snapshots_stay_restorable(view, funcname, view, (funcname, a), new_a);
    law_snapshots_stay_restorable(view, funcname, after_a, (funcname, b), new_b);
    law_snapshot_restore_round_trip(view, later, funcname, a, (funcname, a));
    law_snapshot_restore_round_trip(view, later, funcname, b, (funcname, b));
}

} // verus!
