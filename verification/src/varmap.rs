//! The map of variables: which symbolic value is the active version of
//! which local value of which function.
//!
//! A local value can be bound many times: in a loop, or in a recursive
//! call. Each binding makes a new version, a solver constant of its own.
//! The map knows the active version of each local value and counts the
//! versions made, up to a ceiling that bounds how far loops and recursion
//! are unrolled.

use crate::binding::{same_value, BVorBool};
use crate::double_keyed_map::DoubleKeyedMap;
use crate::name::{Name, NameView};
use crate::symbol::{
    lemma_symbol_nul_free, name_nul_free, nul_free, versioned_symbol, versioned_symbol_name,
};
use crate::symbolic::{same_context, SymbolicBV, SymbolicBool, MAX_WIDTH};
use crate::table::{
    entries_map, lemma_entry_in_map, lemma_key_has_entry, lemma_take_ends, lemma_take_next, TableKey,
    VecMap,
};
use crate::term::{BoolTerm, BvTerm, Term};
use vstd::prelude::*;
use vstd::std_specs::cmp::PartialEqSpecImpl;

verus! {

/// A function's name and the name of one of its local values.
pub type VarKey = (Seq<char>, NameView);

/// The message of the error that says that a name has no version left.
pub const VERSION_LIMIT_MESSAGE: &'static str =
    "Exceeded maximum number of versions of that `Name`";

/// The function that sends a symbolic value to the term it denotes.
pub open spec fn term_of<'ctx>() -> spec_fn(BVorBool<'ctx>) -> Term {
    |value: BVorBool<'ctx>| value@
}

/// The entries of `map` that belong to the function `funcname`, by the
/// names of the local values.
pub open spec fn entries_of_function<V>(map: Map<VarKey, V>, funcname: Seq<char>) -> Map<
    NameView,
    V,
> {
    Map::new(
        |name: NameView| map.contains_key((funcname, name)),
        |name: NameView| map[(funcname, name)],
    )
}

/// `map` with the entries of the function `funcname` that `pairs` names
/// set to what `pairs` holds for them. No entry is added.
pub open spec fn with_entries_of_function<V>(
    map: Map<VarKey, V>,
    funcname: Seq<char>,
    pairs: Map<NameView, V>,
) -> Map<VarKey, V> {
    Map::new(
        |key: VarKey| map.contains_key(key),
        |key: VarKey|
            if key.0 == funcname && pairs.contains_key(key.1) {
                pairs[key.1]
            } else {
                map[key]
            },
    )
}

/// What a map of variables holds, as maps.
pub ghost struct VarMapView {
    /// The term of the active version of each local value that was ever
    /// bound.
    pub active: Map<VarKey, Term>,
    /// The number of versions made of each local value that was ever
    /// bound.
    pub versions: Map<VarKey, usize>,
    /// The ceiling: how many versions a local value may have.
    pub max_versions: usize,
}

impl VarMapView {
    /// The map that holds nothing, with the ceiling `max_versions`.
    pub open spec fn empty(max_versions: usize) -> Self {
        VarMapView { active: Map::empty(), versions: Map::empty(), max_versions }
    }

    /// The number of versions made so far of the local value `key`.
    pub open spec fn created(self, key: VarKey) -> nat {
        if self.versions.contains_key(key) {
            self.versions[key] as nat
        } else {
            0
        }
    }

    /// Whether a further version of the local value `key` can be made:
    /// whether fewer versions were made than the ceiling allows.
    pub open spec fn can_bind(self, key: VarKey) -> bool {
        self.created(key) < self.max_versions
    }

    /// The symbol of the next version of the local value `key`. Versions
    /// are numbered from 0.
    pub open spec fn next_symbol(self, key: VarKey) -> Seq<char> {
        versioned_symbol(key.0, key.1, self.created(key))
    }

    /// The map after a new version of the local value `key` was made and
    /// bound to `term`.
    pub open spec fn bind(self, key: VarKey, term: Term) -> Self {
        VarMapView {
            active: self.active.insert(key, term),
            versions: self.versions.insert(key, (self.created(key) + 1) as usize),
            ..self
        }
    }

    /// The map after a call that asks for a new version of the local value
    /// `key`, which would be bound to `term`: the version is made if the
    /// ceiling allows it, else the map stays as it is.
    pub open spec fn attempt(self, key: VarKey, term: Term) -> Self {
        if self.can_bind(key) {
            self.bind(key, term)
        } else {
            self
        }
    }

    /// The bit-vector constant of `bits` bits that the next version of the
    /// local value `key` is.
    pub open spec fn next_bv(self, key: VarKey, bits: u32) -> BvTerm {
        BvTerm::Const { symbol: self.next_symbol(key), bits }
    }

    /// The boolean constant that the next version of the local value `key`
    /// is.
    pub open spec fn next_bool(self, key: VarKey) -> BoolTerm {
        BoolTerm::Const { symbol: self.next_symbol(key) }
    }

    /// The map after a new bit-vector of `bits` bits was made for the
    /// local value `key`.
    pub open spec fn bind_bv(self, key: VarKey, bits: u32) -> Self {
        self.bind(key, Term::BV(self.next_bv(key, bits)))
    }

    /// The map after a new boolean was made for the local value `key`.
    pub open spec fn bind_bool(self, key: VarKey) -> Self {
        self.bind(key, Term::Bool(self.next_bool(key)))
    }

    /// The active versions of the local values of the function `funcname`.
    pub open spec fn snapshot(self, funcname: Seq<char>) -> Map<NameView, Term> {
        entries_of_function(self.active, funcname)
    }

    /// Whether every local value that `pairs` names has an active version
    /// in the function `funcname`.
    pub open spec fn restorable(self, funcname: Seq<char>, pairs: Map<NameView, Term>) -> bool {
        forall|name: NameView| #[trigger]
            pairs.contains_key(name) ==> self.active.contains_key((funcname, name))
    }

    /// The map after the local values of the function `funcname` that
    /// `pairs` names were set back to the versions that `pairs` holds. The
    /// count of versions stays as it is.
    pub open spec fn restore(self, funcname: Seq<char>, pairs: Map<NameView, Term>) -> Self {
        VarMapView { active: with_entries_of_function(self.active, funcname, pairs), ..self }
    }

    /// A local value has an active version exactly if a version of it was
    /// made, and no more versions were made of it than the ceiling allows.
    pub open spec fn consistent(self) -> bool {
        &&& self.active.dom() == self.versions.dom()
        &&& forall|key: VarKey| #[trigger]
            self.versions.contains_key(key) ==> 1 <= self.versions[key] <= self.max_versions
    }
}

/// The active versions of the local values of one function at one moment:
/// what [`VarMap::restore_fn_vars`] needs to make them active again.
pub struct RestoreInfo<'ctx> {
    funcname: String,
    pairs_to_restore: VecMap<Name, BVorBool<'ctx>>,
    ctx: &'ctx z3::Context,
}

impl<'ctx> Clone for RestoreInfo<'ctx> {
    /// A snapshot of the same function that holds the same versions.
    fn clone(&self) -> (copy: Self)
        ensures
            copy.funcname() == self.funcname(),
            copy.captured() == self.captured(),
            copy.values() == self.values(),
            copy.pairs() == self.pairs(),
            copy.context() == self.context(),
            self.wf() ==> copy.wf(),
    {
        RestoreInfo {
            funcname: self.funcname.clone(),
            pairs_to_restore: self.pairs_to_restore.clone(),
            ctx: self.ctx,
        }
    }
}

impl<'ctx> PartialEq for RestoreInfo<'ctx> {
    /// Two snapshots are equal if they are of the same function and hold
    /// the same versions of the same local values in the same order.
    fn eq(&self, other: &Self) -> (equal: bool) {
        if !(self.funcname == other.funcname) {
            return false;
        }
        let n = self.pairs_to_restore.len();
        if n != other.pairs_to_restore.len() {
            return false;
        }
        let mut i: usize = 0;
        while i < n
            invariant
                i <= n,
                n == self.captured().len(),
                n == other.captured().len(),
                forall|j: int|
                    0 <= j < i ==> (#[trigger] self.captured()[j]).0@ == other.captured()[j].0@
                        && same_value(self.captured()[j].1, other.captured()[j].1),
            decreases n - i,
        {
            let same_name = self.pairs_to_restore.key_at(i).same_key(
                other.pairs_to_restore.key_at(i),
            );
            let same = *self.pairs_to_restore.value_at(i) == *other.pairs_to_restore.value_at(i);
            if !same_name || !same {
                return false;
            }
            i += 1;
        }
        true
    }
}

impl<'ctx> Eq for RestoreInfo<'ctx> {

}

impl<'ctx> PartialEqSpecImpl for RestoreInfo<'ctx> {
    open spec fn obeys_eq_spec() -> bool {
        true
    }

    open spec fn eq_spec(&self, other: &Self) -> bool {
        &&& self.funcname() == other.funcname()
        &&& self.captured().len() == other.captured().len()
        &&& forall|j: int|
            0 <= j < self.captured().len() ==> (#[trigger] self.captured()[j]).0@
                == other.captured()[j].0@ && same_value(
                self.captured()[j].1,
                other.captured()[j].1,
            )
    }
}

impl<'ctx> RestoreInfo<'ctx> {
    /// The captured local values and their versions, in the order in
    /// which they were captured.
    pub closed spec fn captured(&self) -> Seq<(Name, BVorBool<'ctx>)> {
        self.pairs_to_restore.entries()
    }

    /// The name of the function.
    pub closed spec fn funcname(&self) -> Seq<char> {
        self.funcname@
    }

    /// The captured version of each local value.
    pub closed spec fn values(&self) -> Map<NameView, BVorBool<'ctx>> {
        self.pairs_to_restore@
    }

    /// The term of the captured version of each local value.
    pub open spec fn pairs(&self) -> Map<NameView, Term> {
        self.values().map_values(term_of())
    }

    /// The context of the captured versions.
    pub closed spec fn context(&self) -> z3::Context {
        *self.ctx
    }

    /// No local value is captured twice, and all captured versions live in
    /// one context.
    pub closed spec fn wf(&self) -> bool {
        &&& self.pairs_to_restore.wf()
        &&& forall|name: NameView| #[trigger]
            self.pairs_to_restore@.contains_key(name) ==> self.pairs_to_restore@[name].context()
                == *self.ctx
    }
}

/// Maps the local values of functions to their active versions.
pub struct VarMap<'ctx> {
    ctx: &'ctx z3::Context,
    /// The active version of each local value, by the function's name and
    /// the local value's name. No two functions share a name.
    active_version: DoubleKeyedMap<String, Name, BVorBool<'ctx>>,
    /// The number of versions made of each local value. With recursion the
    /// active version need not be the latest: after a recursive call
    /// returns, the caller's versions are active again, though the
    /// callee's were made later.
    version_num: DoubleKeyedMap<String, Name, usize>,
    /// The most versions that any local value may have. Local values of
    /// the same name in different functions are counted apart.
    max_versions_of_name: usize,
}

impl<'ctx> Clone for VarMap<'ctx> {
    /// A map of the same context that holds the same versions and counts,
    /// and can go its own way from there.
    fn clone(&self) -> (copy: Self)
        ensures
            copy@ == self@,
            copy.bindings() == self.bindings(),
            copy.context() == self.context(),
            self.wf() ==> copy.wf(),
    {
        VarMap {
            ctx: self.ctx,
            active_version: self.active_version.clone(),
            version_num: self.version_num.clone(),
            max_versions_of_name: self.max_versions_of_name,
        }
    }
}

impl<'ctx> View for VarMap<'ctx> {
    type V = VarMapView;

    open spec fn view(&self) -> VarMapView {
        VarMapView {
            active: self.bindings().map_values(term_of()),
            versions: self.versions(),
            max_versions: self.max_versions(),
        }
    }
}

impl<'ctx> VarMap<'ctx> {
    /// The symbolic value that is the active version of each local value
    /// that was ever bound.
    pub closed spec fn bindings(&self) -> Map<VarKey, BVorBool<'ctx>> {
        self.active_version@
    }

    /// The number of versions made of each local value that was ever
    /// bound.
    pub closed spec fn versions(&self) -> Map<VarKey, usize> {
        self.version_num@
    }

    /// The ceiling: how many versions a local value may have.
    pub closed spec fn max_versions(&self) -> usize {
        self.max_versions_of_name
    }

    /// The context in which the map makes its symbolic values.
    pub closed spec fn context(&self) -> z3::Context {
        *self.ctx
    }

    /// The tables hold no key twice, every active version lives in the
    /// map's context, and the view is consistent.
    pub closed spec fn wf(&self) -> bool {
        &&& self.active_version.wf()
        &&& self.version_num.wf()
        &&& forall|key: VarKey| #[trigger]
            self.active_version@.contains_key(key) ==> self.active_version@[key].context()
                == *self.ctx
        &&& self@.consistent()
    }

    /// A map without variables, which makes its symbolic values in `ctx`.
    ///
    /// `max_versions_of_name` is the most versions that any local value
    /// may have. It bounds loops, very roughly. Local values of the same
    /// name in different functions are counted apart: each can have that
    /// many versions.
    pub fn new(ctx: &'ctx z3::Context, max_versions_of_name: usize) -> (varmap: Self)
        ensures
            varmap.wf(),
            varmap.context() == *ctx,
            varmap@ == VarMapView::empty(max_versions_of_name),
            varmap.bindings() == Map::<VarKey, BVorBool<'ctx>>::empty(),
    {
        let varmap = VarMap {
            ctx,
            active_version: DoubleKeyedMap::new(),
            version_num: DoubleKeyedMap::new(),
            max_versions_of_name,
        };
        assert(varmap@.active =~= Map::<VarKey, Term>::empty());
        assert(varmap@.active.dom() =~= varmap@.versions.dom());
        varmap
    }

    /// Counts a new version of the local value `name` of the function
    /// `funcname` and returns its symbol, or fails if the local value has
    /// as many versions as the ceiling allows.
    fn new_version_of_name(&mut self, funcname: &String, name: &Name) -> (symbol: Result<
        String,
        &'static str,
    >)
        requires
            old(self).version_num.wf(),
        ensures
            final(self).version_num.wf(),
            final(self).ctx == old(self).ctx,
            final(self).active_version == old(self).active_version,
            final(self).max_versions_of_name == old(self).max_versions_of_name,
            match symbol {
                Ok(symbol) => {
                    &&& old(self)@.can_bind((funcname@, name@))
                    &&& symbol@ == old(self)@.next_symbol((funcname@, name@))
                    &&& final(self).version_num@ == old(self).version_num@.insert(
                        (funcname@, name@),
                        (old(self)@.created((funcname@, name@)) + 1) as usize,
                    )
                },
                Err(message) => {
                    &&& !old(self)@.can_bind((funcname@, name@))
                    &&& message@ == VERSION_LIMIT_MESSAGE@
                    &&& final(self).version_num == old(self).version_num
                },
            },
    {
        let created: usize = match self.version_num.get(funcname, name) {
            Some(count) => *count,
            None => 0,
        };
        if created >= self.max_versions_of_name {
            return Err(VERSION_LIMIT_MESSAGE);
        }
        self.version_num.insert(funcname.clone(), name.clone(), created + 1);
        Ok(versioned_symbol_name(funcname.as_str(), name, created))
    }

    /// Says whether a further version of the local value `name` of the
    /// function `funcname` can be made: whether fewer versions were made
    /// of it than the ceiling allows.
    pub fn can_bind(&self, funcname: &String, name: &Name) -> (room: bool)
        requires
            self.wf(),
        ensures
            room == self@.can_bind((funcname@, name@)),
    {
        match self.version_num.get(funcname, name) {
            Some(count) => *count < self.max_versions_of_name,
            None => 0 < self.max_versions_of_name,
        }
    }

    /// Makes a new bit-vector of `bits` bits for the local value `name` of
    /// the function `funcname`, makes it the active version and returns
    /// it. Two calls for the same local value give two different
    /// bit-vectors.
    ///
    /// Fails, and changes nothing, if the local value has as many versions
    /// as the ceiling allows. Where a version can be made, the width is to
    /// be at least one bit and at most [`MAX_WIDTH`] bits, and the names
    /// are to hold no NUL character: the solver takes no other.
    pub fn new_bv_with_name(&mut self, funcname: String, name: Name, bits: u32) -> (made: Result<
        SymbolicBV<'ctx>,
        &'static str,
    >)
        requires
            old(self).wf(),
            old(self)@.can_bind((funcname@, name@)) ==> 0 < bits <= MAX_WIDTH && nul_free(funcname@)
                && name_nul_free(name@),
        ensures
            final(self).wf(),
            final(self).context() == old(self).context(),
            made is Ok <==> old(self)@.can_bind((funcname@, name@)),
            final(self)@ == old(self)@.attempt(
                (funcname@, name@),
                Term::BV(old(self)@.next_bv((funcname@, name@), bits)),
            ),
            match made {
                Ok(bv) => {
                    &&& old(self)@.can_bind((funcname@, name@))
                    &&& bv@ == old(self)@.next_bv((funcname@, name@), bits)
                    &&& bv.context() == old(self).context()
                    &&& final(self)@ == old(self)@.bind_bv((funcname@, name@), bits)
                    &&& final(self).bindings() == old(self).bindings().insert(
                        (funcname@, name@),
                        BVorBool::BV(bv),
                    )
                },
                Err(message) => {
                    &&& !old(self)@.can_bind((funcname@, name@))
                    &&& message@ == VERSION_LIMIT_MESSAGE@
                    &&& final(self)@ == old(self)@
                    &&& final(self).bindings() == old(self).bindings()
                },
            },
    {
        let ghost key = (funcname@, name@);
        match self.new_version_of_name(&funcname, &name) {
            Ok(symbol) => {
                proof {
                    lemma_symbol_nul_free(funcname@, name@, old(self)@.created(key));
                }
                let bv = SymbolicBV::new_const(self.ctx, symbol.as_str(), bits);
                self.active_version.insert(funcname, name, BVorBool::BV(bv.clone()));
                proof {
                    assert(final(self)@.active =~= old(self)@.active.insert(key, Term::BV(bv@)));
                    assert(final(self)@.active.dom() =~= final(self)@.versions.dom());
                }
                Ok(bv)
            },
            Err(message) => Err(message),
        }
    }

    /// Makes a new boolean for the local value `name` of the function
    /// `funcname`, makes it the active version and returns it. Two calls
    /// for the same local value give two different booleans.
    ///
    /// Fails, and changes nothing, if the local value has as many versions
    /// as the ceiling allows. Where a version can be made, the names are
    /// to hold no NUL character: the solver takes no other.
    pub fn new_bool_with_name(&mut self, funcname: String, name: Name) -> (made: Result<
        SymbolicBool<'ctx>,
        &'static str,
    >)
        requires
            old(self).wf(),
            old(self)@.can_bind((funcname@, name@)) ==> nul_free(funcname@) && name_nul_free(
                name@,
            ),
        ensures
            final(self).wf(),
            final(self).context() == old(self).context(),
            made is Ok <==> old(self)@.can_bind((funcname@, name@)),
            final(self)@ == old(self)@.attempt(
                (funcname@, name@),
                Term::Bool(old(self)@.next_bool((funcname@, name@))),
            ),
            match made {
                Ok(b) => {
                    &&& old(self)@.can_bind((funcname@, name@))
                    &&& b@ == old(self)@.next_bool((funcname@, name@))
                    &&& b.context() == old(self).context()
                    &&& final(self)@ == old(self)@.bind_bool((funcname@, name@))
                    &&& final(self).bindings() == old(self).bindings().insert(
                        (funcname@, name@),
                        BVorBool::Bool(b),
                    )
                },
                Err(message) => {
                    &&& !old(self)@.can_bind((funcname@, name@))
                    &&& message@ == VERSION_LIMIT_MESSAGE@
                    &&& final(self)@ == old(self)@
                    &&& final(self).bindings() == old(self).bindings()
                },
            },
    {
        let ghost key = (funcname@, name@);
        match self.new_version_of_name(&funcname, &name) {
            Ok(symbol) => {
                proof {
                    lemma_symbol_nul_free(funcname@, name@, old(self)@.created(key));
                }
                let b = SymbolicBool::new_const(self.ctx, symbol.as_str());
                self.active_version.insert(funcname, name, BVorBool::Bool(b.clone()));
                proof {
                    assert(final(self)@.active =~= old(self)@.active.insert(key, Term::Bool(b@)));
                    assert(final(self)@.active.dom() =~= final(self)@.versions.dom());
                }
                Ok(b)
            },
            Err(message) => Err(message),
        }
    }

    /// The active version of the local value `name` of the function
    /// `funcname`, if the local value was ever bound.
    pub fn active_binding(&self, funcname: &String, name: &Name) -> (binding: Option<
        &BVorBool<'ctx>,
    >)
        requires
            self.wf(),
        ensures
            match binding {
                Some(value) => {
                    &&& self@.active.contains_key((funcname@, name@))
                    &&& *value == self.bindings()[(funcname@, name@)]
                    &&& value@ == self@.active[(funcname@, name@)]
                    &&& value.context() == self.context()
                },
                None => !self@.active.contains_key((funcname@, name@)),
            },
    {
        self.active_version.get(funcname, name)
    }

    /// The active version of the local value `name` of the function
    /// `funcname`, as a bit-vector. A boolean is returned as the
    /// bit-vector of one bit that is 1 if it holds and 0 if it does not.
    ///
    /// The local value must have been bound.
    pub fn lookup_bv_var(&self, funcname: &String, name: &Name) -> (bv: SymbolicBV<'ctx>)
        requires
            self.wf(),
            self@.active.contains_key((funcname@, name@)),
        ensures
            bv@ == self@.active[(funcname@, name@)].to_bv(),
            bv.context() == self.context(),
            self.bindings()[(funcname@, name@)] matches BVorBool::BV(bound) ==> bv == bound,
    {
        match self.active_version.get(funcname, name) {
            Some(value) => value.clone().to_bv(self.ctx),
            None => unreached(),
        }
    }

    /// The active version of the local value `name` of the function
    /// `funcname`, as a boolean. A bit-vector of one bit is returned as
    /// the boolean that says that it is 1.
    ///
    /// The local value must have been bound, to a boolean or to a
    /// bit-vector of exactly one bit.
    pub fn lookup_bool_var(&self, funcname: &String, name: &Name) -> (b: SymbolicBool<'ctx>)
        requires
            self.wf(),
            self@.active.contains_key((funcname@, name@)),
            self@.active[(funcname@, name@)].converts_to_bool(),
        ensures
            b@ == self@.active[(funcname@, name@)].to_bool(),
            b.context() == self.context(),
            self.bindings()[(funcname@, name@)] matches BVorBool::Bool(bound) ==> b == bound,
    {
        match self.active_version.get(funcname, name) {
            Some(value) => value.clone().to_bool(self.ctx),
            None => unreached(),
        }
    }

    /// Captures the active versions of the local values of the function
    /// `funcname`, so that [`restore_fn_vars`](Self::restore_fn_vars) can
    /// make them active again.
    ///
    /// This supports recursion: capture before a recursive call, restore
    /// when the call has returned, and the caller sees its own versions of
    /// its local values again, not the callee's, which were made later.
    pub fn get_restore_info_for_fn(&self, funcname: String) -> (rinfo: RestoreInfo<'ctx>)
        requires
            self.wf(),
        ensures
            rinfo.wf(),
            rinfo.context() == self.context(),
            rinfo.funcname() == funcname@,
            rinfo.values() == entries_of_function(self.bindings(), funcname@),
            rinfo.pairs() == self@.snapshot(funcname@),
            self@.restorable(rinfo.funcname(), rinfo.pairs()),
    {
        let mut pairs_to_restore: VecMap<Name, BVorBool<'ctx>> = VecMap::new();
        let n = self.active_version.len();
        let ghost entries = self.active_version.entries();
        proof {
            lemma_take_ends(entries);
            assert(pairs_to_restore@ =~= entries_of_function(
                entries_map(entries.take(0)),
                funcname@,
            ));
        }
        let mut i: usize = 0;
        while i < n
            invariant
                i <= n,
                n == entries.len(),
                entries == self.active_version.entries(),
                self.wf(),
                pairs_to_restore.wf(),
                pairs_to_restore@ == entries_of_function(
                    entries_map(entries.take(i as int)),
                    funcname@,
                ),
            decreases n - i,
        {
            let keys = self.active_version.keys_at(i);
            proof {
                lemma_take_next(entries, i as int);
            }
            if keys.0.same_key(&funcname) {
                let value = self.active_version.value_at(i);
                pairs_to_restore.insert(keys.1.clone(), value.clone());
                assert(pairs_to_restore@ =~= entries_of_function(
                    entries_map(entries.take(i + 1)),
                    funcname@,
                ));
            } else {
                assert(pairs_to_restore@ =~= entries_of_function(
                    entries_map(entries.take(i + 1)),
                    funcname@,
                ));
            }
            i += 1;
        }
        let rinfo = RestoreInfo { funcname, pairs_to_restore, ctx: self.ctx };
        proof {
            lemma_take_ends(entries);
            assert(rinfo.pairs() =~= self@.snapshot(rinfo.funcname()));
        }
        rinfo
    }

    /// Says whether `rinfo` can be restored into this map: whether it was
    /// captured in the map's context and every local value that it names
    /// has an active version. This is what
    /// [`restore_fn_vars`](Self::restore_fn_vars) asks for.
    pub fn can_restore(&self, rinfo: &RestoreInfo<'ctx>) -> (ok: bool)
        requires
            self.wf(),
            rinfo.wf(),
        ensures
            ok == (rinfo.context() == self.context() && self@.restorable(
                rinfo.funcname(),
                rinfo.pairs(),
            )),
    {
        if !same_context(self.ctx, rinfo.ctx) {
            return false;
        }
        let ghost pairs = rinfo.pairs_to_restore.entries();
        let n = rinfo.pairs_to_restore.len();
        let mut i: usize = 0;
        while i < n
            invariant
                i <= n,
                n == pairs.len(),
                pairs == rinfo.pairs_to_restore.entries(),
                rinfo.wf(),
                self.wf(),
                forall|j: int|
                    0 <= j < i ==> self.active_version@.contains_key(
                        (rinfo.funcname@, (#[trigger] pairs[j]).0@),
                    ),
            decreases n - i,
        {
            if !self.active_version.contains_key(&rinfo.funcname, rinfo.pairs_to_restore.key_at(i)) {
                proof {
                    lemma_entry_in_map(pairs, i as int);
                    assert(rinfo.pairs().contains_key(pairs[i as int].0@));
                }
                return false;
            }
            i += 1;
        }
        proof {
            assert forall|name: NameView| #[trigger]
                rinfo.pairs().contains_key(name) implies self@.active.contains_key(
                (rinfo.funcname(), name),
            ) by {
                lemma_key_has_entry(pairs, name);
            }
        }
        true
    }

    /// Makes the versions that `rinfo` captured active again, however
    /// many versions were made since. The count of versions stays as it
    /// is.
    ///
    /// Every local value that `rinfo` names must have an active version:
    /// as it has if `rinfo` was captured from this map.
    pub fn restore_fn_vars(&mut self, rinfo: RestoreInfo<'ctx>)
        requires
            old(self).wf(),
            rinfo.wf(),
            rinfo.context() == old(self).context(),
            old(self)@.restorable(rinfo.funcname(), rinfo.pairs()),
        ensures
            final(self).wf(),
            final(self).context() == old(self).context(),
            final(self)@ == old(self)@.restore(rinfo.funcname(), rinfo.pairs()),
            final(self).bindings() == with_entries_of_function(
                old(self).bindings(),
                rinfo.funcname(),
                rinfo.values(),
            ),
    {
        let ghost before = self.active_version@;
        let ghost pairs = rinfo.pairs_to_restore.entries();
        let n = rinfo.pairs_to_restore.len();
        proof {
            lemma_take_ends(pairs);
            assert(self.active_version@ =~= with_entries_of_function(
                before,
                rinfo.funcname@,
                entries_map(pairs.take(0)),
            ));
            assert forall|name: NameView| #[trigger]
                rinfo.pairs_to_restore@.contains_key(name) implies before.contains_key(
                (rinfo.funcname@, name),
            ) by {
                assert(rinfo.pairs().contains_key(name));
                assert(self@.active.contains_key((rinfo.funcname@, name)));
            }
        }
        let mut i: usize = 0;
        while i < n
            invariant
                i <= n,
                n == pairs.len(),
                pairs == rinfo.pairs_to_restore.entries(),
                rinfo.wf(),
                rinfo.context() == *self.ctx,
                self.ctx == old(self).ctx,
                self.version_num == old(self).version_num,
                self.max_versions_of_name == old(self).max_versions_of_name,
                self.active_version.wf(),
                forall|name: NameView| #[trigger]
                    rinfo.pairs_to_restore@.contains_key(name) ==> before.contains_key(
                        (rinfo.funcname@, name),
                    ),
                forall|key: VarKey| #[trigger]
                    before.contains_key(key) ==> before[key].context() == *self.ctx,
                self.active_version@ == with_entries_of_function(
                    before,
                    rinfo.funcname@,
                    entries_map(pairs.take(i as int)),
                ),
            decreases n - i,
        {
            let name = rinfo.pairs_to_restore.key_at(i);
            let value = rinfo.pairs_to_restore.value_at(i);
            proof {
                lemma_take_next(pairs, i as int);
                lemma_entry_in_map(pairs, i as int);
                assert(rinfo.pairs_to_restore@.contains_key(name@));
            }
            match self.active_version.position(&rinfo.funcname, name) {
                Some(at) => {
                    self.active_version.set_value_at(at, value.clone());
                },
                None => {
                    assert(false);
                },
            }
            assert(self.active_version@ =~= with_entries_of_function(
                before,
                rinfo.funcname@,
                entries_map(pairs.take(i + 1)),
            ));
            i += 1;
        }
        proof {
            lemma_take_ends(pairs);
            assert(final(self)@.active =~= old(self)@.restore(
                rinfo.funcname(),
                rinfo.pairs(),
            ).active);
            assert(final(self)@.active.dom() =~= final(self)@.versions.dom());
        }
    }
}

} // verus!
