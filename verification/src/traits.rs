//! The methods of traits, inherited ones among them.
use crate::ast::TraitDecl;
use crate::datum::{lemma_deep_len, occurs, put, Datum, Dup};
use crate::declarations::{generic_names, param_names, signature_of};
use crate::diagnostics::{diag, report, Diag, Diagnostic};
use crate::ids::{DefId, Symbol};
use crate::lower::{lowered_bounds, Sc, Scope};
use crate::owners::{as_parameters, method_signatures_match, parameter_types, sig_subst, sigs_match, specialize_fn_sig};
use crate::sig::{Bound, FnSig, Sig, Signatures, Sigs};
use crate::subst::{subst, substitute_generic, zip_subst, zip_types, Subst};
use crate::table::{lemma_pair_index, lemma_unseen, pair_get, pair_index, pair_set, unseen, Table};
use crate::text::{cat3, cat5};
use crate::ty::{group_tys, Type};
use vstd::prelude::*;

verus! {

broadcast use group_tys, lemma_deep_len;

/// Where a trait method's default body comes from, and how the parameters of
/// that trait are chosen.
pub struct TraitDefault {
    pub source: DefId,
    pub subst: Table<Symbol, Type>,
}

/// What a [`TraitDefault`] denotes.
pub struct DefaultV {
    pub source: DefId,
    pub subst: Subst,
}

impl DeepView for TraitDefault {
    type V = DefaultV;

    open spec fn deep_view(&self) -> DefaultV {
        DefaultV { source: self.source, subst: self.subst@ }
    }
}

impl Dup for TraitDefault {
    fn dup(&self) -> (r: Self) {
        TraitDefault { source: self.source, subst: self.subst.dup() }
    }
}

impl Datum for TraitDefault {
    fn same(&self, other: &Self) -> (r: bool) {
        self.source == other.source && self.subst.same(&other.subst)
    }
}

/// A method of a trait.
pub struct TraitMethod {
    pub sig: FnSig,
    pub default: Option<TraitDefault>,
    /// Whether parents offer different defaults.
    pub ambiguous_default: bool,
}

/// What a [`TraitMethod`] denotes.
pub struct MethodV {
    pub sig: Sig,
    pub default: Option<DefaultV>,
    pub ambiguous_default: bool,
}

impl DeepView for TraitMethod {
    type V = MethodV;

    open spec fn deep_view(&self) -> MethodV {
        MethodV {
            sig: self.sig.deep_view(),
            default: self.default.deep_view(),
            ambiguous_default: self.ambiguous_default,
        }
    }
}

impl Dup for TraitMethod {
    fn dup(&self) -> (r: Self) {
        TraitMethod {
            sig: self.sig.dup(),
            default: self.default.dup(),
            ambiguous_default: self.ambiguous_default,
        }
    }
}

/// The methods of a trait by name, in the order they were found.
pub type MethodList = Seq<(Seq<char>, MethodV)>;

/// The methods of each trait.
pub struct TraitMethods {
    pub methods: Vec<(Symbol, TraitMethod)>,
}

impl DeepView for TraitMethods {
    type V = MethodList;

    open spec fn deep_view(&self) -> MethodList {
        self.methods.deep_view()
    }
}

/// The methods of all traits.
pub type TraitMethodTable = Table<DefId, TraitMethods>;

/// The methods of all traits.
pub type TraitLists = Seq<(DefId, MethodList)>;

/// A choice of types with generic parameters replaced in it.
pub open spec fn subst_values(m: Subst, by: Subst) -> Subst {
    Map::new(|k: Seq<char>| m.contains_key(k), |k: Seq<char>| subst(m[k], by))
}

/// Replaces generic parameters in a choice of types.
pub fn substitute_values(m: &Table<Symbol, Type>, by: &Table<Symbol, Type>) -> (r: Table<Symbol, Type>)
    ensures
        r@ == subst_values(m@, by@),
{
    let mut out: Table<Symbol, Type> = Table::new();
    let mut i: usize = 0;
    while i < m.entries.len()
        invariant
            i <= m.entries.len(),
            forall|k: Seq<char>| #[trigger] out@.contains_key(k) ==> m@.contains_key(k) && out@[k] == subst(m@[k], by@),
            forall|j: int| 0 <= j < i ==> out@.contains_key((#[trigger] m.pairs()[j]).0),
        decreases m.entries.len() - i,
    {
        let ghost name = m.pairs()[i as int].0;
        proof {
            lemma_pair_index(m.pairs(), name);
            assert(m@.contains_key(name));
        }
        if let Some(t) = m.get(&m.entries[i].0) {
            out.insert(m.entries[i].0.clone(), substitute_generic(t, by));
        }
        i += 1;
    }
    proof {
        assert forall|k: Seq<char>| m@.contains_key(k) implies out@.contains_key(k) by {
            lemma_pair_index(m.pairs(), k);
            assert(m.pairs()[pair_index(m.pairs(), k)].0 == k);
        }
        assert(out@ =~= subst_values(m@, by@));
    }
    out
}

/// A parent's method as a child inherits it.
pub open spec fn inherited(m: MethodV, by: Subst) -> MethodV {
    MethodV {
        sig: sig_subst(m.sig, by),
        default: match m.default {
            Some(d) => Some(DefaultV { source: d.source, subst: subst_values(d.subst, by) }),
            None => None,
        },
        ambiguous_default: m.ambiguous_default,
    }
}

/// Two parents' versions of one method, joined. Different defaults cancel
/// each other.
pub open spec fn joined_method(existing: MethodV, other: MethodV) -> MethodV {
    let ambiguous = existing.ambiguous_default || other.ambiguous_default;
    match (existing.default, other.default) {
        (Some(a), Some(b)) => if a != b {
            MethodV { default: None, ambiguous_default: true, ..existing }
        } else {
            MethodV { ambiguous_default: ambiguous, ..existing }
        },
        (None, Some(b)) => if !ambiguous {
            MethodV { default: Some(b), ambiguous_default: ambiguous, ..existing }
        } else {
            MethodV { ambiguous_default: ambiguous, ..existing }
        },
        _ => MethodV { ambiguous_default: ambiguous, ..existing },
    }
}

/// The methods with one inherited method added.
pub open spec fn with_inherited(t: TraitDecl, ms: MethodList, name: Seq<char>, m: MethodV, d: Seq<Diag>) -> (
    MethodList,
    Seq<Diag>,
) {
    match pair_get(ms, name) {
        None => (pair_set(ms, name, m), d),
        Some(existing) => (
            pair_set(ms, name, joined_method(existing, m)),
            if sigs_match(existing.sig, m.sig) {
                d
            } else {
                d.push(
                    diag(
                        "inherited method `"@ + name + "` has incompatible signatures in trait `"@ + t.name.name@ + "`"@,
                        t.span,
                        "conflicting parent traits"@,
                    ),
                )
            },
        ),
    }
}

/// The methods with a parent's methods from the `i`-th on added.
pub open spec fn with_all_inherited(t: TraitDecl, from: MethodList, by: Subst, i: int, ms: MethodList, d: Seq<Diag>) -> (
    MethodList,
    Seq<Diag>,
)
    decreases from.len() - i,
{
    if 0 <= i < from.len() {
        let (ms1, d1) = with_inherited(t, ms, from[i].0, inherited(from[i].1, by), d);
        with_all_inherited(t, from, by, i + 1, ms1, d1)
    } else {
        (ms, d)
    }
}

/// The methods with a trait's own methods from the `i`-th on added; they
/// replace inherited ones.
pub open spec fn with_own_methods(sc: Sc, id: DefId, t: TraitDecl, i: int, ms: MethodList, d: Seq<Diag>) -> (
    MethodList,
    Seq<Diag>,
)
    decreases t.methods@.len() - i,
{
    if 0 <= i < t.methods@.len() {
        let m = t.methods@[i];
        let (sig, d1) = signature_of(sc, m, d);
        let names = param_names(t.generics@);
        let own = MethodV {
            sig,
            default: match m.body {
                Some(_) => Some(DefaultV { source: id, subst: zip_subst(names, as_parameters(names)) }),
                None => None,
            },
            ambiguous_default: false,
        };
        with_own_methods(sc, id, t, i + 1, pair_set(ms, m.name.name@, own), d1)
    } else {
        (ms, d)
    }
}

/// The list of a trait's methods.
pub open spec fn methods_in(table: TraitLists, id: DefId) -> MethodList {
    match pair_get(table, id) {
        Some(ms) => ms,
        None => Seq::empty(),
    }
}

/// The table with a trait and its ancestors added. `path` are the traits
/// whose parents are being added.
pub open spec fn with_trait(sc: Sc, s: Sigs, id: DefId, path: Seq<DefId>, table: TraitLists, d: Seq<Diag>) -> (
    TraitLists,
    Seq<Diag>,
)
    decreases unseen(sc.decls.traits, path), 0nat, 0int,
{
    if pair_get(table, id) is Some {
        (table, d)
    } else {
        match sc.trait_decl(id) {
            None => (table, d),
            Some(t) => if path.contains(id) {
                (
                    table,
                    d.push(
                        diag(
                            "trait inheritance cycle involving `"@ + sc.name(id) + "`"@,
                            t.span,
                            "cycle reaches this trait"@,
                        ),
                    ),
                )
            } else {
                proof {
                    lemma_pair_index(sc.decls.traits, id);
                    lemma_unseen(sc.decls.traits, path, id);
                }
                let (ms, table1, d1) = with_parents(
                    sc,
                    s,
                    t,
                    s.parents_of(id),
                    0,
                    path.push(id),
                    Seq::empty(),
                    table,
                    d,
                );
                let (ms1, d2) = with_own_methods(sc, id, t, 0, ms, d1);
                (pair_set(table1, id, ms1), d2)
            },
        }
    }
}

/// The inherited methods of a trait, and the table, after its parents from
/// the `i`-th on.
pub open spec fn with_parents(
    sc: Sc,
    s: Sigs,
    t: TraitDecl,
    parents: Seq<Bound>,
    i: int,
    path: Seq<DefId>,
    ms: MethodList,
    table: TraitLists,
    d: Seq<Diag>,
) -> (MethodList, TraitLists, Seq<Diag>)
    decreases unseen(sc.decls.traits, path), 1nat, parents.len() - i,
{
    if 0 <= i < parents.len() {
        let p = parents[i];
        let (table1, d1) = with_trait(sc, s, p.trait_id, path, table, d);
        let by = zip_subst(s.generics_of_trait(p.trait_id), p.args);
        let (ms1, d2) = with_all_inherited(t, methods_in(table1, p.trait_id), by, 0, ms, d1);
        with_parents(sc, s, t, parents, i + 1, path, ms1, table1, d2)
    } else {
        (ms, table, d)
    }
}

/// The signatures with the parameters and parents of the traits from the
/// `i`-th on added.
pub open spec fn with_trait_heads(sc: Sc, i: int, s: Sigs, d: Seq<Diag>) -> (Sigs, Seq<Diag>)
    decreases sc.decls.traits.len() - i,
{
    if 0 <= i < sc.decls.traits.len() {
        let id = sc.decls.traits[i].0;
        match sc.trait_decl(id) {
            None => with_trait_heads(sc, i + 1, s, d),
            Some(t) => {
                let (parents, d1) = lowered_bounds(sc, t.parents@, 0, Seq::empty(), d);
                with_trait_heads(
                    sc,
                    i + 1,
                    Sigs {
                        trait_generics: s.trait_generics.insert(id, param_names(t.generics@)),
                        trait_parents: s.trait_parents.insert(id, parents),
                        ..s
                    },
                    d1,
                )
            },
        }
    } else {
        (s, d)
    }
}

/// The table with the traits from the `i`-th on added.
pub open spec fn with_traits_from(sc: Sc, s: Sigs, i: int, table: TraitLists, d: Seq<Diag>) -> (TraitLists, Seq<Diag>)
    decreases sc.decls.traits.len() - i,
{
    if 0 <= i < sc.decls.traits.len() {
        let (table1, d1) = with_trait(sc, s, sc.decls.traits[i].0, Seq::empty(), table, d);
        with_traits_from(sc, s, i + 1, table1, d1)
    } else {
        (table, d)
    }
}

/// The method signatures with a trait's methods from the `i`-th on added.
pub open spec fn with_listed(
    id: DefId,
    ms: MethodList,
    i: int,
    all: Map<(DefId, Seq<char>), Sig>,
) -> Map<(DefId, Seq<char>), Sig>
    decreases ms.len() - i,
{
    if 0 <= i < ms.len() {
        with_listed(id, ms, i + 1, all.insert((id, ms[i].0), ms[i].1.sig))
    } else {
        all
    }
}

/// The method signatures with those of the traits from the `i`-th on added.
pub open spec fn with_tabled(
    table: TraitLists,
    i: int,
    all: Map<(DefId, Seq<char>), Sig>,
) -> Map<(DefId, Seq<char>), Sig>
    decreases table.len() - i,
{
    if 0 <= i < table.len() {
        with_tabled(table, i + 1, with_listed(table[i].0, table[i].1, 0, all))
    } else {
        all
    }
}

/// The methods of all traits, and the signatures with the traits added.
pub open spec fn with_all_traits(sc: Sc, s: Sigs, d: Seq<Diag>) -> (TraitLists, Sigs, Seq<Diag>) {
    let (s1, d1) = with_trait_heads(sc, 0, s, d);
    let (table, d2) = with_traits_from(sc, s1, 0, Seq::empty(), d1);
    (table, Sigs { trait_methods: with_tabled(table, 0, s1.trait_methods), ..s1 }, d2)
}

fn inherit(m: &TraitMethod, by: &Table<Symbol, Type>) -> (r: TraitMethod)
    ensures
        r.deep_view() == inherited(m.deep_view(), by@),
{
    TraitMethod {
        sig: specialize_fn_sig(&m.sig, by),
        default: match &m.default {
            Some(d) => Some(TraitDefault { source: d.source, subst: substitute_values(&d.subst, by) }),
            None => None,
        },
        ambiguous_default: m.ambiguous_default,
    }
}

fn join_methods(existing: &TraitMethod, other: &TraitMethod) -> (r: TraitMethod)
    ensures
        r.deep_view() == joined_method(existing.deep_view(), other.deep_view()),
{
    let ambiguous = existing.ambiguous_default || other.ambiguous_default;
    let sig = existing.sig.dup();
    match (&existing.default, &other.default) {
        (Some(a), Some(b)) => {
            if !a.same(b) {
                return TraitMethod { sig, default: None, ambiguous_default: true };
            }
            TraitMethod { sig, default: Some(a.dup()), ambiguous_default: ambiguous }
        },
        (None, Some(b)) => {
            if !ambiguous {
                return TraitMethod { sig, default: Some(b.dup()), ambiguous_default: ambiguous };
            }
            TraitMethod { sig, default: None, ambiguous_default: ambiguous }
        },
        _ => TraitMethod { sig, default: existing.default.dup(), ambiguous_default: ambiguous },
    }
}

fn add_inherited(t: &TraitDecl, ms: &mut Table<Symbol, TraitMethod>, name: &Symbol, m: TraitMethod, diags: &mut Vec<Diagnostic>)
    ensures
        (final(ms).pairs(), final(diags).deep_view()) == with_inherited(
            *t,
            old(ms).pairs(),
            name@,
            m.deep_view(),
            old(diags).deep_view(),
        ),
{
    let joined = match ms.get(name) {
        None => None,
        Some(existing) => {
            if !method_signatures_match(&existing.sig, &m.sig) {
                let message = cat5(
                    "inherited method `",
                    name.as_str(),
                    "` has incompatible signatures in trait `",
                    t.name.name.as_str(),
                    "`",
                );
                report(diags, message.as_str(), t.span, "conflicting parent traits");
            }
            Some(join_methods(existing, &m))
        },
    };
    match joined {
        None => {
            ms.insert(name.clone(), m);
        },
        Some(j) => {
            ms.insert(name.clone(), j);
        },
    }
}

impl<'a> Scope<'a> {
    /// The methods of all traits; adds the traits to the signatures.
    pub fn build_trait_method_table(&self, sigs: &mut Signatures, diags: &mut Vec<Diagnostic>) -> (r: TraitMethodTable)
        ensures
            (r.pairs(), final(sigs)@, final(diags).deep_view()) == with_all_traits(
                self@,
                old(sigs)@,
                old(diags).deep_view(),
            ),
    {
        self.build_trait_heads(sigs, diags);
        let mut table: TraitMethodTable = Table::new();
        let ghost d1 = diags.deep_view();
        let ghost s1 = sigs@;
        let path: Vec<DefId> = Vec::new();
        proof {
            assert(path.deep_view() =~= Seq::<DefId>::empty());
        }
        let mut i: usize = 0;
        while i < self.decls.trait_decls.entries.len()
            invariant
                i <= self.decls.trait_decls.entries.len(),
                sigs@ == s1,
                path.deep_view() == Seq::<DefId>::empty(),
                with_traits_from(self@, s1, i as int, table.pairs(), diags.deep_view()) == with_traits_from(
                    self@,
                    s1,
                    0,
                    Seq::empty(),
                    d1,
                ),
            decreases self.decls.trait_decls.entries.len() - i,
        {
            let id = self.decls.trait_decls.entries[i].0;
            assert(self@.decls.traits[i as int].0 == id);
            self.build_trait(sigs, id, &path, &mut table, diags);
            i += 1;
        }
        let ghost all = table.pairs();
        let ghost m0 = sigs@.trait_methods;
        let mut k: usize = 0;
        while k < table.entries.len()
            invariant
                k <= table.entries.len(),
                all == table.pairs(),
                sigs@ == (Sigs { trait_methods: sigs@.trait_methods, ..s1 }),
                with_tabled(all, k as int, sigs@.trait_methods) == with_tabled(all, 0, m0),
            decreases table.entries.len() - k,
        {
            let id = table.entries[k].0;
            assert(all[k as int].0 == id);
            let ghost ms = all[k as int].1;
            let ghost m1 = sigs@.trait_methods;
            let mut j: usize = 0;
            while j < table.entries[k].1.methods.len()
                invariant
                    k < table.entries.len(),
                    all == table.pairs(),
                    ms == all[k as int].1,
                    id == all[k as int].0,
                    j <= table.entries@[k as int].1.methods.len(),
                    sigs@ == (Sigs { trait_methods: sigs@.trait_methods, ..s1 }),
                    with_listed(id, ms, j as int, sigs@.trait_methods) == with_listed(id, ms, 0, m1),
                decreases table.entries@[k as int].1.methods.len() - j,
            {
                let entry = &table.entries[k].1.methods[j];
                assert(ms[j as int] == entry.deep_view());
                let key: (DefId, Symbol) = (id, entry.0.clone());
                sigs.trait_methods.insert(key, entry.1.sig.dup());
                j += 1;
            }
            k += 1;
        }
        table
    }

    fn build_trait_heads(&self, sigs: &mut Signatures, diags: &mut Vec<Diagnostic>)
        ensures
            (final(sigs)@, final(diags).deep_view()) == with_trait_heads(self@, 0, old(sigs)@, old(diags).deep_view()),
    {
        let mut i: usize = 0;
        while i < self.decls.trait_decls.entries.len()
            invariant
                i <= self.decls.trait_decls.entries.len(),
                with_trait_heads(self@, i as int, sigs@, diags.deep_view()) == with_trait_heads(
                    self@,
                    0,
                    old(sigs)@,
                    old(diags).deep_view(),
                ),
            decreases self.decls.trait_decls.entries.len() - i,
        {
            let id = self.decls.trait_decls.entries[i].0;
            assert(self@.decls.traits[i as int].0 == id);
            if let Some(t) = self.trait_decl(id) {
                let parents = self.lower_bounds(&t.parents, diags);
                sigs.trait_generics.insert(id, generic_names(&t.generics));
                sigs.trait_parents.insert(id, parents);
            }
            i += 1;
        }
    }

    fn build_trait(&self, sigs: &Signatures, id: DefId, path: &Vec<DefId>, table: &mut TraitMethodTable, diags: &mut Vec<Diagnostic>)
        ensures
            (final(table).pairs(), final(diags).deep_view()) == with_trait(
                self@,
                sigs@,
                id,
                path.deep_view(),
                old(table).pairs(),
                old(diags).deep_view(),
            ),
        decreases unseen(self@.decls.traits, path.deep_view()), 0nat,
    {
        if table.get(&id).is_some() {
            return;
        }
        let t = match self.trait_decl(id) {
            Some(t) => t,
            None => {
                return;
            },
        };
        if occurs(path, &id) {
            let message = cat3("trait inheritance cycle involving `", self.names.definitions.name(id), "`");
            report(diags, message.as_str(), t.span, "cycle reaches this trait");
            return;
        }
        let mut deeper = path.dup();
        put(&mut deeper, id);
        proof {
            lemma_pair_index(self@.decls.traits, id);
            lemma_unseen(self@.decls.traits, path.deep_view(), id);
        }
        let parents = sigs.parents_of(id);
        let mut ms: Table<Symbol, TraitMethod> = Table::new();
        let ghost ps = parents.deep_view();
        let ghost start = with_parents(
            self@,
            sigs@,
            *t,
            ps,
            0,
            deeper.deep_view(),
            Seq::empty(),
            table.pairs(),
            diags.deep_view(),
        );
        let mut i: usize = 0;
        while i < parents.len()
            invariant
                i <= parents.len(),
                ps == parents.deep_view(),
                unseen(self@.decls.traits, deeper.deep_view()) < unseen(self@.decls.traits, path.deep_view()),
                with_parents(
                    self@,
                    sigs@,
                    *t,
                    ps,
                    i as int,
                    deeper.deep_view(),
                    ms.pairs(),
                    table.pairs(),
                    diags.deep_view(),
                ) == start,
            decreases parents.len() - i,
        {
            assert(ps[i as int] == parents@[i as int].deep_view());
            self.build_trait(sigs, parents[i].trait_id, &deeper, table, diags);
            let names = sigs.generics_of_trait(parents[i].trait_id);
            let by = zip_types(&names, &parents[i].args);
            inherit_all(t, table, parents[i].trait_id, &by, &mut ms, diags);
            i += 1;
        }
        self.add_own_methods(id, t, &mut ms, diags);
        table.insert(id, TraitMethods { methods: ms.entries });
    }

    fn add_own_methods(&self, id: DefId, t: &TraitDecl, ms: &mut Table<Symbol, TraitMethod>, diags: &mut Vec<Diagnostic>)
        ensures
            (final(ms).pairs(), final(diags).deep_view()) == with_own_methods(
                self@,
                id,
                *t,
                0,
                old(ms).pairs(),
                old(diags).deep_view(),
            ),
    {
        let names = generic_names(&t.generics);
        let params = parameter_types(&names);
        let mut i: usize = 0;
        while i < t.methods.len()
            invariant
                i <= t.methods.len(),
                names.deep_view() == param_names(t.generics@),
                params.deep_view() == as_parameters(names.deep_view()),
                with_own_methods(self@, id, *t, i as int, ms.pairs(), diags.deep_view()) == with_own_methods(
                    self@,
                    id,
                    *t,
                    0,
                    old(ms).pairs(),
                    old(diags).deep_view(),
                ),
            decreases t.methods.len() - i,
        {
            let m = &t.methods[i];
            let sig = self.build_fn_sig(m, diags);
            let default = if m.body.is_some() {
                Some(TraitDefault { source: id, subst: zip_types(&names, &params) })
            } else {
                None
            };
            ms.insert(m.name.name.clone(), TraitMethod { sig, default, ambiguous_default: false });
            i += 1;
        }
    }
}

fn inherit_all(
    t: &TraitDecl,
    table: &TraitMethodTable,
    parent: DefId,
    by: &Table<Symbol, Type>,
    ms: &mut Table<Symbol, TraitMethod>,
    diags: &mut Vec<Diagnostic>,
)
    ensures
        (final(ms).pairs(), final(diags).deep_view()) == with_all_inherited(
            *t,
            methods_in(table.pairs(), parent),
            by@,
            0,
            old(ms).pairs(),
            old(diags).deep_view(),
        ),
{
    let from = match table.get(&parent) {
        Some(list) => list,
        None => {
            return;
        },
    };
    let ghost all = methods_in(table.pairs(), parent);
    let mut i: usize = 0;
    while i < from.methods.len()
        invariant
            i <= from.methods.len(),
            all == from.methods.deep_view(),
            with_all_inherited(*t, all, by@, i as int, ms.pairs(), diags.deep_view()) == with_all_inherited(
                *t,
                all,
                by@,
                0,
                old(ms).pairs(),
                old(diags).deep_view(),
            ),
        decreases from.methods.len() - i,
    {
        assert(all[i as int] == from.methods@[i as int].deep_view());
        let m = inherit(&from.methods[i].1, by);
        add_inherited(t, ms, &from.methods[i].0, m, diags);
        i += 1;
    }
}

} // verus!
