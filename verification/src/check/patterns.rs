//! Patterns.
use crate::ast::{pattern_size, pattern_span, patterns_size, Literal, Pattern};
use crate::check::facts::{literal_may_be, literal_of};
use crate::check::state::{Checker, Cx, Env, St};
use crate::datum::{add_new, lemma_deep_len, push_new, Datum, Dup};
use crate::describe::shown;
use crate::ids::{DefId, Span};
use crate::names::Resolution;
use crate::rules::payload_of;
use crate::text::{cat3, cat4, cat5, count, decimal};
use crate::ty::{group_tys, no_types, Ty, Type};
use vstd::prelude::*;

verus! {

broadcast use group_tys, lemma_deep_len;

/// The state with the covered variants, and whether a pattern covers all.
pub struct PatSt {
    pub st: St,
    pub covered: Seq<u32>,
    pub catch_all: bool,
}

/// After a pattern. Only what stands at the top of an arm covers.
pub open spec fn pattern(e: Env, ps: PatSt, p: Pattern, t: Ty, top: bool) -> PatSt
    decreases pattern_size(p), 1nat,
{
    match p {
        Pattern::Wildcard(_) => PatSt { catch_all: ps.catch_all || top, ..ps },
        Pattern::Binding(id, ident) => if e.sc.names.local(id) is Some {
            PatSt { st: ps.st.bound(e.sc.names, id, t, false), catch_all: ps.catch_all || top, ..ps }
        } else {
            match e.sc.names.path(id) {
                Some(res) => match res.base {
                    Resolution::EnumVariant(enum_id, idx) => variant_pattern(
                        e,
                        ps,
                        pattern_span(p),
                        enum_id,
                        idx,
                        Seq::empty(),
                        t,
                        top,
                    ),
                    _ => ps,
                },
                None => ps,
            }
        },
        Pattern::Literal(l, span) => PatSt {
            st: ps.st.fail_if(
                !literal_of(l, t) && !(t is Error),
                span,
                "literal pattern is incompatible with `"@ + shown(t, e.sc.defs()) + "`"@,
            ),
            ..ps
        },
        Pattern::Tuple(elems, span) => match t {
            Ty::Tuple(ts) => patterns(
                e,
                PatSt {
                    st: ps.st.fail_if(
                        ts.len() != elems@.len(),
                        span,
                        "tuple pattern has "@ + decimal(elems@.len()) + " element(s), but the scrutinee has "@ + decimal(
                            ts.len(),
                        ),
                    ),
                    ..ps
                },
                elems@,
                ts,
                0,
            ),
            Ty::Error => patterns(e, ps, elems@, Seq::empty(), 0),
            _ => patterns(
                e,
                PatSt {
                    st: ps.st.fail(span, "tuple pattern requires a tuple, found `"@ + shown(t, e.sc.defs()) + "`"@),
                    ..ps
                },
                elems@,
                Seq::empty(),
                0,
            ),
        },
        Pattern::Variant { path, payload, span: _ } => match e.sc.names.path(path.id) {
            Some(res) => match res.base {
                Resolution::EnumVariant(enum_id, idx) => variant_pattern(
                    e,
                    ps,
                    pattern_span(p),
                    enum_id,
                    idx,
                    payload@,
                    t,
                    top,
                ),
                _ => ps,
            },
            None => ps,
        },
    }
}

/// After the inner patterns from the `i`-th on, against these types; a
/// missing type is unknown.
pub open spec fn patterns(e: Env, ps: PatSt, qs: Seq<Pattern>, ts: Seq<Ty>, i: int) -> PatSt
    decreases patterns_size(qs, i), 0nat,
{
    if 0 <= i < qs.len() {
        let t = if i < ts.len() {
            ts[i]
        } else {
            Ty::Error
        };
        patterns(e, pattern(e, ps, qs[i], t, false), qs, ts, i + 1)
    } else {
        ps
    }
}

/// The number of payload fields that a variant declares.
pub open spec fn variant_arity(e: Env, enum_id: DefId, variant: u32) -> nat {
    match e.sigs.enum_sigs.get(enum_id) {
        Some(sig) => if variant < sig.variants.len() {
            sig.variants[variant as int].1.len()
        } else {
            0
        },
        None => 0,
    }
}

/// Whether a type is the enum.
pub open spec fn is_enum(t: Ty, id: DefId) -> bool {
    match t {
        Ty::Enum(i, _) => i == id,
        _ => false,
    }
}

/// After a variant pattern.
pub open spec fn variant_pattern(
    e: Env,
    ps: PatSt,
    span: Span,
    enum_id: DefId,
    variant: u32,
    payload: Seq<Pattern>,
    t: Ty,
    top: bool,
) -> PatSt
    decreases patterns_size(payload, 0), 2nat,
{
    let same = is_enum(t, enum_id);
    let ps1 = if !same {
        PatSt {
            st: ps.st.fail_if(
                !(t is Error),
                span,
                "variant pattern from enum `"@ + e.sc.name(enum_id) + "` cannot match `"@ + shown(t, e.sc.defs())
                    + "`"@,
            ),
            ..ps
        }
    } else if top {
        PatSt { covered: push_new(ps.covered, variant), ..ps }
    } else {
        ps
    };
    let arity = variant_arity(e, enum_id, variant);
    let ps2 = PatSt {
        st: ps1.st.fail_if(
            payload.len() != arity,
            span,
            "variant pattern expects "@ + decimal(arity) + " payload field(s), found "@ + decimal(payload.len()),
        ),
        ..ps1
    };
    let ts = if same {
        match payload_of(e.sigs, t, variant as int) {
            Some(ts) => ts,
            None => Seq::empty(),
        }
    } else {
        Seq::empty()
    };
    patterns(e, ps2, payload, ts, 0)
}

/// What the patterns of a `match` cover.
pub struct Coverage {
    pub covered: Vec<u32>,
    pub catch_all: bool,
}

impl Coverage {
    pub fn new() -> (r: Self)
        ensures
            r.covered.deep_view() == Seq::<u32>::empty(),
            !r.catch_all,
    {
        let r = Coverage { covered: Vec::new(), catch_all: false };
        proof {
            assert(r.covered.deep_view() =~= Seq::<u32>::empty());
        }
        r
    }
}

/// The state with a coverage.
pub open spec fn pat_st(st: St, c: Coverage) -> PatSt {
    PatSt { st, covered: c.covered.deep_view(), catch_all: c.catch_all }
}

impl Checker {
    /// Checks a pattern.
    pub fn check_pattern_inner(&mut self, cx: &Cx<'_>, p: &Pattern, ty: &Type, c: &mut Coverage, top: bool)
        ensures
            pat_st(final(self)@, *final(c)) == pattern(cx@, pat_st(old(self)@, *old(c)), *p, ty@, top),
        decreases pattern_size(*p), 1nat,
    {
        match p {
            Pattern::Wildcard(_) => {
                if top {
                    c.catch_all = true;
                }
            },
            Pattern::Binding(id, _) => {
                if cx.scope.names.local_of(*id).is_some() {
                    self.bind_local(cx.scope.names, *id, ty.clone(), false);
                    if top {
                        c.catch_all = true;
                    }
                } else if let Some(res) = cx.scope.names.path_of(*id) {
                    if let Resolution::EnumVariant(enum_id, idx) = res.base {
                        let none: Vec<Pattern> = Vec::new();
                        proof {
                            assert(none@ =~= Seq::<Pattern>::empty());
                        }
                        self.check_variant_pattern(cx, p.span(), enum_id, idx, &none, ty, c, top);
                    }
                }
            },
            Pattern::Literal(l, span) => {
                if !literal_may_be(*l, ty) && !ty.is_error() {
                    let found = cx.describe(ty);
                    let message = cat3("literal pattern is incompatible with `", found.as_str(), "`");
                    self.err(*span, message.as_str());
                }
            },
            Pattern::Tuple(elems, span) => match ty {
                Type::Tuple(ts) => {
                    assert(ts.deep_view().len() == ts.len());
                    if ts.len() != elems.len() {
                        let a = count(elems.len());
                        let b = count(ts.len());
                        let message = cat4(
                            "tuple pattern has ",
                            a.as_str(),
                            " element(s), but the scrutinee has ",
                            b.as_str(),
                        );
                        self.err(*span, message.as_str());
                    }
                    self.check_patterns(cx, elems, ts, c);
                },
                Type::Error => {
                    self.check_patterns(cx, elems, &no_types(), c);
                },
                _ => {
                    let found = cx.describe(ty);
                    let message = cat3("tuple pattern requires a tuple, found `", found.as_str(), "`");
                    self.err(*span, message.as_str());
                    self.check_patterns(cx, elems, &no_types(), c);
                },
            },
            Pattern::Variant { path, payload, span: _ } => {
                if let Some(res) = cx.scope.names.path_of(path.id) {
                    if let Resolution::EnumVariant(enum_id, idx) = res.base {
                        self.check_variant_pattern(cx, p.span(), enum_id, idx, payload, ty, c, top);
                    }
                }
            },
        }
    }

    fn check_patterns(&mut self, cx: &Cx<'_>, ps: &Vec<Pattern>, ts: &Vec<Type>, c: &mut Coverage)
        ensures
            pat_st(final(self)@, *final(c)) == patterns(
                cx@,
                pat_st(old(self)@, *old(c)),
                ps@,
                ts.deep_view(),
                0,
            ),
        decreases patterns_size(ps@, 0), 0nat,
    {
        let ghost tv = ts.deep_view();
        let mut i: usize = 0;
        while i < ps.len()
            invariant
                i <= ps.len(),
                tv == ts.deep_view(),
                patterns_size(ps@, i as int) <= patterns_size(ps@, 0),
                patterns(cx@, pat_st(self@, *c), ps@, tv, i as int) == patterns(
                    cx@,
                    pat_st(old(self)@, *old(c)),
                    ps@,
                    tv,
                    0,
                ),
            decreases ps.len() - i,
        {
            if i < ts.len() {
                assert(tv[i as int] == ts@[i as int]@);
                self.check_pattern_inner(cx, &ps[i], &ts[i], c, false);
            } else {
                self.check_pattern_inner(cx, &ps[i], &Type::Error, c, false);
            }
            i += 1;
        }
    }

    fn check_variant_pattern(
        &mut self,
        cx: &Cx<'_>,
        span: Span,
        enum_id: DefId,
        variant: u32,
        payload: &Vec<Pattern>,
        ty: &Type,
        c: &mut Coverage,
        top: bool,
    )
        ensures
            pat_st(final(self)@, *final(c)) == variant_pattern(
                cx@,
                pat_st(old(self)@, *old(c)),
                span,
                enum_id,
                variant,
                payload@,
                ty@,
                top,
            ),
        decreases patterns_size(payload@, 0), 2nat,
    {
        let same = match ty {
            Type::Enum(id, _) => *id == enum_id,
            _ => false,
        };
        if !same {
            if !ty.is_error() {
                let found = cx.describe(ty);
                let message = cat5(
                    "variant pattern from enum `",
                    cx.name_of(enum_id),
                    "` cannot match `",
                    found.as_str(),
                    "`",
                );
                self.err(span, message.as_str());
            }
        } else if top {
            add_new(&mut c.covered, variant);
        }
        let v: usize = variant as usize;
        let arity: usize = match cx.sigs.enum_sigs.get(&enum_id) {
            Some(sig) => if v < sig.variants.len() {
                assert(sig.deep_view().variants[v as int] == sig.variants@[v as int].deep_view());
                sig.variants[v].1.len()
            } else {
                0
            },
            None => 0,
        };
        if payload.len() != arity {
            let a = count(arity);
            let b = count(payload.len());
            let message = cat4("variant pattern expects ", a.as_str(), " payload field(s), found ", b.as_str());
            self.err(span, message.as_str());
        }
        let ts = if same {
            match cx.sigs.enum_payload(ty, variant) {
                Some(ts) => ts,
                None => no_types(),
            }
        } else {
            no_types()
        };
        self.check_patterns(cx, payload, &ts, c);
    }
}

} // verus!
