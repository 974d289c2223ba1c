//! How often each local is used.
use crate::ast::{
    arms_size, block_size, expr_size, exprs_size, fields_size, parts_size, stmts_size, Block, Expr, ExprKind,
    FieldInit, MatchArm, Stmt, TemplatePart,
};
use crate::datum::{add_new, push_new};
use crate::ids::LocalId;
use crate::names::{Resolution, ResolvedNames};
use crate::table::{lemma_pair_set_map, pair_get, pair_map, pair_set, Table};
use vstd::prelude::*;

verus! {

/// Use counts, and the locals that are used inside closures.
pub struct Uses {
    pub counts: Seq<(LocalId, usize)>,
    pub pinned: Seq<LocalId>,
}

/// One more, up to the largest count.
pub open spec fn one_more(n: usize) -> usize {
    if n < usize::MAX {
        (n + 1) as usize
    } else {
        n
    }
}

/// One more, up to the largest count.
pub fn increment(n: usize) -> (r: usize)
    ensures
        r == one_more(n),
{
    if n < usize::MAX {
        n + 1
    } else {
        n
    }
}

/// `n` less `m`, but not less than zero.
pub open spec fn less(n: usize, m: usize) -> usize {
    if n >= m {
        (n - m) as usize
    } else {
        0
    }
}

/// `n` less `m`, but not less than zero.
pub fn decrement(n: usize, m: usize) -> (r: usize)
    ensures
        r == less(n, m),
{
    if n >= m {
        n - m
    } else {
        0
    }
}

/// The uses with one of `local` added.
pub open spec fn used(u: Uses, local: LocalId, pin: bool) -> Uses {
    let n = match pair_get(u.counts, local) {
        Some(n) => n,
        None => 0,
    };
    Uses {
        counts: pair_set(u.counts, local, one_more(n)),
        pinned: if pin {
            push_new(u.pinned, local)
        } else {
            u.pinned
        },
    }
}

/// The uses with those of an expression added. Those inside a closure are
/// pinned.
pub open spec fn uses_expr(names: ResolvedNames, x: Expr, u: Uses, pin: bool) -> Uses
    decreases expr_size(x), 0nat,
{
    match x.kind {
        ExprKind::Literal(_) => u,
        ExprKind::Path(path) => match names.path(path.id) {
            Some(res) => match res.base {
                Resolution::Local(local) => used(u, local, pin),
                _ => u,
            },
            None => u,
        },
        ExprKind::Tuple(xs) => uses_exprs(names, xs@, 0, u, pin),
        ExprKind::Array(xs) => uses_exprs(names, xs@, 0, u, pin),
        ExprKind::FixedArray(xs) => uses_exprs(names, xs@, 0, u, pin),
        ExprKind::Await(a) => uses_expr(names, *a, u, pin),
        ExprKind::StringTemplate(parts) => uses_parts(names, parts@, 0, u, pin),
        ExprKind::RawBorrow { mutable: _, place } => uses_expr(names, *place, u, pin),
        ExprKind::RawDeref(a) => uses_expr(names, *a, u, pin),
        ExprKind::Unary { op: _, expr } => uses_expr(names, *expr, u, pin),
        ExprKind::Binary { op: _, lhs, rhs } => uses_expr(names, *rhs, uses_expr(names, *lhs, u, pin), pin),
        ExprKind::Assign { target, value } => uses_expr(names, *value, uses_expr(names, *target, u, pin), pin),
        ExprKind::Call { callee, generic_args: _, args } =>
            uses_exprs(names, args@, 0, uses_expr(names, *callee, u, pin), pin),
        ExprKind::MutArg(a) => uses_expr(names, *a, u, pin),
        ExprKind::MethodCall { receiver, method: _, generic_args: _, args } =>
            uses_exprs(names, args@, 0, uses_expr(names, *receiver, u, pin), pin),
        ExprKind::Field { base, field: _ } => uses_expr(names, *base, u, pin),
        ExprKind::Index { base, index } => uses_expr(names, *index, uses_expr(names, *base, u, pin), pin),
        ExprKind::If { cond, then_branch, else_branch } => {
            let u1 = uses_block(names, then_branch, uses_expr(names, *cond, u, pin), pin);
            match else_branch {
                Some(e) => uses_expr(names, *e, u1, pin),
                None => u1,
            }
        },
        ExprKind::Match { scrutinee, arms } => uses_arms(names, arms@, 0, uses_expr(names, *scrutinee, u, pin), pin),
        ExprKind::Block(b) => uses_block(names, b, u, pin),
        ExprKind::Unsafe(b) => uses_block(names, b, u, pin),
        ExprKind::While { cond, body } => uses_block(names, body, uses_expr(names, *cond, u, pin), pin),
        ExprKind::ForIn { pattern: _, iter, body } => uses_block(names, body, uses_expr(names, *iter, u, pin), pin),
        ExprKind::Loop { body } => uses_block(names, body, u, pin),
        ExprKind::Break(v) => match v {
            Some(a) => uses_expr(names, *a, u, pin),
            None => u,
        },
        ExprKind::Continue => u,
        ExprKind::Return(v) => match v {
            Some(a) => uses_expr(names, *a, u, pin),
            None => u,
        },
        ExprKind::Closure { move_capture: _, mut_capture: _, params: _, body } => uses_expr(names, *body, u, true),
        ExprKind::StructLit { path: _, fields, owned: _ } => uses_fields(names, fields@, 0, u, pin),
    }
}

/// The same for the expressions from the `i`-th on.
pub open spec fn uses_exprs(names: ResolvedNames, xs: Seq<Expr>, i: int, u: Uses, pin: bool) -> Uses
    decreases exprs_size(xs, i), 1nat,
{
    if 0 <= i < xs.len() {
        uses_exprs(names, xs, i + 1, uses_expr(names, xs[i], u, pin), pin)
    } else {
        u
    }
}

/// The same for the template parts from the `i`-th on.
pub open spec fn uses_parts(names: ResolvedNames, s: Seq<TemplatePart>, i: int, u: Uses, pin: bool) -> Uses
    decreases parts_size(s, i), 1nat,
{
    if 0 <= i < s.len() {
        uses_parts(
            names,
            s,
            i + 1,
            match s[i] {
                TemplatePart::Expr(x) => uses_expr(names, x, u, pin),
                TemplatePart::Text => u,
            },
            pin,
        )
    } else {
        u
    }
}

/// The same for the arms from the `i`-th on.
pub open spec fn uses_arms(names: ResolvedNames, s: Seq<MatchArm>, i: int, u: Uses, pin: bool) -> Uses
    decreases arms_size(s, i), 1nat,
{
    if 0 <= i < s.len() {
        uses_arms(names, s, i + 1, uses_expr(names, s[i].body, u, pin), pin)
    } else {
        u
    }
}

/// The same for the field initializers from the `i`-th on.
pub open spec fn uses_fields(names: ResolvedNames, s: Seq<FieldInit>, i: int, u: Uses, pin: bool) -> Uses
    decreases fields_size(s, i), 1nat,
{
    if 0 <= i < s.len() {
        uses_fields(names, s, i + 1, uses_expr(names, s[i].value, u, pin), pin)
    } else {
        u
    }
}

/// The same for the statements from the `i`-th on.
pub open spec fn uses_stmts(names: ResolvedNames, s: Seq<Stmt>, i: int, u: Uses, pin: bool) -> Uses
    decreases stmts_size(s, i), 1nat,
{
    if 0 <= i < s.len() {
        uses_stmts(
            names,
            s,
            i + 1,
            match s[i] {
                Stmt::Let(l) => uses_expr(names, l.value, u, pin),
                Stmt::Expr(x) => uses_expr(names, x, u, pin),
            },
            pin,
        )
    } else {
        u
    }
}

/// The same for a block.
pub open spec fn uses_block(names: ResolvedNames, b: Block, u: Uses, pin: bool) -> Uses
    decreases block_size(b), 0nat,
{
    let u1 = uses_stmts(names, b.stmts@, 0, u, pin);
    match b.tail {
        Some(tail) => uses_expr(names, *tail, u1, pin),
        None => u1,
    }
}

/// Counted uses.
pub struct UseCounts {
    pub counts: Table<LocalId, usize>,
    pub pinned: Vec<LocalId>,
}

impl View for UseCounts {
    type V = Uses;

    open spec fn view(&self) -> Uses {
        Uses { counts: self.counts.pairs(), pinned: self.pinned.deep_view() }
    }
}

/// No uses.
pub open spec fn no_uses() -> Uses {
    Uses { counts: Seq::empty(), pinned: Seq::empty() }
}

impl UseCounts {
    pub fn new() -> (r: Self)
        ensures
            r@ == no_uses(),
    {
        let r = UseCounts { counts: Table::new(), pinned: Vec::new() };
        proof {
            assert(r@.pinned =~= Seq::empty());
        }
        r
    }

    fn count(&mut self, local: LocalId, pin: bool)
        ensures
            final(self)@ == used(old(self)@, local, pin),
    {
        let n: usize = match self.counts.get(&local) {
            Some(n) => *n,
            None => 0,
        };
        self.counts.insert(local, increment(n));
        if pin {
            add_new(&mut self.pinned, local);
        }
    }

    /// Counts the uses in a block.
    pub fn count_local_uses_in_block(&mut self, block: &Block, names: &ResolvedNames, pin: bool)
        ensures
            final(self)@ == uses_block(*names, *block, old(self)@, pin),
        decreases block_size(*block), 0nat,
    {
        let mut i: usize = 0;
        while i < block.stmts.len()
            invariant
                i <= block.stmts.len(),
                stmts_size(block.stmts@, i as int) <= stmts_size(block.stmts@, 0),
                uses_stmts(*names, block.stmts@, i as int, self@, pin) == uses_stmts(
                    *names,
                    block.stmts@,
                    0,
                    old(self)@,
                    pin,
                ),
            decreases block.stmts.len() - i,
        {
            match &block.stmts[i] {
                Stmt::Let(l) => self.count_local_uses_in_expr(&l.value, names, pin),
                Stmt::Expr(x) => self.count_local_uses_in_expr(x, names, pin),
            }
            i += 1;
        }
        if let Some(tail) = &block.tail {
            self.count_local_uses_in_expr(tail, names, pin);
        }
    }

    fn count_all(&mut self, xs: &Vec<Expr>, names: &ResolvedNames, pin: bool)
        ensures
            final(self)@ == uses_exprs(*names, xs@, 0, old(self)@, pin),
        decreases exprs_size(xs@, 0), 1nat,
    {
        let mut i: usize = 0;
        while i < xs.len()
            invariant
                i <= xs.len(),
                exprs_size(xs@, i as int) <= exprs_size(xs@, 0),
                uses_exprs(*names, xs@, i as int, self@, pin) == uses_exprs(*names, xs@, 0, old(self)@, pin),
            decreases xs.len() - i,
        {
            self.count_local_uses_in_expr(&xs[i], names, pin);
            i += 1;
        }
    }

    fn count_parts(&mut self, parts: &Vec<TemplatePart>, names: &ResolvedNames, pin: bool)
        ensures
            final(self)@ == uses_parts(*names, parts@, 0, old(self)@, pin),
        decreases parts_size(parts@, 0), 1nat,
    {
        let mut i: usize = 0;
        while i < parts.len()
            invariant
                i <= parts.len(),
                parts_size(parts@, i as int) <= parts_size(parts@, 0),
                uses_parts(*names, parts@, i as int, self@, pin) == uses_parts(*names, parts@, 0, old(self)@, pin),
            decreases parts.len() - i,
        {
            if let TemplatePart::Expr(x) = &parts[i] {
                self.count_local_uses_in_expr(x, names, pin);
            }
            i += 1;
        }
    }

    fn count_arms(&mut self, arms: &Vec<MatchArm>, names: &ResolvedNames, pin: bool)
        ensures
            final(self)@ == uses_arms(*names, arms@, 0, old(self)@, pin),
        decreases arms_size(arms@, 0), 1nat,
    {
        let mut i: usize = 0;
        while i < arms.len()
            invariant
                i <= arms.len(),
                arms_size(arms@, i as int) <= arms_size(arms@, 0),
                uses_arms(*names, arms@, i as int, self@, pin) == uses_arms(*names, arms@, 0, old(self)@, pin),
            decreases arms.len() - i,
        {
            self.count_local_uses_in_expr(&arms[i].body, names, pin);
            i += 1;
        }
    }

    fn count_fields(&mut self, fields: &Vec<FieldInit>, names: &ResolvedNames, pin: bool)
        ensures
            final(self)@ == uses_fields(*names, fields@, 0, old(self)@, pin),
        decreases fields_size(fields@, 0), 1nat,
    {
        let mut i: usize = 0;
        while i < fields.len()
            invariant
                i <= fields.len(),
                fields_size(fields@, i as int) <= fields_size(fields@, 0),
                uses_fields(*names, fields@, i as int, self@, pin) == uses_fields(
                    *names,
                    fields@,
                    0,
                    old(self)@,
                    pin,
                ),
            decreases fields.len() - i,
        {
            self.count_local_uses_in_expr(&fields[i].value, names, pin);
            i += 1;
        }
    }

    /// Counts the uses in an expression.
    pub fn count_local_uses_in_expr(&mut self, expr: &Expr, names: &ResolvedNames, pin: bool)
        ensures
            final(self)@ == uses_expr(*names, *expr, old(self)@, pin),
        decreases expr_size(*expr), 0nat,
    {
        match &expr.kind {
            ExprKind::Literal(_) | ExprKind::Continue => {},
            ExprKind::Path(path) => {
                if let Some(res) = names.path_of(path.id) {
                    if let Resolution::Local(local) = res.base {
                        self.count(local, pin);
                    }
                }
            },
            ExprKind::Tuple(xs) => self.count_all(xs, names, pin),
            ExprKind::Array(xs) => self.count_all(xs, names, pin),
            ExprKind::FixedArray(xs) => self.count_all(xs, names, pin),
            ExprKind::Await(a) => self.count_local_uses_in_expr(a, names, pin),
            ExprKind::StringTemplate(parts) => self.count_parts(parts, names, pin),
            ExprKind::RawBorrow { mutable: _, place } => self.count_local_uses_in_expr(place, names, pin),
            ExprKind::RawDeref(a) => self.count_local_uses_in_expr(a, names, pin),
            ExprKind::Unary { op: _, expr: a } => self.count_local_uses_in_expr(a, names, pin),
            ExprKind::Binary { op: _, lhs, rhs } => {
                self.count_local_uses_in_expr(lhs, names, pin);
                self.count_local_uses_in_expr(rhs, names, pin);
            },
            ExprKind::Assign { target, value } => {
                self.count_local_uses_in_expr(target, names, pin);
                self.count_local_uses_in_expr(value, names, pin);
            },
            ExprKind::Call { callee, generic_args: _, args } => {
                self.count_local_uses_in_expr(callee, names, pin);
                self.count_all(args, names, pin);
            },
            ExprKind::MutArg(a) => self.count_local_uses_in_expr(a, names, pin),
            ExprKind::MethodCall { receiver, method: _, generic_args: _, args } => {
                self.count_local_uses_in_expr(receiver, names, pin);
                self.count_all(args, names, pin);
            },
            ExprKind::Field { base, field: _ } => self.count_local_uses_in_expr(base, names, pin),
            ExprKind::Index { base, index } => {
                self.count_local_uses_in_expr(base, names, pin);
                self.count_local_uses_in_expr(index, names, pin);
            },
            ExprKind::If { cond, then_branch, else_branch } => {
                self.count_local_uses_in_expr(cond, names, pin);
                self.count_local_uses_in_block(then_branch, names, pin);
                if let Some(e) = else_branch {
                    self.count_local_uses_in_expr(e, names, pin);
                }
            },
            ExprKind::Match { scrutinee, arms } => {
                self.count_local_uses_in_expr(scrutinee, names, pin);
                self.count_arms(arms, names, pin);
            },
            ExprKind::Block(b) => self.count_local_uses_in_block(b, names, pin),
            ExprKind::Unsafe(b) => self.count_local_uses_in_block(b, names, pin),
            ExprKind::While { cond, body } => {
                self.count_local_uses_in_expr(cond, names, pin);
                self.count_local_uses_in_block(body, names, pin);
            },
            ExprKind::ForIn { pattern: _, iter, body } => {
                self.count_local_uses_in_expr(iter, names, pin);
                self.count_local_uses_in_block(body, names, pin);
            },
            ExprKind::Loop { body } => self.count_local_uses_in_block(body, names, pin),
            ExprKind::Break(v) => {
                if let Some(a) = v {
                    self.count_local_uses_in_expr(a, names, pin);
                }
            },
            ExprKind::Return(v) => {
                if let Some(a) = v {
                    self.count_local_uses_in_expr(a, names, pin);
                }
            },
            ExprKind::Closure { move_capture: _, mut_capture: _, params: _, body } => {
                self.count_local_uses_in_expr(body, names, true)
            },
            ExprKind::StructLit { path: _, fields, owned: _ } => self.count_fields(fields, names, pin),
        }
    }
}

/// How often a local is named in an expression, inside closures too.
pub open spec fn times(names: ResolvedNames, x: Expr, l: LocalId) -> nat
    decreases expr_size(x), 0nat,
{
    match x.kind {
        ExprKind::Path(path) => match names.path(path.id) {
            Some(res) => if res.base == Resolution::Local(l) {
                1
            } else {
                0
            },
            None => 0,
        },
        ExprKind::Tuple(xs) => times_in_exprs(names, xs@, 0, l),
        ExprKind::Array(xs) => times_in_exprs(names, xs@, 0, l),
        ExprKind::FixedArray(xs) => times_in_exprs(names, xs@, 0, l),
        ExprKind::Await(a) => times(names, *a, l),
        ExprKind::StringTemplate(parts) => times_in_parts(names, parts@, 0, l),
        ExprKind::RawBorrow { mutable: _, place } => times(names, *place, l),
        ExprKind::RawDeref(a) => times(names, *a, l),
        ExprKind::Unary { op: _, expr } => times(names, *expr, l),
        ExprKind::Binary { op: _, lhs, rhs } => times(names, *lhs, l) + times(names, *rhs, l),
        ExprKind::Assign { target, value } => times(names, *target, l) + times(names, *value, l),
        ExprKind::Call { callee, generic_args: _, args } => times(names, *callee, l) + times_in_exprs(names, args@, 0, l),
        ExprKind::MutArg(a) => times(names, *a, l),
        ExprKind::MethodCall { receiver, method: _, generic_args: _, args } => times(names, *receiver, l) + times_in_exprs(names, args@, 0, l),
        ExprKind::Field { base, field: _ } => times(names, *base, l),
        ExprKind::Index { base, index } => times(names, *base, l) + times(names, *index, l),
        ExprKind::If { cond, then_branch, else_branch } => times(names, *cond, l) + times_in_block(names, then_branch, l) + (match else_branch {
                Some(e) => times(names, *e, l),
                None => 0nat,
            }),
        ExprKind::Match { scrutinee, arms } => times(names, *scrutinee, l) + times_in_arms(names, arms@, 0, l),
        ExprKind::Block(b) => times_in_block(names, b, l),
        ExprKind::Unsafe(b) => times_in_block(names, b, l),
        ExprKind::While { cond, body } => times(names, *cond, l) + times_in_block(names, body, l),
        ExprKind::ForIn { pattern: _, iter, body } => times(names, *iter, l) + times_in_block(names, body, l),
        ExprKind::Loop { body } => times_in_block(names, body, l),
        ExprKind::Break(v) => (match v {
                Some(e) => times(names, *e, l),
                None => 0nat,
            }),
        ExprKind::Return(v) => (match v {
                Some(e) => times(names, *e, l),
                None => 0nat,
            }),
        ExprKind::Closure { move_capture: _, mut_capture: _, params: _, body } => times(names, *body, l),
        ExprKind::StructLit { path: _, fields, owned: _ } => times_in_fields(names, fields@, 0, l),
        ExprKind::Literal(_) | ExprKind::Continue => 0,
    }
}

/// The same for the expressions from the `i`-th on.
pub open spec fn times_in_exprs(names: ResolvedNames, s: Seq<Expr>, i: int, l: LocalId) -> nat
    decreases exprs_size(s, i), 1nat,
{
    if 0 <= i < s.len() {
        times(names, s[i], l) + times_in_exprs(names, s, i + 1, l)
    } else {
        0
    }
}

/// The same for the template parts from the `i`-th on.
pub open spec fn times_in_parts(names: ResolvedNames, s: Seq<TemplatePart>, i: int, l: LocalId) -> nat
    decreases parts_size(s, i), 1nat,
{
    if 0 <= i < s.len() {
        (match s[i] {
            TemplatePart::Expr(x) => times(names, x, l),
            TemplatePart::Text => 0nat,
        }) + times_in_parts(names, s, i + 1, l)
    } else {
        0
    }
}

/// The same for the arms from the `i`-th on.
pub open spec fn times_in_arms(names: ResolvedNames, s: Seq<MatchArm>, i: int, l: LocalId) -> nat
    decreases arms_size(s, i), 1nat,
{
    if 0 <= i < s.len() {
        times(names, s[i].body, l) + times_in_arms(names, s, i + 1, l)
    } else {
        0
    }
}

/// The same for the field initializers from the `i`-th on.
pub open spec fn times_in_fields(names: ResolvedNames, s: Seq<FieldInit>, i: int, l: LocalId) -> nat
    decreases fields_size(s, i), 1nat,
{
    if 0 <= i < s.len() {
        times(names, s[i].value, l) + times_in_fields(names, s, i + 1, l)
    } else {
        0
    }
}

/// The same for the statements from the `i`-th on.
pub open spec fn times_in_stmts(names: ResolvedNames, s: Seq<Stmt>, i: int, l: LocalId) -> nat
    decreases stmts_size(s, i), 1nat,
{
    if 0 <= i < s.len() {
        (match s[i] {
            Stmt::Let(d) => times(names, d.value, l),
            Stmt::Expr(x) => times(names, x, l),
        }) + times_in_stmts(names, s, i + 1, l)
    } else {
        0
    }
}

/// The same for a block.
pub open spec fn times_in_block(names: ResolvedNames, b: Block, l: LocalId) -> nat
    decreases block_size(b), 0nat,
{
    times_in_stmts(names, b.stmts@, 0, l) + (match b.tail {
        Some(tail) => times(names, *tail, l),
        None => 0nat,
    })
}

/// The count of a local.
pub open spec fn count_of(u: Uses, l: LocalId) -> usize {
    match pair_get(u.counts, l) {
        Some(n) => n,
        None => 0,
    }
}

/// `n` and `k` more, up to the largest count.
pub open spec fn up_by(n: usize, k: nat) -> usize {
    if n + k <= usize::MAX {
        (n + k) as usize
    } else {
        usize::MAX
    }
}

proof fn lemma_used(u: Uses, local: LocalId, pin: bool, l: LocalId)
    ensures
        count_of(used(u, local, pin), l) == up_by(
            count_of(u, l),
            if local == l {
                1
            } else {
                0
            },
        ),
{
    let n = one_more(count_of(u, local));
    lemma_pair_set_map(u.counts, local, n);
    let s = u.counts;
    let t = pair_set(s, local, n);
    assert(pair_map(t).contains_key(l) == pair_map(s).insert(local, n).contains_key(l));
    assert(pair_get(t, l) is Some == pair_map(t).contains_key(l));
    assert(pair_get(s, l) is Some == pair_map(s).contains_key(l));
    if pair_map(t).contains_key(l) {
        assert(pair_map(t)[l] == pair_map(s).insert(local, n)[l]);
    }
}

/// Counting an expression adds to a local's count how often the local is named
/// in it, whatever was counted before and whatever is pinned.
pub proof fn law_counts_add_up(names: ResolvedNames, x: Expr, u: Uses, pin: bool, l: LocalId)
    ensures
        count_of(uses_expr(names, x, u, pin), l) == up_by(count_of(u, l), times(names, x, l)),
    decreases expr_size(x), 0nat,
{
    match x.kind {
        ExprKind::Path(path) => {
            if let Some(res) = names.path(path.id) {
                if let Resolution::Local(local) = res.base {
                    lemma_used(u, local, pin, l);
                }
            }
        },
        ExprKind::Tuple(xs) => {
            exprs_add_up(names, xs@, 0, u, pin, l);
        },
        ExprKind::Array(xs) => {
            exprs_add_up(names, xs@, 0, u, pin, l);
        },
        ExprKind::FixedArray(xs) => {
            exprs_add_up(names, xs@, 0, u, pin, l);
        },
        ExprKind::Await(a) => {
            law_counts_add_up(names, *a, u, pin, l);
        },
        ExprKind::StringTemplate(parts) => {
            parts_add_up(names, parts@, 0, u, pin, l);
        },
        ExprKind::RawBorrow { mutable: _, place } => {
            law_counts_add_up(names, *place, u, pin, l);
        },
        ExprKind::RawDeref(a) => {
            law_counts_add_up(names, *a, u, pin, l);
        },
        ExprKind::Unary { op: _, expr } => {
            law_counts_add_up(names, *expr, u, pin, l);
        },
        ExprKind::Binary { op: _, lhs, rhs } => {
            law_counts_add_up(names, *lhs, u, pin, l);
            let u1 = uses_expr(names, *lhs, u, pin);
            law_counts_add_up(names, *rhs, u1, pin, l);
        },
        ExprKind::Assign { target, value } => {
            law_counts_add_up(names, *target, u, pin, l);
            let u1 = uses_expr(names, *target, u, pin);
            law_counts_add_up(names, *value, u1, pin, l);
        },
        ExprKind::Call { callee, generic_args: _, args } => {
            law_counts_add_up(names, *callee, u, pin, l);
            let u1 = uses_expr(names, *callee, u, pin);
            exprs_add_up(names, args@, 0, u1, pin, l);
        },
        ExprKind::MutArg(a) => {
            law_counts_add_up(names, *a, u, pin, l);
        },
        ExprKind::MethodCall { receiver, method: _, generic_args: _, args } => {
            law_counts_add_up(names, *receiver, u, pin, l);
            let u1 = uses_expr(names, *receiver, u, pin);
            exprs_add_up(names, args@, 0, u1, pin, l);
        },
        ExprKind::Field { base, field: _ } => {
            law_counts_add_up(names, *base, u, pin, l);
        },
        ExprKind::Index { base, index } => {
            law_counts_add_up(names, *base, u, pin, l);
            let u1 = uses_expr(names, *base, u, pin);
            law_counts_add_up(names, *index, u1, pin, l);
        },
        ExprKind::If { cond, then_branch, else_branch } => {
            law_counts_add_up(names, *cond, u, pin, l);
            let u1 = uses_expr(names, *cond, u, pin);
            block_adds_up(names, then_branch, u1, pin, l);
            let u2 = uses_block(names, then_branch, u1, pin);
            if let Some(e) = else_branch {
                law_counts_add_up(names, *e, u2, pin, l);
            }
        },
        ExprKind::Match { scrutinee, arms } => {
            law_counts_add_up(names, *scrutinee, u, pin, l);
            let u1 = uses_expr(names, *scrutinee, u, pin);
            arms_add_up(names, arms@, 0, u1, pin, l);
        },
        ExprKind::Block(b) => {
            block_adds_up(names, b, u, pin, l);
        },
        ExprKind::Unsafe(b) => {
            block_adds_up(names, b, u, pin, l);
        },
        ExprKind::While { cond, body } => {
            law_counts_add_up(names, *cond, u, pin, l);
            let u1 = uses_expr(names, *cond, u, pin);
            block_adds_up(names, body, u1, pin, l);
        },
        ExprKind::ForIn { pattern: _, iter, body } => {
            law_counts_add_up(names, *iter, u, pin, l);
            let u1 = uses_expr(names, *iter, u, pin);
            block_adds_up(names, body, u1, pin, l);
        },
        ExprKind::Loop { body } => {
            block_adds_up(names, body, u, pin, l);
        },
        ExprKind::Break(v) => {
            if let Some(e) = v {
                law_counts_add_up(names, *e, u, pin, l);
            }
        },
        ExprKind::Return(v) => {
            if let Some(e) = v {
                law_counts_add_up(names, *e, u, pin, l);
            }
        },
        ExprKind::Closure { move_capture: _, mut_capture: _, params: _, body } => {
            law_counts_add_up(names, *body, u, true, l);
        },
        ExprKind::StructLit { path: _, fields, owned: _ } => {
            fields_add_up(names, fields@, 0, u, pin, l);
        },
        ExprKind::Literal(_) | ExprKind::Continue => {},
    }
}

proof fn exprs_add_up(names: ResolvedNames, s: Seq<Expr>, i: int, u: Uses, pin: bool, l: LocalId)
    ensures
        count_of(uses_exprs(names, s, i, u, pin), l) == up_by(count_of(u, l), times_in_exprs(names, s, i, l)),
    decreases exprs_size(s, i), 1nat,
{
    if 0 <= i < s.len() {
        law_counts_add_up(names, s[i], u, pin, l);
        exprs_add_up(names, s, i + 1, uses_expr(names, s[i], u, pin), pin, l);
    }
}

proof fn parts_add_up(names: ResolvedNames, s: Seq<TemplatePart>, i: int, u: Uses, pin: bool, l: LocalId)
    ensures
        count_of(uses_parts(names, s, i, u, pin), l) == up_by(count_of(u, l), times_in_parts(names, s, i, l)),
    decreases parts_size(s, i), 1nat,
{
    if 0 <= i < s.len() {
        match s[i] {
            TemplatePart::Expr(x) => {
                law_counts_add_up(names, x, u, pin, l);
                parts_add_up(names, s, i + 1, uses_expr(names, x, u, pin), pin, l);
            },
            TemplatePart::Text => {
                parts_add_up(names, s, i + 1, u, pin, l);
            },
        }
    }
}

proof fn arms_add_up(names: ResolvedNames, s: Seq<MatchArm>, i: int, u: Uses, pin: bool, l: LocalId)
    ensures
        count_of(uses_arms(names, s, i, u, pin), l) == up_by(count_of(u, l), times_in_arms(names, s, i, l)),
    decreases arms_size(s, i), 1nat,
{
    if 0 <= i < s.len() {
        law_counts_add_up(names, s[i].body, u, pin, l);
        arms_add_up(names, s, i + 1, uses_expr(names, s[i].body, u, pin), pin, l);
    }
}

proof fn fields_add_up(names: ResolvedNames, s: Seq<FieldInit>, i: int, u: Uses, pin: bool, l: LocalId)
    ensures
        count_of(uses_fields(names, s, i, u, pin), l) == up_by(count_of(u, l), times_in_fields(names, s, i, l)),
    decreases fields_size(s, i), 1nat,
{
    if 0 <= i < s.len() {
        law_counts_add_up(names, s[i].value, u, pin, l);
        fields_add_up(names, s, i + 1, uses_expr(names, s[i].value, u, pin), pin, l);
    }
}

proof fn stmts_add_up(names: ResolvedNames, s: Seq<Stmt>, i: int, u: Uses, pin: bool, l: LocalId)
    ensures
        count_of(uses_stmts(names, s, i, u, pin), l) == up_by(count_of(u, l), times_in_stmts(names, s, i, l)),
    decreases stmts_size(s, i), 1nat,
{
    if 0 <= i < s.len() {
        match s[i] {
            Stmt::Let(d) => {
                law_counts_add_up(names, d.value, u, pin, l);
                stmts_add_up(names, s, i + 1, uses_expr(names, d.value, u, pin), pin, l);
            },
            Stmt::Expr(x) => {
                law_counts_add_up(names, x, u, pin, l);
                stmts_add_up(names, s, i + 1, uses_expr(names, x, u, pin), pin, l);
            },
        }
    }
}

proof fn block_adds_up(names: ResolvedNames, b: Block, u: Uses, pin: bool, l: LocalId)
    ensures
        count_of(uses_block(names, b, u, pin), l) == up_by(count_of(u, l), times_in_block(names, b, l)),
    decreases block_size(b), 0nat,
{
    stmts_add_up(names, b.stmts@, 0, u, pin, l);
    if let Some(tail) = b.tail {
        law_counts_add_up(names, *tail, uses_stmts(names, b.stmts@, 0, u, pin), pin, l);
    }
}

} // verus!
