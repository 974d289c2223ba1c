//! Values that are compared and copied by what they denote.
use vstd::prelude::*;

verus! {

/// A value that can be copied: `dup` produces another value with the same
/// meaning.
pub trait Dup: DeepView + Sized {
    fn dup(&self) -> (r: Self)
        ensures
            r.deep_view() == self.deep_view(),
    ;
}

/// A value whose meaning is its deep view: `same` decides equality of
/// meanings.
pub trait Datum: Dup {
    fn same(&self, other: &Self) -> (r: bool)
        ensures
            r == (self.deep_view() == other.deep_view()),
    ;
}

impl Dup for u32 {
    fn dup(&self) -> (r: Self) {
        *self
    }
}

impl Datum for u32 {
    fn same(&self, other: &Self) -> (r: bool) {
        *self == *other
    }
}

impl Dup for usize {
    fn dup(&self) -> (r: Self) {
        *self
    }
}

impl Datum for usize {
    fn same(&self, other: &Self) -> (r: bool) {
        *self == *other
    }
}

impl Dup for bool {
    fn dup(&self) -> (r: Self) {
        *self
    }
}

impl Datum for bool {
    fn same(&self, other: &Self) -> (r: bool) {
        *self == *other
    }
}

impl Dup for String {
    fn dup(&self) -> (r: Self) {
        self.clone()
    }
}

impl Datum for String {
    fn same(&self, other: &Self) -> (r: bool) {
        *self == *other
    }
}

impl<A: Dup, B: Dup> Dup for (A, B) {
    fn dup(&self) -> (r: Self) {
        (self.0.dup(), self.1.dup())
    }
}

impl<A: Datum, B: Datum> Datum for (A, B) {
    fn same(&self, other: &Self) -> (r: bool) {
        self.0.same(&other.0) && self.1.same(&other.1)
    }
}

impl<A: Dup, B: Dup, C: Dup> Dup for (A, B, C) {
    fn dup(&self) -> (r: Self) {
        (self.0.dup(), self.1.dup(), self.2.dup())
    }
}

impl<A: Datum, B: Datum, C: Datum> Datum for (A, B, C) {
    fn same(&self, other: &Self) -> (r: bool) {
        self.0.same(&other.0) && self.1.same(&other.1) && self.2.same(&other.2)
    }
}

impl<A: Dup> Dup for Option<A> {
    fn dup(&self) -> (r: Self) {
        match self {
            Some(a) => Some(a.dup()),
            None => None,
        }
    }
}

impl<A: Datum> Datum for Option<A> {
    fn same(&self, other: &Self) -> (r: bool) {
        match (self, other) {
            (Some(a), Some(b)) => a.same(b),
            (None, None) => true,
            _ => false,
        }
    }
}

impl<A: Dup> Dup for Vec<A> {
    fn dup(&self) -> (r: Self) {
        let mut out: Vec<A> = Vec::new();
        let mut k: usize = 0;
        while k < self.len()
            invariant
                k <= self.len(),
                out.len() == k,
                forall|i: int| 0 <= i < k ==> (#[trigger] out@[i]).deep_view() == self@[i].deep_view(),
            decreases self.len() - k,
        {
            out.push(self[k].dup());
            k += 1;
        }
        assert(out.deep_view() =~= self.deep_view());
        out
    }
}

impl<A: Datum> Datum for Vec<A> {
    fn same(&self, other: &Self) -> (r: bool) {
        if self.len() != other.len() {
            assert(self.deep_view().len() != other.deep_view().len());
            return false;
        }
        let mut k: usize = 0;
        while k < self.len()
            invariant
                k <= self.len(),
                self.len() == other.len(),
                forall|i: int|
                    0 <= i < k ==> (#[trigger] self.deep_view()[i]) == other.deep_view()[i],
            decreases self.len() - k,
        {
            if !self[k].same(&other[k]) {
                assert(self.deep_view()[k as int] != other.deep_view()[k as int]);
                return false;
            }
            k += 1;
        }
        assert(self.deep_view() =~= other.deep_view());
        true
    }
}

/// The deep view of a vector has the vector's length.
pub broadcast proof fn lemma_deep_len<A: DeepView>(v: Vec<A>)
    ensures
        (#[trigger] v.deep_view()).len() == v@.len(),
{
}

/// Appends `a`.
pub fn put<A: DeepView>(v: &mut Vec<A>, a: A)
    ensures
        final(v)@ == old(v)@.push(a),
        final(v).deep_view() == old(v).deep_view().push(a.deep_view()),
{
    let ghost before = *v;
    v.push(a);
    proof {
        assert(v.deep_view() =~= before.deep_view().push(a.deep_view()));
    }
}

/// A copy of `a` followed by `b`.
pub fn copy_then<A: Dup>(a: &Vec<A>, b: Vec<A>) -> (r: Vec<A>)
    ensures
        r.deep_view() == a.deep_view() + b.deep_view(),
{
    let mut out = a.dup();
    let mut rest = b;
    out.append(&mut rest);
    proof {
        assert(out.deep_view() =~= a.deep_view() + b.deep_view());
    }
    out
}

/// `s` with `x` appended unless it already occurs.
pub open spec fn push_new<A>(s: Seq<A>, x: A) -> Seq<A> {
    if s.contains(x) {
        s
    } else {
        s.push(x)
    }
}

/// `s` without its first occurrence of `x`.
pub open spec fn drop_one<A>(s: Seq<A>, x: A) -> Seq<A>
    decreases s.len(),
{
    if s.len() == 0 {
        s
    } else if s[0] == x {
        s.drop_first()
    } else {
        seq![s[0]] + drop_one(s.drop_first(), x)
    }
}

/// Whether `x` occurs in `v`.
pub fn occurs<A: Datum>(v: &Vec<A>, x: &A) -> (r: bool)
    ensures
        r == v.deep_view().contains(x.deep_view()),
{
    let mut k: usize = 0;
    while k < v.len()
        invariant
            k <= v.len(),
            forall|i: int| 0 <= i < k ==> (#[trigger] v.deep_view()[i]) != x.deep_view(),
        decreases v.len() - k,
    {
        if v[k].same(x) {
            assert(v.deep_view()[k as int] == x.deep_view());
            return true;
        }
        k += 1;
    }
    false
}

/// Appends `x` unless it already occurs.
pub fn add_new<A: Datum>(v: &mut Vec<A>, x: A)
    ensures
        final(v).deep_view() == push_new(old(v).deep_view(), x.deep_view()),
{
    if !occurs(v, &x) {
        let ghost before = *v;
        v.push(x);
        proof {
            assert(v.deep_view() =~= before.deep_view().push(x.deep_view()));
        }
    }
}

/// Removes the first occurrence of `x`.
pub fn take_out<A: Datum>(v: &mut Vec<A>, x: &A)
    ensures
        final(v).deep_view() == drop_one(old(v).deep_view(), x.deep_view()),
{
    let mut k: usize = 0;
    let ghost all = v.deep_view();
    proof {
        assert(all.skip(0) =~= all);
        assert(all.take(0) + drop_one(all.skip(0), x.deep_view()) =~= drop_one(all, x.deep_view()));
    }
    while k < v.len()
        invariant
            k <= v.len(),
            v.deep_view() == all,
            old(v).deep_view() == all,
            all.take(k as int) + drop_one(all.skip(k as int), x.deep_view()) == drop_one(all, x.deep_view()),
        decreases v.len() - k,
    {
        proof {
            assert(all.skip(k as int)[0] == all[k as int]);
            assert(all.skip(k as int).drop_first() =~= all.skip(k + 1));
            assert(all.take(k as int) + (seq![all[k as int]] + drop_one(all.skip(k + 1), x.deep_view()))
                =~= all.take(k + 1) + drop_one(all.skip(k + 1), x.deep_view()));
        }
        if v[k].same(x) {
            v.remove(k);
            proof {
                assert(drop_one(all.skip(k as int), x.deep_view()) == all.skip(k + 1));
                assert(v.deep_view() =~= all.take(k as int) + all.skip(k + 1));
            }
            return;
        }
        k += 1;
    }
    proof {
        assert(all.take(k as int) + drop_one(all.skip(k as int), x.deep_view()) =~= all);
    }
}

} // verus!
