//! Values with a mathematical view that can be compared and copied by it.

use vstd::prelude::*;

verus! {

/// A value that can be compared with another by their views, and copied so
/// that the copy has the same view.
pub trait Model: Sized + View {
    /// Whether the two values have the same view.
    fn same(&self, other: &Self) -> (r: bool)
        ensures
            r == (self@ == other@),
    ;

    /// A copy with the same view.
    fn dup(&self) -> (r: Self)
        ensures
            r@ == self@,
    ;
}

/// The views of a list of values.
pub open spec fn views<T: View>(s: Seq<T>) -> Seq<T::V> {
    s.map_values(|x: T| x@)
}

/// The view of a value that may be absent.
pub open spec fn opt_view<T: View>(o: Option<T>) -> Option<T::V> {
    match o {
        Some(x) => Some(x@),
        None => None,
    }
}

impl Model for String {
    fn same(&self, other: &Self) -> (r: bool) {
        *self == *other
    }

    fn dup(&self) -> (r: Self) {
        self.clone()
    }
}

/// Whether two lists have the same views, item by item.
pub fn same_vec<T: Model>(a: &Vec<T>, b: &Vec<T>) -> (r: bool)
    ensures
        r == (views(a@) == views(b@)),
{
    if a.len() != b.len() {
        assert(views(a@).len() != views(b@).len());
        return false;
    }
    let n = a.len();
    let mut i: usize = 0;
    while i < n
        invariant
            i <= n,
            n == a.len(),
            n == b.len(),
            forall|x: int| 0 <= x < i ==> a@[x]@ == b@[x]@,
        decreases n - i,
    {
        if !a[i].same(&b[i]) {
            assert(views(a@)[i as int] == a@[i as int]@);
            assert(views(b@)[i as int] == b@[i as int]@);
            return false;
        }
        i = i + 1;
    }
    assert(views(a@) =~= views(b@));
    true
}

/// A copy of a list, item by item.
pub fn dup_vec<T: Model>(a: &Vec<T>) -> (r: Vec<T>)
    ensures
        views(r@) == views(a@),
{
    let n = a.len();
    let mut out: Vec<T> = Vec::new();
    let mut i: usize = 0;
    while i < n
        invariant
            i <= n,
            n == a.len(),
            out.len() == i,
            forall|x: int| 0 <= x < i ==> out@[x]@ == a@[x]@,
        decreases n - i,
    {
        out.push(a[i].dup());
        i = i + 1;
    }
    assert(views(out@) =~= views(a@));
    out
}

/// Whether two optional values have the same view.
pub fn same_opt<T: Model>(a: &Option<T>, b: &Option<T>) -> (r: bool)
    ensures
        r == (opt_view(*a) == opt_view(*b)),
{
    match (a, b) {
        (Some(x), Some(y)) => x.same(y),
        (None, None) => true,
        _ => false,
    }
}

/// A copy of an optional value.
pub fn dup_opt<T: Model>(a: &Option<T>) -> (r: Option<T>)
    ensures
        opt_view(r) == opt_view(*a),
{
    match a {
        Some(x) => Some(x.dup()),
        None => None,
    }
}

/// Appending to a list appends to its views.
pub proof fn lemma_views_push<T: View>(s: Seq<T>, x: T)
    ensures
        views(s.push(x)) == views(s).push(x@),
{
    assert(views(s.push(x)) =~= views(s).push(x@));
}

/// Whether a value with the view of `x` is in the list.
pub fn contains<T: Model>(list: &Vec<T>, x: &T) -> (r: bool)
    ensures
        r == views(list@).contains(x@),
{
    let n = list.len();
    let mut i: usize = 0;
    while i < n
        invariant
            i <= n,
            n == list.len(),
            forall|k: int| 0 <= k < i ==> views(list@)[k] != x@,
        decreases n - i,
    {
        assert(views(list@)[i as int] == list@[i as int]@);
        if list[i].same(x) {
            return true;
        }
        i = i + 1;
    }
    false
}

/// Those of the first `n` items of `s` that `keep` holds of, in their order.
pub open spec fn kept<T>(s: Seq<T>, keep: spec_fn(T) -> bool, n: int) -> Seq<T>
    decreases n,
{
    if n <= 0 {
        Seq::empty()
    } else if keep(s[n - 1]) {
        kept(s, keep, n - 1).push(s[n - 1])
    } else {
        kept(s, keep, n - 1)
    }
}

/// Those of the items of `s` that `keep` holds of, in their order.
pub open spec fn all_kept<T>(s: Seq<T>, keep: spec_fn(T) -> bool) -> Seq<T> {
    kept(s, keep, s.len() as int)
}

/// The place, from `from` on, of the first item of `s` that equals `x`.
pub open spec fn first_index<T>(s: Seq<T>, x: T, from: int) -> Option<int>
    decreases s.len() - from,
{
    if from < 0 || from >= s.len() {
        None
    } else if s[from] == x {
        Some(from)
    } else {
        first_index(s, x, from + 1)
    }
}

/// The place of the first item of the list that has the view of `x`.
pub fn position<T: Model>(list: &Vec<T>, x: &T) -> (r: Option<usize>)
    ensures
        match r {
            Some(k) => first_index(views(list@), x@, 0) == Some(k as int) && k < list.len(),
            None => first_index(views(list@), x@, 0) is None,
        },
{
    let n = list.len();
    let mut i: usize = 0;
    while i < n
        invariant
            i <= n,
            n == list.len(),
            first_index(views(list@), x@, 0) == first_index(views(list@), x@, i as int),
        decreases n - i,
    {
        assert(views(list@)[i as int] == list@[i as int]@);
        if list[i].same(x) {
            return Some(i);
        }
        i = i + 1;
    }
    None
}

} // verus!
