//! Comparing, searching and de-duplicating vectors of values by their views.

use vstd::prelude::*;

verus! {

/// Values that can be compared and copied by their views.
pub trait ViewEq: View + Sized {
    /// Whether the two values have the same view.
    fn view_eq(&self, other: &Self) -> (b: bool)
        ensures
            b == (self@ == other@),
    ;

    /// A copy with the same view.
    fn duplicate(&self) -> (r: Self)
        ensures
            r@ == self@,
    ;
}

/// The views of the elements of `s`.
pub open spec fn views<T: View>(s: Seq<T>) -> Seq<T::V> {
    s.map_values(|t: T| t@)
}

/// `s` with every run of equal neighbours shortened to a single element.
pub open spec fn dedup_runs<A>(s: Seq<A>) -> Seq<A>
    decreases s.len(),
{
    if s.len() <= 1 {
        s
    } else if s.last() == s[s.len() - 2] {
        dedup_runs(s.drop_last())
    } else {
        dedup_runs(s.drop_last()).push(s.last())
    }
}

/// No two elements of `s` are equal.
pub open spec fn all_distinct<A>(s: Seq<A>) -> bool {
    forall|i: int, j: int| 0 <= i < s.len() && 0 <= j < s.len() && i != j ==> s[i] != s[j]
}

/// `i` is the first position of `x` in `s`.
pub open spec fn is_first_index<A>(s: Seq<A>, x: A, i: int) -> bool {
    0 <= i < s.len() && s[i] == x && forall|j: int| 0 <= j < i ==> s[j] != x
}

/// A sequence without equal neighbours keeps every run shortened once more.
pub proof fn lemma_dedup_runs_no_equal_neighbours<A>(s: Seq<A>)
    ensures
        forall|i: int| 0 <= i < dedup_runs(s).len() - 1 ==> #[trigger] dedup_runs(s)[i] != dedup_runs(s)[i + 1],
        dedup_runs(s).len() <= s.len(),
        s.len() > 0 ==> dedup_runs(s).len() > 0 && dedup_runs(s).last() == s.last(),
    decreases s.len(),
{
    if s.len() > 1 {
        lemma_dedup_runs_no_equal_neighbours(s.drop_last());
    }
}

/// Shortening the runs of a sequence whose elements are all distinct leaves
/// it as it is.
pub proof fn lemma_dedup_runs_distinct<A>(s: Seq<A>)
    requires
        all_distinct(s),
    ensures
        dedup_runs(s) == s,
    decreases s.len(),
{
    if s.len() > 1 {
        let t = s.drop_last();
        assert(all_distinct(t)) by {
            assert forall|i: int, j: int| 0 <= i < t.len() && 0 <= j < t.len() && i != j implies t[i] != t[j] by {
                assert(t[i] == s[i] && t[j] == s[j]);
            }
        }
        lemma_dedup_runs_distinct(t);
        assert(s.last() != s[s.len() - 2]);
        assert(t.push(s.last()) =~= s);
    }
}

/// A sequence without equal neighbours has no run to shorten.
pub proof fn lemma_dedup_runs_fixed<A>(s: Seq<A>)
    requires
        forall|i: int| 0 <= i < s.len() - 1 ==> #[trigger] s[i] != s[i + 1],
    ensures
        dedup_runs(s) == s,
    decreases s.len(),
{
    if s.len() > 1 {
        let t = s.drop_last();
        assert forall|i: int| 0 <= i < t.len() - 1 implies #[trigger] t[i] != t[i + 1] by {
            assert(t[i] == s[i] && t[i + 1] == s[i + 1]);
        }
        lemma_dedup_runs_fixed(t);
        assert(s[s.len() - 2] != s[s.len() - 1]);
        assert(t.push(s.last()) =~= s);
    }
}

/// `s` as choosing an element leaves it: unchanged when its elements are
/// all distinct, else with every run of equal neighbours shortened.
pub open spec fn settled<A>(s: Seq<A>) -> Seq<A> {
    if all_distinct(s) {
        s
    } else {
        dedup_runs(s)
    }
}

/// Shortening runs twice is shortening them once.
pub proof fn law_dedup_idempotent<A>(s: Seq<A>)
    ensures
        dedup_runs(dedup_runs(s)) == dedup_runs(s),
{
    lemma_dedup_runs_no_equal_neighbours(s);
    lemma_dedup_runs_fixed(dedup_runs(s));
}

/// The first position of an element with the same view as `x`.
pub fn position_of<T: ViewEq>(v: &Vec<T>, x: &T) -> (r: Option<usize>)
    ensures
        r matches Some(i) ==> is_first_index(views(v@), x@, i as int),
        r is None ==> forall|j: int| 0 <= j < v@.len() ==> v@[j]@ != x@,
{
    let mut i: usize = 0;
    while i < v.len()
        invariant
            i <= v@.len(),
            forall|j: int| 0 <= j < i ==> v@[j]@ != x@,
        decreases v@.len() - i,
    {
        if v[i].view_eq(x) {
            return Some(i);
        }
        i = i + 1;
    }
    None
}

/// Whether no two elements have the same view.
pub fn all_unique<T: ViewEq>(v: &Vec<T>) -> (b: bool)
    ensures
        b == all_distinct(views(v@)),
{
    let ghost w = views(v@);
    let mut i: usize = 0;
    while i < v.len()
        invariant
            i <= v@.len(),
            w == views(v@),
            forall|a: int, b: int| 0 <= a < i && 0 <= b < v@.len() && a != b ==> w[a] != w[b],
        decreases v@.len() - i,
    {
        let mut j: usize = 0;
        while j < v.len()
            invariant
                i < v@.len(),
                j <= v@.len(),
                w == views(v@),
                forall|a: int, b: int| 0 <= a < i && 0 <= b < v@.len() && a != b ==> w[a] != w[b],
                forall|b: int| 0 <= b < j && b != i ==> w[i as int] != w[b],
            decreases v@.len() - j,
        {
            if j != i && v[i].view_eq(&v[j]) {
                assert(w[i as int] == w[j as int]);
                return false;
            }
            j = j + 1;
        }
        i = i + 1;
    }
    true
}

/// The elements, with every run of neighbours that share a view shortened to
/// its first element.
pub fn dedup_vec<T: ViewEq>(v: &Vec<T>) -> (r: Vec<T>)
    ensures
        views(r@) == dedup_runs(views(v@)),
{
    let ghost w = views(v@);
    let mut r: Vec<T> = Vec::new();
    let mut i: usize = 0;
    assert(w.take(0) =~= Seq::<T::V>::empty());
    assert(views(r@) =~= dedup_runs(w.take(0)));
    while i < v.len()
        invariant
            i <= v@.len(),
            w == views(v@),
            views(r@) == dedup_runs(w.take(i as int)),
        decreases v@.len() - i,
    {
        let ghost t = w.take(i as int + 1);
        assert(t.drop_last() =~= w.take(i as int));
        if i > 0 && v[i].view_eq(&v[i - 1]) {
            assert(t.last() == t[t.len() - 2]);
        } else {
            let c = v[i].duplicate();
            r.push(c);
            assert(views(r@) =~= dedup_runs(w.take(i as int)).push(w[i as int]));
        }
        i = i + 1;
    }
    assert(w.take(v@.len() as int) =~= w);
    r
}

/// Settling a settled sequence leaves it as it is.
pub proof fn law_settled_idempotent<A>(s: Seq<A>)
    ensures
        settled(settled(s)) == settled(s),
{
    if !all_distinct(s) {
        law_dedup_idempotent(s);
    }
}

} // verus!
