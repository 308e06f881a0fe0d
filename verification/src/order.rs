//! Lexicographic order on text and sorting by a strict order: the order in
//! which markets, catalog entries and search results are listed.
use vstd::prelude::*;
use vstd::multiset::Multiset;

verus! {

/// `a` comes strictly before `b` in lexicographic order of characters
/// (code points), a proper prefix coming first. On Rust strings this is the
/// order of `str`'s comparison, which compares UTF-8 bytes, an encoding that
/// keeps code-point order.
pub open spec fn text_less(a: Seq<char>, b: Seq<char>) -> bool
    decreases a.len(),
{
    if a.len() == 0 {
        b.len() > 0
    } else if b.len() == 0 {
        false
    } else if a[0] != b[0] {
        a[0] < b[0]
    } else {
        text_less(a.drop_first(), b.drop_first())
    }
}

/// Nothing comes before itself.
pub proof fn lemma_text_less_irreflexive(a: Seq<char>)
    ensures
        !text_less(a, a),
    decreases a.len(),
{
    if a.len() > 0 {
        lemma_text_less_irreflexive(a.drop_first());
    }
}

/// The lexicographic order is transitive.
pub proof fn lemma_text_less_transitive(a: Seq<char>, b: Seq<char>, c: Seq<char>)
    requires
        text_less(a, b),
        text_less(b, c),
    ensures
        text_less(a, c),
    decreases a.len(),
{
    if a.len() > 0 && b.len() > 0 && c.len() > 0 && a[0] == b[0] && b[0] == c[0] {
        lemma_text_less_transitive(a.drop_first(), b.drop_first(), c.drop_first());
    }
}

/// Of two different texts, one comes before the other.
pub proof fn lemma_text_less_total(a: Seq<char>, b: Seq<char>)
    requires
        a != b,
    ensures
        text_less(a, b) || text_less(b, a),
    decreases a.len(),
{
    if a.len() > 0 && b.len() > 0 && a[0] == b[0] {
        if a.drop_first() == b.drop_first() {
            assert(a =~= seq![a[0]] + a.drop_first());
            assert(b =~= seq![b[0]] + b.drop_first());
        }
        lemma_text_less_total(a.drop_first(), b.drop_first());
    } else if a.len() == 0 && b.len() == 0 {
        assert(a =~= b);
    }
}

/// Whether `a` comes strictly before `b` in lexicographic order.
pub fn chars_less(a: &Vec<char>, b: &Vec<char>) -> (res: bool)
    ensures
        res == text_less(a@, b@),
{
    let mut i: usize = 0;
    assert(a@.skip(0) == a@ && b@.skip(0) == b@);
    while i < a.len() && i < b.len() && a[i] == b[i]
        invariant
            i <= a.len(),
            i <= b.len(),
            text_less(a@, b@) == text_less(a@.skip(i as int), b@.skip(i as int)),
        decreases a.len() - i,
    {
        assert(a@.skip(i as int).drop_first() == a@.skip(i + 1));
        assert(b@.skip(i as int).drop_first() == b@.skip(i + 1));
        i += 1;
    }
    if i == a.len() {
        i < b.len()
    } else if i == b.len() {
        false
    } else {
        assert(a@.skip(i as int)[0] == a@[i as int]);
        assert(b@.skip(i as int)[0] == b@[i as int]);
        a[i] < b[i]
    }
}

/// A strict order in which lists are sorted.
pub trait ListOrder: Sized {
    /// `self` is listed strictly before `other`.
    spec fn precedes(self, other: Self) -> bool;

    /// Nothing is listed before itself.
    proof fn precedes_irreflexive(a: Self)
        ensures
            !a.precedes(a),
    ;

    /// The order is transitive.
    proof fn precedes_transitive(a: Self, b: Self, c: Self)
        requires
            a.precedes(b),
            b.precedes(c),
        ensures
            a.precedes(c),
    ;

    /// Whether `self` is listed strictly before `other`.
    fn listed_before(&self, other: &Self) -> (res: bool)
        ensures
            res == self.precedes(*other),
    ;
}

/// No element of `s` is listed before an element that precedes it in `s`.
pub open spec fn is_sorted<T: ListOrder>(s: Seq<T>) -> bool {
    forall|a: int, b: int| 0 <= a < b < s.len() ==> !(#[trigger] s[b]).precedes(#[trigger] s[a])
}

/// `items` rearranged in the order of `ListOrder`; the relative order of
/// elements that the order does not tell apart is left open.
pub fn sort_listed<T: ListOrder>(items: Vec<T>) -> (res: Vec<T>)
    ensures
        is_sorted(res@),
        res@.to_multiset() == items@.to_multiset(),
{
    broadcast use vstd::seq_lib::group_to_multiset_ensures, vstd::multiset::group_multiset_axioms;

    let mut rest = items;
    let mut res: Vec<T> = Vec::new();
    assert(res@.to_multiset().len() == 0);
    assert(res@.to_multiset() =~= Multiset::empty());
    while rest.len() > 0
        invariant
            is_sorted(res@),
            res@.to_multiset().add(rest@.to_multiset()) == items@.to_multiset(),
        decreases rest.len(),
    {
        let ghost before_rest = rest@;
        let x = rest.pop().unwrap();
        assert(before_rest == rest@.push(x));
        let mut p: usize = 0;
        while p < res.len() && !x.listed_before(&res[p])
            invariant
                p <= res@.len(),
                forall|q: int| 0 <= q < p ==> !x.precedes(#[trigger] res@[q]),
            decreases res.len() - p,
        {
            p += 1;
        }
        let ghost old_res = res@;
        proof {
            old_res.insert_ensures(p as int, x);
        }
        res.insert(p, x);
        proof {
            let s = res@;
            assert forall|a: int, b: int| 0 <= a < b < s.len() implies !(#[trigger] s[b]).precedes(#[trigger] s[a]) by {
                if b < p {
                    assert(s[a] == old_res[a] && s[b] == old_res[b]);
                } else if b == p {
                    assert(s[a] == old_res[a]);
                } else if a < p {
                    assert(s[a] == old_res[a] && s[b] == old_res[b - 1]);
                } else if a == p {
                    assert(s[b] == old_res[b - 1]);
                    assert(x.precedes(old_res[p as int]));
                    if s[b].precedes(x) {
                        if b == p + 1 {
                            T::precedes_transitive(old_res[p as int], x, old_res[p as int]);
                            T::precedes_irreflexive(old_res[p as int]);
                        } else {
                            T::precedes_transitive(old_res[b - 1], x, old_res[p as int]);
                        }
                    }
                } else {
                    assert(s[a] == old_res[a - 1] && s[b] == old_res[b - 1]);
                }
            }
            assert(res@ == old_res.insert(p as int, x));
            vstd::seq_lib::to_multiset_insert(old_res, p as int, x);
            vstd::seq_lib::to_multiset_build(rest@, x);
            assert(res@.to_multiset().add(rest@.to_multiset()) =~= old_res.to_multiset().add(before_rest.to_multiset()));
        }
    }
    assert(rest@.to_multiset().len() == 0);
    assert(rest@.to_multiset() =~= Multiset::empty());
    assert(res@.to_multiset().add(rest@.to_multiset()) =~= res@.to_multiset());
    res
}

} // verus!
