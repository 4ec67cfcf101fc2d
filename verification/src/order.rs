//! The order of names, and sorting by name.

use vstd::prelude::*;

use crate::text::chars_of;

verus! {

/// Whether `a` comes before `b` or is `b`, comparing code points from the
/// beginning.
pub open spec fn name_le(a: Seq<char>, b: Seq<char>) -> bool
    decreases a.len(),
{
    if a.len() == 0 {
        true
    } else if b.len() == 0 {
        false
    } else if a[0] != b[0] {
        a[0] < b[0]
    } else {
        name_le(a.drop_first(), b.drop_first())
    }
}

/// Compares two names.
pub fn is_name_le(a: &str, b: &str) -> (r: bool)
    ensures
        r == name_le(a@, b@),
{
    let x = chars_of(a);
    let y = chars_of(b);
    let mut i: usize = 0;
    assert(a@.skip(0) == a@);
    assert(b@.skip(0) == b@);
    while i < x.len() && i < y.len()
        invariant
            x@ == a@,
            y@ == b@,
            i <= x@.len(),
            i <= y@.len(),
            name_le(a@, b@) == name_le(a@.skip(i as int), b@.skip(i as int)),
        decreases x@.len() - i,
    {
        if x[i] != y[i] {
            return x[i] < y[i];
        }
        assert(a@.skip(i as int).drop_first() == a@.skip(i + 1));
        assert(b@.skip(i as int).drop_first() == b@.skip(i + 1));
        i = i + 1;
    }
    i == x.len()
}

/// `name_le` is a total order.
pub proof fn law_name_order(a: Seq<char>, b: Seq<char>, c: Seq<char>)
    ensures
        name_le(a, a),
        name_le(a, b) || name_le(b, a),
        name_le(a, b) && name_le(b, a) ==> a == b,
        name_le(a, b) && name_le(b, c) ==> name_le(a, c),
    decreases a.len() + b.len() + c.len(),
{
    if a.len() > 0 {
        law_name_order(
            a.drop_first(),
            if b.len() > 0 {
                b.drop_first()
            } else {
                b
            },
            if c.len() > 0 {
                c.drop_first()
            } else {
                c
            },
        );
        if b.len() > 0 && a.drop_first() == b.drop_first() && a[0] == b[0] {
            assert(a == seq![a[0]] + a.drop_first());
            assert(b == seq![b[0]] + b.drop_first());
        }
    } else if b.len() == 0 {
        assert(a == b);
    }
}

/// Something that has a name.
pub trait HasName: Sized {
    spec fn spec_name(&self) -> Seq<char>;
}

/// Something that is listed under its name.
pub trait Named: HasName {
    fn name(&self) -> (r: &str)
        ensures
            r@ == self.spec_name(),
    ;
}

/// Whether the names come in order.
pub open spec fn sorted_by_name<T: HasName>(s: Seq<T>) -> bool {
    forall|i: int, j: int|
        0 <= i <= j < s.len() ==> name_le(#[trigger] s[i].spec_name(), #[trigger] s[j].spec_name())
}

/// The items with the given name, in their order.
pub open spec fn with_name<T: HasName>(s: Seq<T>, name: Seq<char>) -> Seq<T> {
    s.filter(|t: T| t.spec_name() == name)
}

/// Whether `r` holds the items of `s` ordered by name, with items of one name
/// in the order that they have in `s`.
pub open spec fn is_name_sorting<T: HasName>(r: Seq<T>, s: Seq<T>) -> bool {
    &&& sorted_by_name(r)
    &&& r.len() == s.len()
    &&& forall|name: Seq<char>| #[trigger] with_name(r, name) == with_name(s, name)
}

/// The items of `s` ordered by name.
pub open spec fn name_sorted<T: HasName>(s: Seq<T>) -> Seq<T>
    decreases s.len(),
{
    if s.len() == 0 {
        s
    } else {
        let rest = name_sorted(s.drop_last());
        rest.insert(place(rest, s.last().spec_name()) as int, s.last())
    }
}

/// The number of items at the beginning whose names do not come after `name`.
pub open spec fn place<T: HasName>(s: Seq<T>, name: Seq<char>) -> nat
    decreases s.len(),
{
    if s.len() == 0 || !name_le(s[0].spec_name(), name) {
        0
    } else {
        1 + place(s.drop_first(), name)
    }
}

proof fn lemma_place<T: HasName>(s: Seq<T>, name: Seq<char>, n: int)
    requires
        0 <= n <= s.len(),
        forall|i: int| 0 <= i < n ==> name_le(#[trigger] s[i].spec_name(), name),
        n == s.len() || !name_le(s[n].spec_name(), name),
    ensures
        place(s, name) == n,
    decreases s.len(),
{
    if n > 0 {
        assert(name_le(s[0].spec_name(), name));
        let tail = s.drop_first();
        assert forall|i: int| 0 <= i < n - 1 implies name_le(#[trigger] tail[i].spec_name(), name) by {
            assert(tail[i] == s[i + 1]);
            assert(name_le(s[i + 1].spec_name(), name));
        }
        if n < s.len() {
            assert(tail[n - 1] == s[n]);
        }
        lemma_place(tail, name, n - 1);
    }
}

proof fn lemma_place_bounds<T: HasName>(s: Seq<T>, name: Seq<char>)
    ensures
        place(s, name) <= s.len(),
        forall|i: int| 0 <= i < place(s, name) ==> name_le(#[trigger] s[i].spec_name(), name),
        place(s, name) < s.len() ==> !name_le(s[place(s, name) as int].spec_name(), name),
    decreases s.len(),
{
    if s.len() > 0 && name_le(s[0].spec_name(), name) {
        let tail = s.drop_first();
        lemma_place_bounds(tail, name);
        assert forall|i: int| 0 <= i < place(s, name) implies name_le(
            #[trigger] s[i].spec_name(),
            name,
        ) by {
            if i > 0 {
                assert(tail[i - 1] == s[i]);
                assert(name_le(tail[i - 1].spec_name(), name));
            }
        }
    }
}

/// Sorting by name keeps every item, puts the names in order, and leaves items
/// of one name in the order that they had.
pub proof fn law_name_sorted<T: HasName>(s: Seq<T>)
    ensures
        is_name_sorting(name_sorted(s), s),
    decreases s.len(),
{
    if s.len() > 0 {
        let rest = name_sorted(s.drop_last());
        let x = s.last();
        law_name_sorted(s.drop_last());
        lemma_place_bounds(rest, x.spec_name());
        let p = place(rest, x.spec_name()) as int;
        let r = rest.insert(p, x);
        let low = rest.take(p);
        let high = rest.skip(p);
        assert(r == low + seq![x] + high);
        assert(rest == low + high);
        assert(s == s.drop_last() + seq![x]);
        assert forall|i: int| p <= i < rest.len() implies !name_le(
            #[trigger] rest[i].spec_name(),
            x.spec_name(),
        ) by {
            law_name_order(rest[p].spec_name(), rest[i].spec_name(), x.spec_name());
        }
        assert forall|i: int, j: int| 0 <= i <= j < r.len() implies name_le(
            #[trigger] r[i].spec_name(),
            #[trigger] r[j].spec_name(),
        ) by {
            let a = if i < p {
                rest[i]
            } else if i == p {
                x
            } else {
                rest[i - 1]
            };
            let b = if j < p {
                rest[j]
            } else if j == p {
                x
            } else {
                rest[j - 1]
            };
            law_name_order(a.spec_name(), b.spec_name(), x.spec_name());
            assert(r[i] == a);
            assert(r[j] == b);
        }
        assert forall|name: Seq<char>| #[trigger] with_name(r, name) == with_name(s, name) by {
            let pred = |t: T| t.spec_name() == name;
            assert(with_name(rest, name) == with_name(s.drop_last(), name));
            Seq::filter_distributes_over_add(low + seq![x], high, pred);
            Seq::filter_distributes_over_add(low, seq![x], pred);
            Seq::filter_distributes_over_add(low, high, pred);
            Seq::filter_distributes_over_add(s.drop_last(), seq![x], pred);
            if name == x.spec_name() {
                assert forall|i: int| 0 <= i < high.len() implies !pred(#[trigger] high[i]) by {
                    assert(high[i] == rest[i + p]);
                    law_name_order(x.spec_name(), x.spec_name(), x.spec_name());
                    assert(!name_le(rest[i + p].spec_name(), x.spec_name()));
                }
                lemma_filter_none(high, pred);
            } else {
                reveal(Seq::filter);
                assert(seq![x].drop_last().filter(pred) == Seq::<T>::empty());
                assert(seq![x].filter(pred) == Seq::<T>::empty());
            }
        }
    } else {
        assert forall|name: Seq<char>| #[trigger] with_name(name_sorted(s), name) == with_name(s, name) by {}
    }
}

proof fn lemma_filter_none<T>(s: Seq<T>, pred: spec_fn(T) -> bool)
    requires
        forall|i: int| 0 <= i < s.len() ==> !pred(#[trigger] s[i]),
    ensures
        s.filter(pred) == Seq::<T>::empty(),
    decreases s.len(),
{
    reveal(Seq::filter);
    if s.len() > 0 {
        lemma_filter_none(s.drop_last(), pred);
    }
}

/// There is only one way to sort by name.
pub proof fn law_name_sorting_unique<T: HasName>(a: Seq<T>, b: Seq<T>, s: Seq<T>)
    requires
        is_name_sorting(a, s),
        is_name_sorting(b, s),
    ensures
        a == b,
{
    assert forall|name: Seq<char>| #[trigger] with_name(a, name) == with_name(b, name) by {
        assert(with_name(a, name) == with_name(s, name));
        assert(with_name(b, name) == with_name(s, name));
    }
    lemma_sorting_unique(a, b);
}

proof fn lemma_sorting_unique<T: HasName>(a: Seq<T>, b: Seq<T>)
    requires
        sorted_by_name(a),
        sorted_by_name(b),
        a.len() == b.len(),
        forall|name: Seq<char>| #[trigger] with_name(a, name) == with_name(b, name),
    ensures
        a == b,
    decreases a.len(),
{
    if a.len() > 0 {
        let x = a.last();
        let y = b.last();
        let n = a.len() - 1;
        let in_x = |t: T| t.spec_name() == x.spec_name();
        let in_y = |t: T| t.spec_name() == y.spec_name();
        reveal(Seq::filter);
        assert(with_name(a, x.spec_name()).last() == x);
        assert(with_name(b, y.spec_name()).last() == y);
        // `x` occurs in `b`, and `y` in `a`, so neither name comes after the other.
        assert(with_name(b, x.spec_name()).contains(x)) by {
            let f = with_name(a, x.spec_name());
            assert(f[f.len() - 1] == x);
        }
        b.lemma_filter_contains_rev(in_x, x);
        let k = choose|k: int| 0 <= k < b.len() && b[k] == x;
        assert(name_le(b[k].spec_name(), b[n].spec_name()));
        assert(with_name(a, y.spec_name()).contains(y)) by {
            let f = with_name(b, y.spec_name());
            assert(f[f.len() - 1] == y);
        }
        a.lemma_filter_contains_rev(in_y, y);
        let l = choose|l: int| 0 <= l < a.len() && a[l] == y;
        assert(name_le(a[l].spec_name(), a[n].spec_name()));
        law_name_order(x.spec_name(), y.spec_name(), x.spec_name());
        assert(x == y);
        let c = a.drop_last();
        let d = b.drop_last();
        assert forall|name: Seq<char>| #[trigger] with_name(c, name) == with_name(d, name) by {
            let pred = |t: T| t.spec_name() == name;
            assert(with_name(a, name) == with_name(b, name));
            if pred(x) {
                assert(a.filter(pred) == c.filter(pred).push(x));
                assert(b.filter(pred) == d.filter(pred).push(x));
                assert(c.filter(pred) == a.filter(pred).drop_last());
                assert(d.filter(pred) == b.filter(pred).drop_last());
            }
        }
        assert forall|i: int, j: int| 0 <= i <= j < c.len() implies name_le(
            #[trigger] c[i].spec_name(),
            #[trigger] c[j].spec_name(),
        ) by {
            assert(name_le(a[i].spec_name(), a[j].spec_name()));
        }
        assert forall|i: int, j: int| 0 <= i <= j < d.len() implies name_le(
            #[trigger] d[i].spec_name(),
            #[trigger] d[j].spec_name(),
        ) by {
            assert(name_le(b[i].spec_name(), b[j].spec_name()));
        }
        lemma_sorting_unique(c, d);
        assert(a == c.push(x));
        assert(b == d.push(x));
    } else {
        assert(a == b);
    }
}

/// Sorting goes by the names alone: it makes no difference whether items are
/// sorted or what stands for them under the same names.
pub proof fn law_name_sorted_map<A: HasName, B: HasName>(s: Seq<A>, f: spec_fn(A) -> B)
    requires
        forall|a: A| #[trigger] f(a).spec_name() == a.spec_name(),
    ensures
        name_sorted(s).map_values(f) == name_sorted(s.map_values(f)),
    decreases s.len(),
{
    if s.len() > 0 {
        let rest = name_sorted(s.drop_last());
        let x = s.last();
        law_name_sorted_map(s.drop_last(), f);
        assert(s.map_values(f).drop_last() == s.drop_last().map_values(f));
        lemma_place_bounds(rest, x.spec_name());
        let p = place(rest, x.spec_name()) as int;
        let mapped = rest.map_values(f);
        assert forall|i: int| 0 <= i < p implies name_le(
            #[trigger] mapped[i].spec_name(),
            x.spec_name(),
        ) by {
            assert(mapped[i] == f(rest[i]));
            assert(name_le(rest[i].spec_name(), x.spec_name()));
        }
        if p < rest.len() {
            assert(mapped[p] == f(rest[p]));
        }
        lemma_place(mapped, x.spec_name(), p);
        assert(rest.insert(p, x).map_values(f) == mapped.insert(p, f(x)));
    } else {
        assert(name_sorted(s).map_values(f) == name_sorted(s.map_values(f)));
    }
}

/// Sorts items by name.
pub fn sort_by_name<T: Named>(items: Vec<T>) -> (r: Vec<T>)
    ensures
        r@ == name_sorted(items@),
{
    let ghost all = items@;
    let mut r: Vec<T> = Vec::new();
    let mut items = items;
    assert(all.take(0) == Seq::<T>::empty());
    assert(all.skip(0) == all);
    while items.len() > 0
        invariant
            items@.len() <= all.len(),
            items@ == all.skip(all.len() - items@.len()),
            r@ == name_sorted(all.take(all.len() - items@.len())),
        decreases items@.len(),
    {
        let ghost done = all.len() - items@.len();
        let item = items.remove(0);
        assert(item == all[done]);
        assert(all.take(done + 1).drop_last() == all.take(done));
        let mut p: usize = 0;
        while p < r.len() && is_name_le(r[p].name(), item.name())
            invariant
                p <= r@.len(),
                forall|i: int|
                    0 <= i < p ==> name_le(#[trigger] r@[i].spec_name(), item.spec_name()),
            decreases r@.len() - p,
        {
            p = p + 1;
        }
        proof {
            lemma_place(r@, item.spec_name(), p as int);
        }
        r.insert(p, item);
    }
    assert(all.take(all.len() as int) == all);
    r
}

} // verus!
