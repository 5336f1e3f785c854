//! Rows in the order of a text that each has.

use vstd::prelude::*;

use crate::{rows, text};

verus! {

/// A kind of row that is listed in the order of a text.
pub trait Keyed: DeepView + Sized {
    /// The text by which a row is ordered.
    spec fn key_of(row: Self::V) -> Seq<char>;

    /// The text by which the row is ordered.
    fn key(&self) -> (r: &str)
        ensures
            r@ == Self::key_of(self.deep_view()),
    ;
}

/// The text by which rows are ordered.
pub open spec fn key_fn<T: Keyed>() -> spec_fn(T::V) -> Seq<char> {
    |row: T::V| T::key_of(row)
}

/// An ordered table with one more row, behind those that do not come after it.
pub open spec fn placed<A>(s: Seq<A>, key: spec_fn(A) -> Seq<char>, row: A) -> Seq<A>
    decreases s.len(),
{
    if s.len() == 0 || !text::precedes(key(row), key(s.last())) {
        s.push(row)
    } else {
        placed(s.drop_last(), key, row).push(s.last())
    }
}

/// A table in the order of its keys; rows with the same key keep their order.
pub open spec fn ordered<A>(s: Seq<A>, key: spec_fn(A) -> Seq<char>) -> Seq<A>
    decreases s.len(),
{
    if s.len() == 0 {
        s
    } else {
        placed(ordered(s.drop_last(), key), key, s.last())
    }
}

/// Whether no row of a table comes before an earlier one.
pub open spec fn in_key_order<A>(s: Seq<A>, key: spec_fn(A) -> Seq<char>) -> bool {
    forall|i: int, k: int|
        0 <= i < k < s.len() ==> !text::precedes(key(#[trigger] s[k]), key(#[trigger] s[i]))
}

proof fn lemma_placed<A>(s: Seq<A>, key: spec_fn(A) -> Seq<char>, row: A, at: int)
    requires
        0 <= at <= s.len(),
        forall|k: int| at <= k < s.len() ==> text::precedes(key(row), key(#[trigger] s[k])),
        at > 0 ==> !text::precedes(key(row), key(s[at - 1])),
    ensures
        placed(s, key, row) == s.insert(at, row),
    decreases s.len(),
{
    if at == s.len() {
        assert(s.insert(at, row) =~= s.push(row));
    } else {
        assert(text::precedes(key(row), key(s[s.len() - 1])));
        lemma_placed(s.drop_last(), key, row, at);
        assert(s.drop_last().insert(at, row).push(s.last()) =~= s.insert(at, row));
    }
}

/// Puts a row where it belongs in an ordered table.
fn place<T: Keyed>(rows_in: &mut Vec<T>, row: T)
    ensures
        final(rows_in).deep_view() == placed(old(rows_in).deep_view(), key_fn::<T>(), row.deep_view()),
{
    let ghost all = rows_in.deep_view();
    let ghost key = key_fn::<T>();
    let mut at: usize = rows_in.len();
    while at > 0 && text::is_before(row.key(), rows_in[at - 1].key())
        invariant
            0 <= at <= rows_in@.len(),
            all == rows_in.deep_view(),
            key == key_fn::<T>(),
            *rows_in == *old(rows_in),
            forall|k: int|
                at <= k < all.len() ==> text::precedes(key(row.deep_view()), key(#[trigger] all[k])),
        ensures
            0 <= at <= rows_in@.len(),
            *rows_in == *old(rows_in),
            forall|k: int|
                at <= k < all.len() ==> text::precedes(key(row.deep_view()), key(#[trigger] all[k])),
            at > 0 ==> !text::precedes(key(row.deep_view()), key(all[at - 1])),
        decreases at,
    {
        assert(all[at - 1] == rows_in@[at - 1].deep_view());
        at -= 1;
    }
    proof {
        lemma_placed(all, key, row.deep_view(), at as int);
    }
    let ghost value = row;
    let ghost before = *rows_in;
    rows_in.insert(at, row);
    assert(rows_in.deep_view() =~= before.deep_view().insert(at as int, value.deep_view()));
}

/// Puts rows in the order of their keys; rows with the same key keep their order.
pub fn sort_rows<T: Keyed>(v: Vec<T>) -> (r: Vec<T>)
    ensures
        r.deep_view() == ordered(v.deep_view(), key_fn::<T>()),
{
    let ghost all = v.deep_view();
    let ghost key = key_fn::<T>();
    let mut rest = v;
    let mut out: Vec<T> = Vec::new();
    let ghost mut done: int = 0;
    assert(all.skip(0) =~= all);
    assert(out.deep_view() =~= all.take(0));
    while rest.len() > 0
        invariant
            0 <= done <= all.len(),
            key == key_fn::<T>(),
            rest.deep_view() == all.skip(done),
            out.deep_view() == ordered(all.take(done), key),
        decreases rest@.len(),
    {
        let ghost before = rest;
        let row = rest.remove(0);
        proof {
            assert(before.deep_view().len() == before@.len());
            assert(all.skip(done).len() == all.len() - done);
            assert(all.skip(done)[0] == all[done]);
            assert(before.deep_view()[0] == all[done]);
            assert(row.deep_view() == all[done]);
            assert(rest.deep_view() =~= all.skip(done + 1)) by {
                assert forall|k: int| 0 <= k < rest@.len() implies rest.deep_view()[k] == all.skip(
                    done + 1,
                )[k] by {
                    assert(rest@[k] == before@[k + 1]);
                    assert(before.deep_view()[k + 1] == all.skip(done)[k + 1]);
                    assert(all.skip(done)[k + 1] == all[done + k + 1]);
                    assert(all.skip(done + 1)[k] == all[done + 1 + k]);
                }
            }
            assert(all.take(done + 1).drop_last() =~= all.take(done));
            assert(all.take(done + 1).last() == all[done]);
            done = done + 1;
        }
        place(&mut out, row);
    }
    proof {
        assert(all.skip(done).len() == 0);
        rows::lemma_take_all(all);
    }
    out
}

proof fn lemma_placed_in_order<A>(s: Seq<A>, key: spec_fn(A) -> Seq<char>, row: A)
    requires
        in_key_order(s, key),
    ensures
        in_key_order(placed(s, key, row), key),
        placed(s, key, row).to_multiset() == s.to_multiset().insert(row),
        forall|i: int|
            0 <= i < placed(s, key, row).len() ==> (#[trigger] placed(s, key, row)[i] == row) || s.contains(
                placed(s, key, row)[i],
            ),
    decreases s.len(),
{
    broadcast use vstd::seq_lib::group_to_multiset_ensures;

    let after = placed(s, key, row);
    if s.len() == 0 || !text::precedes(key(row), key(s.last())) {
        assert forall|i: int, k: int|
            0 <= i < k < after.len() implies !text::precedes(
            key(#[trigger] after[k]),
            key(#[trigger] after[i]),
        ) by {
            assert(after[i] == s[i]);
            if k < s.len() {
                assert(after[k] == s[k]);
            } else if text::precedes(key(row), key(s[i])) {
                let last = s[s.len() - 1];
                if i < s.len() - 1 {
                    assert(!text::precedes(key(last), key(s[i])));
                }
                text::lemma_precedes_total(key(s[i]), key(last));
                text::lemma_precedes_transitive(key(row), key(s[i]), key(last));
            }
        }
        assert forall|i: int| 0 <= i < after.len() implies (#[trigger] after[i] == row) || s.contains(
            after[i],
        ) by {
            if i < s.len() {
                assert(s[i] == after[i]);
            }
        }
    } else {
        let t = s.drop_last();
        let last = s.last();
        assert forall|i: int, k: int|
            0 <= i < k < t.len() implies !text::precedes(key(#[trigger] t[k]), key(#[trigger] t[i])) by {
            assert(t[i] == s[i] && t[k] == s[k]);
        }
        lemma_placed_in_order(t, key, row);
        let rest = placed(t, key, row);
        assert(after == rest.push(last));
        assert(s =~= t.push(last));
        assert(after.to_multiset() =~= s.to_multiset().insert(row));
        assert forall|i: int, k: int|
            0 <= i < k < after.len() implies !text::precedes(
            key(#[trigger] after[k]),
            key(#[trigger] after[i]),
        ) by {
            assert(after[i] == rest[i]);
            if k < rest.len() {
                assert(after[k] == rest[k]);
            } else {
                assert(after[k] == last);
                if rest[i] == row {
                    text::lemma_precedes_total(key(row), key(last));
                } else {
                    let m = choose|m: int| 0 <= m < t.len() && t[m] == rest[i];
                    assert(s[m] == rest[i]);
                    assert(s[s.len() - 1] == last);
                }
            }
        }
        assert forall|i: int| 0 <= i < after.len() implies (#[trigger] after[i] == row) || s.contains(
            after[i],
        ) by {
            if i < rest.len() {
                assert(after[i] == rest[i]);
                if rest[i] != row {
                    let m = choose|m: int| 0 <= m < t.len() && t[m] == rest[i];
                    assert(s[m] == rest[i]);
                }
            } else {
                assert(s[s.len() - 1] == after[i]);
            }
        }
    }
}

/// Ordering a table leaves its rows as they are, each as often as it was there, and no row
/// behind one that it comes before.
pub proof fn law_ordered<A>(s: Seq<A>, key: spec_fn(A) -> Seq<char>)
    ensures
        in_key_order(ordered(s, key), key),
        ordered(s, key).to_multiset() == s.to_multiset(),
    decreases s.len(),
{
    broadcast use vstd::seq_lib::group_to_multiset_ensures;

    if s.len() > 0 {
        law_ordered(s.drop_last(), key);
        lemma_placed_in_order(ordered(s.drop_last(), key), key, s.last());
        assert(s =~= s.drop_last().push(s.last()));
    }
}

proof fn lemma_place_of<A>(s: Seq<A>, key: spec_fn(A) -> Seq<char>, row: A) -> (at: int)
    requires
        in_key_order(s, key),
    ensures
        0 <= at <= s.len(),
        placed(s, key, row) == s.insert(at, row),
        forall|k: int| at <= k < s.len() ==> text::precedes(key(row), key(#[trigger] s[k])),
        forall|k: int| 0 <= k < at ==> !text::precedes(key(row), key(#[trigger] s[k])),
    decreases s.len(),
{
    if s.len() == 0 {
        assert(s.insert(0, row) =~= s.push(row));
        0
    } else if !text::precedes(key(row), key(s.last())) {
        let at = s.len() as int;
        assert(s.insert(at, row) =~= s.push(row));
        assert forall|k: int| 0 <= k < at implies !text::precedes(key(row), key(#[trigger] s[k])) by {
            if k < s.len() - 1 {
                assert(!text::precedes(key(s[s.len() - 1]), key(s[k])));
                if text::precedes(key(row), key(s[k])) {
                    text::lemma_precedes_total(key(s[k]), key(s.last()));
                    text::lemma_precedes_transitive(key(row), key(s[k]), key(s.last()));
                }
            }
        }
        at
    } else {
        let t = s.drop_last();
        assert forall|i: int, k: int|
            0 <= i < k < t.len() implies !text::precedes(key(#[trigger] t[k]), key(#[trigger] t[i])) by {
            assert(t[i] == s[i] && t[k] == s[k]);
        }
        let at = lemma_place_of(t, key, row);
        assert(t.insert(at, row).push(s.last()) =~= s.insert(at, row));
        assert forall|k: int| at <= k < s.len() implies text::precedes(key(row), key(#[trigger] s[k])) by {
            if k < t.len() {
                assert(t[k] == s[k]);
            }
        }
        assert forall|k: int| 0 <= k < at implies !text::precedes(key(row), key(#[trigger] s[k])) by {
            assert(t[k] == s[k]);
        }
        at
    }
}

/// Whether places name each of the first `n` once.
pub open spec fn all_places(places: Seq<int>, n: int) -> bool {
    &&& places.len() == n
    &&& forall|m: int| 0 <= m < n ==> 0 <= #[trigger] places[m] < n
    &&& forall|a: int, b: int| 0 <= a < b < n ==> #[trigger] places[a] != #[trigger] places[b]
    &&& forall|k: int| 0 <= k < n ==> #[trigger] places.contains(k)
}

/// An ordered table has each row of the table once, none behind one that it comes before, and
/// rows with the same key in the order that they had.
pub proof fn law_ordered_is_a_rearrangement<A>(s: Seq<A>, key: spec_fn(A) -> Seq<char>) -> (places: Seq<int>)
    ensures
        all_places(places, s.len() as int),
        ordered(s, key).len() == s.len(),
        forall|m: int| 0 <= m < s.len() ==> ordered(s, key)[m] == s[#[trigger] places[m]],
        forall|a: int, b: int|
            0 <= a < b < s.len() ==> !text::precedes(key(s[#[trigger] places[b]]), key(s[#[trigger] places[a]])),
        forall|a: int, b: int|
            0 <= a < b < s.len() && key(s[#[trigger] places[a]]) == key(s[#[trigger] places[b]]) ==> places[a]
                < places[b],
    decreases s.len(),
{
    if s.len() == 0 {
        Seq::empty()
    } else {
        let t = s.drop_last();
        let last = s.len() - 1;
        let before = law_ordered_is_a_rearrangement(t, key);
        law_ordered(t, key);
        let sorted = ordered(t, key);
        let at = lemma_place_of(sorted, key, s.last());
        let places = before.insert(at, last);
        assert forall|m: int| 0 <= m < s.len() implies 0 <= #[trigger] places[m] < s.len() && ordered(s, key)[m]
            == s[places[m]] by {
            if m < at {
                assert(places[m] == before[m]);
                assert(sorted[m] == t[before[m]]);
            } else if m > at {
                assert(places[m] == before[m - 1]);
                assert(sorted[m - 1] == t[before[m - 1]]);
            }
        }
        assert forall|a: int, b: int| 0 <= a < b < s.len() implies #[trigger] places[a] != #[trigger] places[b]
            && !text::precedes(key(s[places[b]]), key(s[places[a]])) && (key(s[places[a]]) == key(s[places[b]])
            ==> places[a] < places[b]) by {
            let x = if a < at {
                a
            } else {
                a - 1
            };
            let y = if b < at {
                b
            } else {
                b - 1
            };
            if a != at && b != at {
                assert(places[a] == before[x] && places[b] == before[y]);
                assert(x < y);
                assert(t[before[x]] == s[before[x]]);
                assert(t[before[y]] == s[before[y]]);
            } else if a == at {
                assert(places[b] == before[y]);
                assert(sorted[y] == s[before[y]]);
                text::lemma_precedes_total(key(s.last()), key(sorted[y]));
            } else {
                assert(places[a] == before[x]);
                assert(sorted[x] == s[before[x]]);
            }
        }
        assert forall|k: int| 0 <= k < s.len() implies #[trigger] places.contains(k) by {
            if k == last {
                assert(places[at] == k);
            } else {
                assert(before.contains(k));
                let m = choose|m: int| 0 <= m < before.len() && before[m] == k;
                if m < at {
                    assert(places[m] == k);
                } else {
                    assert(places[m + 1] == k);
                }
            }
        }
        places
    }
}

/// Where the rows stand of which a list in the order of its keys is made.
pub proof fn lemma_listed_places<A, B>(
    s: Seq<A>,
    p: spec_fn(A) -> bool,
    f: spec_fn(A) -> B,
    key: spec_fn(B) -> Seq<char>,
) -> (places: Seq<int>)
    ensures
        ({
            let list = ordered(s.filter(p).map_values(f), key);
            &&& list.len() == places.len()
            &&& forall|m: int|
                0 <= m < places.len() ==> 0 <= #[trigger] places[m] < s.len() && p(s[places[m]]) && list[m]
                    == f(s[places[m]])
            &&& forall|a: int, b: int| 0 <= a < b < places.len() ==> #[trigger] places[a] != #[trigger] places[b]
            &&& forall|k: int| 0 <= k < s.len() && p(#[trigger] s[k]) ==> places.contains(k)
            &&& forall|a: int, b: int|
                0 <= a < b < places.len() ==> !text::precedes(key(#[trigger] list[b]), key(#[trigger] list[a]))
            &&& forall|a: int, b: int|
                0 <= a < b < places.len() && key(f(s[#[trigger] places[a]])) == key(f(s[#[trigger] places[b]]))
                    ==> places[a] < places[b]
        }),
{
    let kept = s.filter(p);
    let made = kept.map_values(f);
    let list = ordered(made, key);
    let outer = law_ordered_is_a_rearrangement(made, key);
    let inner = rows::lemma_filter_places(s, p);
    law_ordered(made, key);
    let places = Seq::new(outer.len(), |m: int| inner[outer[m]]);
    assert forall|m: int| 0 <= m < places.len() implies 0 <= #[trigger] places[m] < s.len() && p(s[places[m]])
        && list[m] == f(s[places[m]]) by {
        let k = outer[m];
        assert(0 <= k < made.len());
        assert(s.filter(p)[k] == s[inner[k]]);
    }
    assert forall|a: int, b: int| 0 <= a < b < places.len() implies #[trigger] places[a] != #[trigger] places[b]
        && (key(f(s[places[a]])) == key(f(s[places[b]])) ==> places[a] < places[b]) by {
        let x = outer[a];
        let y = outer[b];
        assert(x != y);
        assert(made[x] == f(s[inner[x]]) && made[y] == f(s[inner[y]]));
        if x < y {
            assert(inner[x] < inner[y]);
        } else {
            assert(inner[y] < inner[x]);
        }
    }
    assert forall|k: int| 0 <= k < s.len() && p(#[trigger] s[k]) implies places.contains(k) by {
        assert(inner.contains(k));
        let m = choose|m: int| 0 <= m < inner.len() && inner[m] == k;
        assert(outer.contains(m));
        let n = choose|n: int| 0 <= n < outer.len() && outer[n] == m;
        assert(places[n] == k);
    }
    places
}

/// A change of rows that leaves their keys as they are can be made before or after they are put
/// in order.
pub proof fn lemma_ordered_map<A>(s: Seq<A>, g: spec_fn(A) -> A, key: spec_fn(A) -> Seq<char>)
    requires
        forall|x: A| key(#[trigger] g(x)) == key(x),
    ensures
        ordered(s.map_values(g), key) == ordered(s, key).map_values(g),
    decreases s.len(),
{
    if s.len() == 0 {
        assert(s.map_values(g) =~= s);
        assert(ordered(s, key).map_values(g) =~= s);
    } else {
        let t = s.drop_last();
        assert(s.map_values(g).drop_last() =~= t.map_values(g));
        assert(s.map_values(g).last() == g(s.last()));
        lemma_ordered_map(t, g, key);
        lemma_placed_map(ordered(t, key), g, key, s.last());
    }
}

proof fn lemma_placed_map<A>(s: Seq<A>, g: spec_fn(A) -> A, key: spec_fn(A) -> Seq<char>, row: A)
    requires
        forall|x: A| key(#[trigger] g(x)) == key(x),
    ensures
        placed(s.map_values(g), key, g(row)) == placed(s, key, row).map_values(g),
    decreases s.len(),
{
    assert(key(g(row)) == key(row));
    if s.len() == 0 {
        assert(s.map_values(g).push(g(row)) =~= s.push(row).map_values(g));
    } else {
        assert(s.map_values(g).last() == g(s.last()));
        assert(key(g(s.last())) == key(s.last()));
        if !text::precedes(key(row), key(s.last())) {
            assert(s.map_values(g).push(g(row)) =~= s.push(row).map_values(g));
        } else {
            let t = s.drop_last();
            assert(s.map_values(g).drop_last() =~= t.map_values(g));
            lemma_placed_map(t, g, key, row);
            assert(placed(t, key, row).map_values(g).push(g(s.last())) =~= placed(t, key, row).push(
                s.last(),
            ).map_values(g));
        }
    }
}

proof fn lemma_placed_filter<A>(s: Seq<A>, p: spec_fn(A) -> bool, key: spec_fn(A) -> Seq<char>, row: A)
    requires
        in_key_order(s, key),
    ensures
        placed(s, key, row).filter(p) == (if p(row) {
            placed(s.filter(p), key, row)
        } else {
            s.filter(p)
        }),
    decreases s.len(),
{
    reveal(Seq::filter);
    if s.len() == 0 || !text::precedes(key(row), key(s.last())) {
        assert(s.push(row).drop_last() =~= s);
        let kept = s.filter(p);
        if kept.len() > 0 {
            let places = rows::lemma_filter_places(s, p);
            let at = lemma_place_of(s, key, row);
            let k = places[kept.len() - 1];
            assert(kept.last() == s[k]);
            if at <= k {
                assert(text::precedes(key(row), key(s[s.len() - 1])));
            }
            assert(!text::precedes(key(row), key(s[k])));
        }
    } else {
        let t = s.drop_last();
        assert forall|i: int, k: int|
            0 <= i < k < t.len() implies !text::precedes(key(#[trigger] t[k]), key(#[trigger] t[i])) by {
            assert(t[i] == s[i] && t[k] == s[k]);
        }
        lemma_placed_filter(t, p, key, row);
        let rest = placed(t, key, row);
        assert(rest.push(s.last()).drop_last() =~= rest);
        if p(s.last()) {
            assert(t.filter(p).push(s.last()).drop_last() =~= t.filter(p));
        }
    }
}

/// Rows can be left out before or after they are put in order.
pub proof fn lemma_ordered_filter<A>(s: Seq<A>, p: spec_fn(A) -> bool, key: spec_fn(A) -> Seq<char>)
    ensures
        ordered(s, key).filter(p) == ordered(s.filter(p), key),
    decreases s.len(),
{
    reveal(Seq::filter);
    if s.len() > 0 {
        let t = s.drop_last();
        lemma_ordered_filter(t, p, key);
        law_ordered(t, key);
        lemma_placed_filter(ordered(t, key), p, key, s.last());
        if p(s.last()) {
            assert(t.filter(p).push(s.last()).drop_last() =~= t.filter(p));
        }
    }
}

} // verus!
