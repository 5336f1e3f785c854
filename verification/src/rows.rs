//! Tables: the statements that the rest of the crate makes of a table's rows, as
//! functions on sequences.

use vstd::prelude::*;

verus! {

/// The first row that meets a condition.
pub open spec fn first_where<A>(s: Seq<A>, p: spec_fn(A) -> bool) -> Option<A>
    decreases s.len(),
{
    if s.len() == 0 {
        None
    } else if p(s[0]) {
        Some(s[0])
    } else {
        first_where(s.drop_first(), p)
    }
}

/// The last row that meets a condition.
pub open spec fn last_where<A>(s: Seq<A>, p: spec_fn(A) -> bool) -> Option<A>
    decreases s.len(),
{
    if s.len() == 0 {
        None
    } else if p(s.last()) {
        Some(s.last())
    } else {
        last_where(s.drop_last(), p)
    }
}

/// Where the first row stands that meets a condition.
pub open spec fn first_index<A>(s: Seq<A>, p: spec_fn(A) -> bool) -> Option<int>
    decreases s.len(),
{
    if s.len() == 0 {
        None
    } else if p(s[0]) {
        Some(0int)
    } else {
        match first_index(s.drop_first(), p) {
            Some(i) => Some(i + 1),
            None => None,
        }
    }
}

/// Whether a row meets a condition.
pub open spec fn any_where<A>(s: Seq<A>, p: spec_fn(A) -> bool) -> bool {
    exists|i: int| 0 <= i < s.len() && p(#[trigger] s[i])
}

/// A table in which the first row that meets a condition is replaced by `row`; where
/// none meets it, `row` stands behind the others.
pub open spec fn upserted<A>(s: Seq<A>, p: spec_fn(A) -> bool, row: A) -> Seq<A>
    decreases s.len(),
{
    if s.len() == 0 {
        seq![row]
    } else if p(s[0]) {
        seq![row] + s.drop_first()
    } else {
        seq![s[0]] + upserted(s.drop_first(), p, row)
    }
}

pub proof fn lemma_first_where_hit<A>(s: Seq<A>, p: spec_fn(A) -> bool, i: int)
    requires
        0 <= i < s.len(),
        p(s[i]),
        forall|k: int| 0 <= k < i ==> !p(#[trigger] s[k]),
    ensures
        first_where(s, p) == Some(s[i]),
    decreases i,
{
    if i > 0 {
        let t = s.drop_first();
        assert(!p(s[0]));
        assert forall|k: int| 0 <= k < i - 1 implies !p(#[trigger] t[k]) by {
            assert(t[k] == s[k + 1]);
        }
        lemma_first_where_hit(t, p, i - 1);
    }
}

pub proof fn lemma_first_where_miss<A>(s: Seq<A>, p: spec_fn(A) -> bool)
    requires
        forall|k: int| 0 <= k < s.len() ==> !p(#[trigger] s[k]),
    ensures
        first_where(s, p) is None,
    decreases s.len(),
{
    if s.len() > 0 {
        let t = s.drop_first();
        assert(!p(s[0]));
        assert forall|k: int| 0 <= k < t.len() implies !p(#[trigger] t[k]) by {
            assert(t[k] == s[k + 1]);
        }
        lemma_first_where_miss(t, p);
    }
}

/// What `first_where` finds: a row of the table that meets the condition, with none
/// before it that does.
pub proof fn lemma_first_where<A>(s: Seq<A>, p: spec_fn(A) -> bool) -> (i: int)
    ensures
        first_where(s, p) is Some <==> any_where(s, p),
        first_where(s, p) is Some ==> {
            &&& 0 <= i < s.len()
            &&& s[i] == first_where(s, p)->0
            &&& p(s[i])
            &&& forall|k: int| 0 <= k < i ==> !p(#[trigger] s[k])
        },
    decreases s.len(),
{
    if s.len() == 0 {
        0
    } else if p(s[0]) {
        0
    } else {
        let t = s.drop_first();
        let j = lemma_first_where(t, p);
        if any_where(s, p) {
            let i = choose|i: int| 0 <= i < s.len() && p(#[trigger] s[i]);
            assert(t[i - 1] == s[i]);
        }
        if first_where(t, p) is Some {
            assert(s[j + 1] == t[j]);
            assert forall|k: int| 0 <= k < j + 1 implies !p(#[trigger] s[k]) by {
                if k > 0 {
                    assert(t[k - 1] == s[k]);
                }
            }
        }
        j + 1
    }
}

pub proof fn lemma_first_index_hit<A>(s: Seq<A>, p: spec_fn(A) -> bool, i: int)
    requires
        0 <= i < s.len(),
        p(s[i]),
        forall|k: int| 0 <= k < i ==> !p(#[trigger] s[k]),
    ensures
        first_index(s, p) == Some(i),
    decreases i,
{
    if i > 0 {
        let t = s.drop_first();
        assert(!p(s[0]));
        assert forall|k: int| 0 <= k < i - 1 implies !p(#[trigger] t[k]) by {
            assert(t[k] == s[k + 1]);
        }
        lemma_first_index_hit(t, p, i - 1);
    }
}

pub proof fn lemma_first_index_miss<A>(s: Seq<A>, p: spec_fn(A) -> bool)
    requires
        forall|k: int| 0 <= k < s.len() ==> !p(#[trigger] s[k]),
    ensures
        first_index(s, p) is None,
    decreases s.len(),
{
    if s.len() > 0 {
        let t = s.drop_first();
        assert(!p(s[0]));
        assert forall|k: int| 0 <= k < t.len() implies !p(#[trigger] t[k]) by {
            assert(t[k] == s[k + 1]);
        }
        lemma_first_index_miss(t, p);
    }
}

/// What `first_index` finds: a place whose row meets the condition, with none before it
/// that does.
pub proof fn lemma_first_index<A>(s: Seq<A>, p: spec_fn(A) -> bool)
    ensures
        match first_index(s, p) {
            Some(i) => {
                &&& 0 <= i < s.len()
                &&& p(s[i])
                &&& forall|k: int| 0 <= k < i ==> !p(#[trigger] s[k])
            },
            None => forall|k: int| 0 <= k < s.len() ==> !p(#[trigger] s[k]),
        },
    decreases s.len(),
{
    if s.len() > 0 && !p(s[0]) {
        let t = s.drop_first();
        lemma_first_index(t, p);
        match first_index(t, p) {
            Some(j) => {
                assert(s[j + 1] == t[j]);
                assert forall|k: int| 0 <= k < j + 1 implies !p(#[trigger] s[k]) by {
                    if k > 0 {
                        assert(t[k - 1] == s[k]);
                    }
                }
            },
            None => {
                assert forall|k: int| 0 <= k < s.len() implies !p(#[trigger] s[k]) by {
                    if k > 0 {
                        assert(t[k - 1] == s[k]);
                    }
                }
            },
        }
    }
}

pub proof fn lemma_last_where_hit<A>(s: Seq<A>, p: spec_fn(A) -> bool, i: int)
    requires
        0 <= i < s.len(),
        p(s[i]),
        forall|k: int| i < k < s.len() ==> !p(#[trigger] s[k]),
    ensures
        last_where(s, p) == Some(s[i]),
    decreases s.len() - i,
{
    if i < s.len() - 1 {
        assert(!p(s[s.len() - 1]));
        lemma_last_where_hit(s.drop_last(), p, i);
    }
}

pub proof fn lemma_last_where_miss<A>(s: Seq<A>, p: spec_fn(A) -> bool)
    requires
        forall|k: int| 0 <= k < s.len() ==> !p(#[trigger] s[k]),
    ensures
        last_where(s, p) is None,
    decreases s.len(),
{
    if s.len() > 0 {
        assert(!p(s[s.len() - 1]));
        lemma_last_where_miss(s.drop_last(), p);
    }
}

pub proof fn lemma_upserted_hit<A>(s: Seq<A>, p: spec_fn(A) -> bool, row: A, i: int)
    requires
        0 <= i < s.len(),
        p(s[i]),
        forall|k: int| 0 <= k < i ==> !p(#[trigger] s[k]),
    ensures
        upserted(s, p, row) == s.update(i, row),
    decreases i,
{
    if i == 0 {
        assert(seq![row] + s.drop_first() =~= s.update(0, row));
    } else {
        let t = s.drop_first();
        assert(!p(s[0]));
        assert forall|k: int| 0 <= k < i - 1 implies !p(#[trigger] t[k]) by {
            assert(t[k] == s[k + 1]);
        }
        lemma_upserted_hit(t, p, row, i - 1);
        assert(seq![s[0]] + t.update(i - 1, row) =~= s.update(i, row));
    }
}

pub proof fn lemma_upserted_miss<A>(s: Seq<A>, p: spec_fn(A) -> bool, row: A)
    requires
        forall|k: int| 0 <= k < s.len() ==> !p(#[trigger] s[k]),
    ensures
        upserted(s, p, row) == s.push(row),
    decreases s.len(),
{
    if s.len() == 0 {
        assert(seq![row] =~= s.push(row));
    } else {
        let t = s.drop_first();
        assert(!p(s[0]));
        assert forall|k: int| 0 <= k < t.len() implies !p(#[trigger] t[k]) by {
            assert(t[k] == s[k + 1]);
        }
        lemma_upserted_miss(t, p, row);
        assert(seq![s[0]] + t.push(row) =~= s.push(row));
    }
}

/// One step of a filter that walks a table from the front.
pub proof fn lemma_filter_step<A>(s: Seq<A>, p: spec_fn(A) -> bool, i: int)
    requires
        0 <= i < s.len(),
    ensures
        s.take(i + 1).filter(p) == (if p(s[i]) {
            s.take(i).filter(p).push(s[i])
        } else {
            s.take(i).filter(p)
        }),
{
    reveal(Seq::filter);
    assert(s.take(i + 1).drop_last() =~= s.take(i));
    assert(s.take(i + 1).last() == s[i]);
}

/// The rows that a list of values stands for, after one more value.
pub proof fn lemma_deep_push<T: DeepView>(before: Vec<T>, after: Vec<T>, value: T)
    requires
        after@ == before@.push(value),
    ensures
        after.deep_view() == before.deep_view().push(value.deep_view()),
{
    assert(after.deep_view() =~= before.deep_view().push(value.deep_view()));
}

/// The rows that a list of values stands for, after one of them was replaced.
pub proof fn lemma_deep_update<T: DeepView>(before: Vec<T>, after: Vec<T>, i: int, value: T)
    requires
        0 <= i < before@.len(),
        after@ == before@.update(i, value),
    ensures
        after.deep_view() == before.deep_view().update(i, value.deep_view()),
{
    assert(after.deep_view() =~= before.deep_view().update(i, value.deep_view()));
}

/// The whole of a table is what stands before its end.
pub proof fn lemma_take_all<A>(s: Seq<A>)
    ensures
        s.take(s.len() as int) == s,
{
    assert(s.take(s.len() as int) =~= s);
}

/// A mapped table after one more row.
pub proof fn lemma_map_push<A, B>(s: Seq<A>, x: A, f: spec_fn(A) -> B)
    ensures
        s.push(x).map_values(f) == s.map_values(f).push(f(x)),
{
    assert(s.push(x).map_values(f) =~= s.map_values(f).push(f(x)));
}

/// A filtered table holds the rows of the table that meet the condition.
pub proof fn lemma_filter_member<A>(s: Seq<A>, p: spec_fn(A) -> bool, x: A)
    ensures
        s.filter(p).contains(x) <==> s.contains(x) && p(x),
    decreases s.len(),
{
    reveal(Seq::filter);
    if s.len() > 0 {
        let t = s.drop_last();
        lemma_filter_member(t, p, x);
        let rest = t.filter(p);
        let whole = s.filter(p);
        if whole.contains(x) {
            let k = choose|k: int| 0 <= k < whole.len() && whole[k] == x;
            if k < rest.len() {
                assert(rest[k] == x);
                let m = choose|m: int| 0 <= m < t.len() && t[m] == x;
                assert(s[m] == x);
            } else {
                assert(s[s.len() - 1] == x);
            }
        }
        if s.contains(x) && p(x) {
            let m = choose|m: int| 0 <= m < s.len() && s[m] == x;
            if m < t.len() {
                assert(t[m] == x);
                let k = choose|k: int| 0 <= k < rest.len() && rest[k] == x;
                assert(whole[k] == x);
            } else {
                assert(whole.last() == x);
            }
        }
    }
}

/// What a list holds after one more value.
pub proof fn lemma_push_contains<A>(s: Seq<A>, x: A, y: A)
    ensures
        s.push(x).contains(y) <==> s.contains(y) || x == y,
{
    if s.contains(y) {
        let i = choose|i: int| 0 <= i < s.len() && s[i] == y;
        assert(s.push(x)[i] == y);
    }
    if x == y {
        assert(s.push(x)[s.len() as int] == y);
    }
    if s.push(x).contains(y) && x != y {
        let i = choose|i: int| 0 <= i < s.push(x).len() && s.push(x)[i] == y;
        assert(s[i] == y);
    }
}

/// Replacing or adding a row that a filter keeps, under a condition that only such rows
/// meet, commutes with the filter.
pub proof fn lemma_filter_upserted<A>(s: Seq<A>, own: spec_fn(A) -> bool, key: spec_fn(A) -> bool, row: A)
    requires
        own(row),
        forall|x: A| #[trigger] key(x) ==> own(x),
    ensures
        upserted(s, key, row).filter(own) == upserted(s.filter(own), key, row),
    decreases s.len(),
{
    if s.len() == 0 {
        assert(seq![row] =~= seq![row] + Seq::<A>::empty());
        Seq::<A>::empty().lemma_filter_prepend(row, own);
        reveal(Seq::filter);
        assert(Seq::<A>::empty().filter(own) =~= Seq::empty());
        assert(s.filter(own) =~= Seq::empty());
        assert(upserted(s.filter(own), key, row) =~= seq![row]);
        assert((seq![row] + Seq::<A>::empty()).filter(own) =~= seq![row]);
    } else {
        let t = s.drop_first();
        assert(s =~= seq![s[0]] + t);
        t.lemma_filter_prepend(s[0], own);
        if key(s[0]) {
            t.lemma_filter_prepend(row, own);
            let f = s.filter(own);
            assert(f =~= seq![s[0]] + t.filter(own));
            assert(f.drop_first() =~= t.filter(own));
        } else {
            lemma_filter_upserted(t, own, key, row);
            upserted(t, key, row).lemma_filter_prepend(s[0], own);
            if own(s[0]) {
                let f = s.filter(own);
                assert(f =~= seq![s[0]] + t.filter(own));
                assert(f.drop_first() =~= t.filter(own));
                assert(f[0] == s[0]);
            } else {
                assert(Seq::<A>::empty() + upserted(t, key, row).filter(own) =~= upserted(
                    t,
                    key,
                    row,
                ).filter(own));
                assert(Seq::<A>::empty() + t.filter(own) =~= t.filter(own));
            }
        }
    }
}

/// Replacing or adding a row that a filter drops, under a condition that only such rows meet, is
/// not seen behind the filter.
pub proof fn lemma_filter_upserted_elsewhere<A>(s: Seq<A>, own: spec_fn(A) -> bool, key: spec_fn(A) -> bool, row: A)
    requires
        !own(row),
        forall|x: A| #[trigger] key(x) ==> !own(x),
    ensures
        upserted(s, key, row).filter(own) == s.filter(own),
    decreases s.len(),
{
    if s.len() == 0 {
        reveal(Seq::filter);
        assert(seq![row].drop_last() =~= s);
        assert(upserted(s, key, row) =~= seq![row]);
        assert(seq![row].filter(own) =~= s.filter(own));
    } else {
        let t = s.drop_first();
        assert(s =~= seq![s[0]] + t);
        t.lemma_filter_prepend(s[0], own);
        if key(s[0]) {
            t.lemma_filter_prepend(row, own);
        } else {
            lemma_filter_upserted_elsewhere(t, own, key, row);
            upserted(t, key, row).lemma_filter_prepend(s[0], own);
        }
    }
}

/// Replacing or adding a row commutes with a map that keeps what the condition looks at.
pub proof fn lemma_map_upserted<A>(s: Seq<A>, f: spec_fn(A) -> A, key: spec_fn(A) -> bool, row: A)
    requires
        forall|x: A| #[trigger] key(f(x)) == key(x),
    ensures
        upserted(s, key, row).map_values(f) == upserted(s.map_values(f), key, f(row)),
    decreases s.len(),
{
    if s.len() == 0 {
        assert(seq![row].map_values(f) =~= seq![f(row)]);
    } else {
        let t = s.drop_first();
        assert(s.map_values(f).drop_first() =~= t.map_values(f));
        assert(key(f(s[0])) == key(s[0]));
        if key(s[0]) {
            assert((seq![row] + t).map_values(f) =~= seq![f(row)] + t.map_values(f));
        } else {
            lemma_map_upserted(t, f, key, row);
            assert((seq![s[0]] + upserted(t, key, row)).map_values(f) =~= seq![f(s[0])] + upserted(
                t,
                key,
                row,
            ).map_values(f));
        }
    }
}

/// A filter commutes with a map that keeps what the condition looks at.
pub proof fn lemma_filter_map<A>(s: Seq<A>, f: spec_fn(A) -> A, p: spec_fn(A) -> bool)
    requires
        forall|x: A| #[trigger] p(f(x)) == p(x),
    ensures
        s.map_values(f).filter(p) == s.filter(p).map_values(f),
    decreases s.len(),
{
    reveal(Seq::filter);
    if s.len() == 0 {
        assert(s.map_values(f).filter(p) =~= s.filter(p).map_values(f));
    } else {
        let t = s.drop_last();
        lemma_filter_map(t, f, p);
        assert(s.map_values(f).drop_last() =~= t.map_values(f));
        assert(s.map_values(f).last() == f(s.last()));
        assert(p(f(s.last())) == p(s.last()));
        if p(s.last()) {
            lemma_map_push(t.filter(p), s.last(), f);
        }
    }
}

/// Two filters commute.
pub proof fn lemma_filter_filter<A>(s: Seq<A>, p: spec_fn(A) -> bool, q: spec_fn(A) -> bool)
    ensures
        s.filter(p).filter(q) == s.filter(q).filter(p),
    decreases s.len(),
{
    reveal(Seq::filter);
    if s.len() > 0 {
        let t = s.drop_last();
        let x = s.last();
        lemma_filter_filter(t, p, q);
        assert(t.filter(p).push(x).drop_last() =~= t.filter(p));
        assert(t.filter(q).push(x).drop_last() =~= t.filter(q));
    }
}

/// A filter whose rows all meet a second condition is not changed by filtering by that
/// condition first.
pub proof fn lemma_filter_implied<A>(s: Seq<A>, p: spec_fn(A) -> bool, q: spec_fn(A) -> bool)
    requires
        forall|x: A| #[trigger] q(x) ==> p(x),
    ensures
        s.filter(p).filter(q) == s.filter(q),
    decreases s.len(),
{
    reveal(Seq::filter);
    if s.len() > 0 {
        let t = s.drop_last();
        let x = s.last();
        lemma_filter_implied(t, p, q);
        assert(t.filter(p).push(x).drop_last() =~= t.filter(p));
    }
}

/// A row of a table in which a row was replaced or added is that row or was there before.
pub proof fn lemma_upserted_member<A>(s: Seq<A>, key: spec_fn(A) -> bool, row: A, i: int)
    requires
        0 <= i < upserted(s, key, row).len(),
    ensures
        upserted(s, key, row)[i] == row || s.contains(upserted(s, key, row)[i]),
    decreases s.len(),
{
    let after = upserted(s, key, row);
    if s.len() > 0 {
        let t = s.drop_first();
        if key(s[0]) {
            if i > 0 {
                assert(after[i] == s[i]);
            }
        } else if i == 0 {
            assert(after[0] == s[0]);
        } else {
            lemma_upserted_member(t, key, row, i - 1);
            assert(after[i] == upserted(t, key, row)[i - 1]);
            if t.contains(after[i]) {
                let k = choose|k: int| 0 <= k < t.len() && t[k] == after[i];
                assert(s[k + 1] == after[i]);
            }
        }
    }
}

/// The row that was put in place of the first one that meets a condition is found by it.
pub proof fn lemma_first_where_upserted<A>(s: Seq<A>, key: spec_fn(A) -> bool, row: A)
    requires
        key(row),
    ensures
        first_where(upserted(s, key, row), key) == Some(row),
    decreases s.len(),
{
    let after = upserted(s, key, row);
    if s.len() == 0 || key(s[0]) {
        assert(after[0] == row);
    } else {
        lemma_first_where_upserted(s.drop_first(), key, row);
        assert(after[0] == s[0]);
        assert(after.drop_first() =~= upserted(s.drop_first(), key, row));
    }
}

/// What is found by a condition that neither the new row nor a row in its place meets is found as
/// before.
pub proof fn lemma_first_where_upserted_elsewhere<A>(s: Seq<A>, key: spec_fn(A) -> bool, row: A, p: spec_fn(A) -> bool)
    requires
        !p(row),
        forall|x: A| #[trigger] key(x) ==> !p(x),
    ensures
        first_where(upserted(s, key, row), p) == first_where(s, p),
    decreases s.len(),
{
    reveal_with_fuel(first_where, 2);
    let after = upserted(s, key, row);
    if s.len() == 0 {
        assert(after[0] == row);
        assert(after.drop_first() =~= Seq::empty());
    } else if key(s[0]) {
        assert(after[0] == row);
        assert(after.drop_first() =~= s.drop_first());
    } else {
        lemma_first_where_upserted_elsewhere(s.drop_first(), key, row, p);
        assert(after[0] == s[0]);
        assert(after.drop_first() =~= upserted(s.drop_first(), key, row));
    }
}

/// Nothing is found by a condition after all that meets it was removed.
pub proof fn lemma_first_where_filtered<A>(s: Seq<A>, p: spec_fn(A) -> bool, q: spec_fn(A) -> bool)
    requires
        forall|x: A| #[trigger] q(x) ==> !p(x),
    ensures
        first_where(s.filter(q), p) is None,
{
    let t = s.filter(q);
    assert forall|k: int| 0 <= k < t.len() implies !p(#[trigger] t[k]) by {
        assert(t.contains(t[k]));
        lemma_filter_member(s, q, t[k]);
        assert(q(t[k]));
    }
    lemma_first_where_miss(t, p);
}

/// What holds of every two rows of a table that a filter keeps, in their order, holds of
/// every two rows of the filtered table.
pub proof fn lemma_filter_pairwise<A>(s: Seq<A>, p: spec_fn(A) -> bool, rel: spec_fn(A, A) -> bool)
    requires
        forall|i: int, k: int| 0 <= i < k < s.len() && p(s[i]) && p(s[k]) ==> rel(#[trigger] s[i], #[trigger] s[k]),
    ensures
        forall|i: int, k: int|
            0 <= i < k < s.filter(p).len() ==> rel(#[trigger] s.filter(p)[i], #[trigger] s.filter(p)[k]),
    decreases s.len(),
{
    reveal(Seq::filter);
    if s.len() > 0 {
        let t = s.drop_last();
        assert forall|i: int, k: int| 0 <= i < k < t.len() && p(t[i]) && p(t[k]) implies rel(
            #[trigger] t[i],
            #[trigger] t[k],
        ) by {
            assert(rel(s[i], s[k]));
        }
        lemma_filter_pairwise(t, p, rel);
        let rest = t.filter(p);
        let whole = s.filter(p);
        assert forall|i: int, k: int| 0 <= i < k < whole.len() implies rel(
            #[trigger] whole[i],
            #[trigger] whole[k],
        ) by {
            assert(whole[i] == rest[i]);
            if k < rest.len() {
                assert(whole[k] == rest[k]);
            } else {
                assert(rest.contains(rest[i]));
                lemma_filter_member(t, p, rest[i]);
                let m = choose|m: int| 0 <= m < t.len() && t[m] == rest[i];
                assert(s[m] == rest[i]);
                assert(whole[k] == s[s.len() - 1]);
                assert(rel(s[m], s[s.len() - 1]));
            }
        }
    }
}

/// A filter that drops the rows before a place and keeps the others.
pub proof fn lemma_filter_suffix<A>(s: Seq<A>, p: spec_fn(A) -> bool, c: int)
    requires
        0 <= c <= s.len(),
        forall|k: int| 0 <= k < s.len() ==> p(#[trigger] s[k]) == (k >= c),
    ensures
        s.filter(p) == s.skip(c),
    decreases s.len(),
{
    reveal(Seq::filter);
    if s.len() == 0 {
        assert(s.filter(p) =~= s.skip(c));
    } else {
        let t = s.drop_last();
        if c == s.len() {
            assert(!p(s[s.len() - 1]));
            lemma_filter_suffix(t, p, c - 1);
            assert(t.skip(c - 1) =~= s.skip(c));
        } else {
            assert(p(s[s.len() - 1]));
            lemma_filter_suffix(t, p, c);
            assert(t.skip(c).push(s.last()) =~= s.skip(c));
        }
    }
}

/// The last row that meets a condition is the same after other rows were filtered out.
pub proof fn lemma_last_where_filtered<A>(s: Seq<A>, q: spec_fn(A) -> bool, p: spec_fn(A) -> bool)
    requires
        forall|x: A| #[trigger] p(x) ==> q(x),
    ensures
        last_where(s.filter(q), p) == last_where(s, p),
    decreases s.len(),
{
    reveal(Seq::filter);
    if s.len() > 0 {
        let t = s.drop_last();
        lemma_last_where_filtered(t, q, p);
        if q(s.last()) {
            assert(t.filter(q).push(s.last()).drop_last() =~= t.filter(q));
        }
    }
}

/// The last row that meets a condition is the same without rows in front that do not meet it.
pub proof fn lemma_last_where_skip<A>(s: Seq<A>, p: spec_fn(A) -> bool, c: int)
    requires
        0 <= c <= s.len(),
        forall|k: int| 0 <= k < c ==> !p(#[trigger] s[k]),
    ensures
        last_where(s.skip(c), p) == last_where(s, p),
    decreases s.len() - c,
{
    if c == s.len() {
        assert(s.skip(c) =~= Seq::empty());
        lemma_last_where_miss(s, p);
    } else {
        assert(s.skip(c).last() == s.last());
        assert(s.skip(c).drop_last() =~= s.drop_last().skip(c));
        lemma_last_where_skip(s.drop_last(), p, c);
    }
}

/// Two conditions that agree on the rows of a table keep the same ones.
pub proof fn lemma_filter_same<A>(s: Seq<A>, p: spec_fn(A) -> bool, q: spec_fn(A) -> bool)
    requires
        forall|i: int| 0 <= i < s.len() ==> p(#[trigger] s[i]) == q(s[i]),
    ensures
        s.filter(p) == s.filter(q),
    decreases s.len(),
{
    reveal(Seq::filter);
    if s.len() > 0 {
        let t = s.drop_last();
        assert forall|i: int| 0 <= i < t.len() implies p(#[trigger] t[i]) == q(t[i]) by {
            assert(t[i] == s[i]);
        }
        lemma_filter_same(t, p, q);
        assert(p(s[s.len() - 1]) == q(s[s.len() - 1]));
    }
}

/// A condition that all rows of a table meet keeps the table.
pub proof fn lemma_filter_all<A>(s: Seq<A>, p: spec_fn(A) -> bool)
    requires
        forall|i: int| 0 <= i < s.len() ==> p(#[trigger] s[i]),
    ensures
        s.filter(p) == s,
    decreases s.len(),
{
    reveal(Seq::filter);
    if s.len() > 0 {
        let t = s.drop_last();
        assert forall|i: int| 0 <= i < t.len() implies p(#[trigger] t[i]) by {
            assert(t[i] == s[i]);
        }
        lemma_filter_all(t, p);
        assert(p(s[s.len() - 1]));
        assert(s =~= t.push(s.last()));
    } else {
        assert(s.filter(p) =~= s);
    }
}

/// What is kept by one condition and then by another is kept by both.
pub proof fn lemma_filter_both<A>(s: Seq<A>, p: spec_fn(A) -> bool, q: spec_fn(A) -> bool, both: spec_fn(A) -> bool)
    requires
        forall|x: A| #[trigger] both(x) == (p(x) && q(x)),
    ensures
        s.filter(p).filter(q) == s.filter(both),
    decreases s.len(),
{
    reveal(Seq::filter);
    if s.len() > 0 {
        let t = s.drop_last();
        lemma_filter_both(t, p, q, both);
        assert(both(s.last()) == (p(s.last()) && q(s.last())));
        assert(t.filter(p).push(s.last()).drop_last() =~= t.filter(p));
    }
}

/// The last row that meets a condition is the same without rows that do not meet it.
pub proof fn lemma_last_where_kept<A>(s: Seq<A>, q: spec_fn(A) -> bool, p: spec_fn(A) -> bool)
    requires
        forall|i: int| 0 <= i < s.len() && p(#[trigger] s[i]) ==> q(s[i]),
    ensures
        last_where(s.filter(q), p) == last_where(s, p),
    decreases s.len(),
{
    reveal(Seq::filter);
    if s.len() > 0 {
        let t = s.drop_last();
        assert forall|i: int| 0 <= i < t.len() && p(#[trigger] t[i]) implies q(t[i]) by {
            assert(t[i] == s[i]);
        }
        lemma_last_where_kept(t, q, p);
        assert(p(s[s.len() - 1]) ==> q(s[s.len() - 1]));
        if q(s.last()) {
            assert(t.filter(q).push(s.last()).drop_last() =~= t.filter(q));
        }
    }
}

/// Where the last row stands that is meant, if there is one.
pub proof fn lemma_last_where_places<A>(s: Seq<A>, p: spec_fn(A) -> bool)
    ensures
        match last_where(s, p) {
            Some(row) => exists|j: int|
                0 <= j < s.len() && #[trigger] s[j] == row && p(s[j]) && forall|l: int|
                    j < l < s.len() ==> !p(#[trigger] s[l]),
            None => forall|j: int| 0 <= j < s.len() ==> !p(#[trigger] s[j]),
        },
    decreases s.len(),
{
    if s.len() > 0 {
        let t = s.drop_last();
        lemma_last_where_places(t, p);
        if p(s.last()) {
            assert(s[s.len() - 1] == s.last());
        } else {
            match last_where(t, p) {
                Some(row) => {
                    let j = choose|j: int|
                        0 <= j < t.len() && #[trigger] t[j] == row && p(t[j]) && forall|l: int|
                            j < l < t.len() ==> !p(#[trigger] t[l]);
                    assert forall|l: int| j < l < s.len() implies !p(#[trigger] s[l]) by {
                        if l < t.len() {
                            assert(!p(t[l]));
                        }
                    }
                    assert(s[j] == row);
                },
                None => {
                    assert forall|j: int| 0 <= j < s.len() implies !p(#[trigger] s[j]) by {
                        if j < t.len() {
                            assert(!p(t[j]));
                        }
                    }
                },
            }
        }
    }
}

/// Whether places stand one behind the other among the first `n`.
pub open spec fn rising_places(places: Seq<int>, n: int) -> bool {
    &&& forall|m: int| 0 <= m < places.len() ==> 0 <= #[trigger] places[m] < n
    &&& forall|a: int, b: int| 0 <= a < b < places.len() ==> #[trigger] places[a] < #[trigger] places[b]
}

/// Where the rows stand that are kept.
pub proof fn lemma_filter_places<A>(s: Seq<A>, p: spec_fn(A) -> bool) -> (places: Seq<int>)
    ensures
        rising_places(places, s.len() as int),
        places.len() == s.filter(p).len(),
        forall|m: int| 0 <= m < places.len() ==> s.filter(p)[m] == s[#[trigger] places[m]] && p(s[places[m]]),
        forall|k: int| 0 <= k < s.len() && p(#[trigger] s[k]) ==> places.contains(k),
    decreases s.len(),
{
    reveal(Seq::filter);
    if s.len() == 0 {
        Seq::empty()
    } else {
        let t = s.drop_last();
        let front = lemma_filter_places(t, p);
        let last = s.len() - 1;
        if p(s.last()) {
            let places = front.push(last);
            assert forall|k: int| 0 <= k < s.len() && p(#[trigger] s[k]) implies places.contains(k) by {
                if k < last {
                    assert(t[k] == s[k]);
                    let m = choose|m: int| 0 <= m < front.len() && front[m] == k;
                    assert(places[m] == k);
                } else {
                    assert(places[front.len() as int] == k);
                }
            }
            assert forall|m: int| 0 <= m < places.len() implies s.filter(p)[m] == s[#[trigger] places[m]] && p(
                s[places[m]],
            ) by {
                if m < front.len() {
                    assert(t.filter(p)[m] == t[front[m]]);
                }
            }
            places
        } else {
            assert forall|k: int| 0 <= k < s.len() && p(#[trigger] s[k]) implies front.contains(k) by {
                assert(t[k] == s[k]);
            }
            assert forall|m: int| 0 <= m < front.len() implies s.filter(p)[m] == s[#[trigger] front[m]] && p(
                s[front[m]],
            ) by {
                assert(t.filter(p)[m] == t[front[m]]);
            }
            front
        }
    }
}

/// A kind of row that can be copied.
pub trait Copied: DeepView + Sized {
    /// A row that stands for the same.
    fn copied(&self) -> (r: Self)
        ensures
            r.deep_view() == self.deep_view(),
    ;
}

/// A copy of a table.
pub fn copy_rows<T: Copied>(table: &Vec<T>) -> (r: Vec<T>)
    ensures
        r.deep_view() == table.deep_view(),
{
    let mut out: Vec<T> = Vec::new();
    let mut i: usize = 0;
    while i < table.len()
        invariant
            0 <= i <= table@.len(),
            out@.len() == i,
            forall|k: int| 0 <= k < i ==> (#[trigger] out@[k]).deep_view() == table@[k].deep_view(),
        decreases table@.len() - i,
    {
        out.push(table[i].copied());
        i += 1;
    }
    assert(out.deep_view() =~= table.deep_view());
    out
}

/// Where the first row stands that is meant.
pub(crate) fn position<T: DeepView, F: Fn(&T) -> bool>(table: &Vec<T>, meant: F, Ghost(p): Ghost<spec_fn(T::V) -> bool>) -> (r: Option<
    usize,
>)
    requires
        forall|row: &T| call_requires(meant, (row,)),
        forall|row: &T, b: bool| #[trigger] call_ensures(meant, (row,), b) ==> b == p(row.deep_view()),
    ensures
        match r {
            Some(i) => {
                &&& i < table@.len()
                &&& p(table.deep_view()[i as int])
                &&& table.deep_view()[i as int] == table@[i as int].deep_view()
                &&& first_where(table.deep_view(), p) == Some(table@[i as int].deep_view())
                &&& first_index(table.deep_view(), p) == Some(i as int)
                &&& forall|k: int| 0 <= k < i ==> !p(#[trigger] table.deep_view()[k])
            },
            None => {
                &&& first_where(table.deep_view(), p) is None
                &&& first_index(table.deep_view(), p) is None
                &&& forall|k: int| 0 <= k < table@.len() ==> !p(#[trigger] table.deep_view()[k])
            },
        },
{
    let ghost all = table.deep_view();
    let mut i: usize = 0;
    while i < table.len()
        invariant
            0 <= i <= table@.len(),
            all == table.deep_view(),
            forall|row: &T| call_requires(meant, (row,)),
            forall|row: &T, b: bool| #[trigger] call_ensures(meant, (row,), b) ==> b == p(row.deep_view()),
            forall|k: int| 0 <= k < i ==> !p(#[trigger] all[k]),
        decreases table@.len() - i,
    {
        assert(all[i as int] == table@[i as int].deep_view());
        if meant(&table[i]) {
            proof {
                lemma_first_where_hit(all, p, i as int);
                lemma_first_index_hit(all, p, i as int);
            }
            return Some(i);
        }
        i += 1;
    }
    proof {
        lemma_first_where_miss(all, p);
        lemma_first_index_miss(all, p);
    }
    None
}

/// The rows that are kept, in their order.
pub(crate) fn kept_rows<T: Copied, F: Fn(&T) -> bool>(table: &Vec<T>, keep: F, Ghost(p): Ghost<spec_fn(T::V) -> bool>) -> (r: Vec<T>)
    requires
        forall|row: &T| call_requires(keep, (row,)),
        forall|row: &T, b: bool| #[trigger] call_ensures(keep, (row,), b) ==> b == p(row.deep_view()),
    ensures
        r.deep_view() == table.deep_view().filter(p),
{
    let ghost all = table.deep_view();
    let mut out: Vec<T> = Vec::new();
    let mut i: usize = 0;
    assert(out.deep_view() =~= all.take(0).filter(p)) by {
        reveal(Seq::filter);
    }
    while i < table.len()
        invariant
            0 <= i <= table@.len(),
            all == table.deep_view(),
            forall|row: &T| call_requires(keep, (row,)),
            forall|row: &T, b: bool| #[trigger] call_ensures(keep, (row,), b) ==> b == p(row.deep_view()),
            out.deep_view() == all.take(i as int).filter(p),
        decreases table@.len() - i,
    {
        proof {
            assert(all[i as int] == table@[i as int].deep_view());
            lemma_filter_step(all, p, i as int);
        }
        if keep(&table[i]) {
            let copy = table[i].copied();
            let ghost before = out;
            let ghost value = copy;
            out.push(copy);
            proof {
                lemma_deep_push(before, out, value);
            }
        }
        i += 1;
    }
    proof {
        lemma_take_all(all);
    }
    out
}

/// What the rows that are kept are read as, in their order.
pub(crate) fn read_rows<T: DeepView, U: DeepView, F: Fn(&T) -> bool, G: Fn(&T) -> U>(
    table: &Vec<T>,
    keep: F,
    read: G,
    Ghost(p): Ghost<spec_fn(T::V) -> bool>,
    Ghost(f): Ghost<spec_fn(T::V) -> U::V>,
) -> (r: Vec<U>)
    requires
        forall|row: &T| call_requires(keep, (row,)),
        forall|row: &T, b: bool| #[trigger] call_ensures(keep, (row,), b) ==> b == p(row.deep_view()),
        forall|row: &T| p(row.deep_view()) ==> call_requires(read, (row,)),
        forall|row: &T, u: U| #[trigger] call_ensures(read, (row,), u) ==> u.deep_view() == f(row.deep_view()),
    ensures
        r.deep_view() == table.deep_view().filter(p).map_values(f),
{
    let ghost all = table.deep_view();
    let mut out: Vec<U> = Vec::new();
    let mut i: usize = 0;
    assert(out.deep_view() =~= all.take(0).filter(p).map_values(f)) by {
        reveal(Seq::filter);
    }
    while i < table.len()
        invariant
            0 <= i <= table@.len(),
            all == table.deep_view(),
            forall|row: &T| call_requires(keep, (row,)),
            forall|row: &T, b: bool| #[trigger] call_ensures(keep, (row,), b) ==> b == p(row.deep_view()),
            forall|row: &T| p(row.deep_view()) ==> call_requires(read, (row,)),
            forall|row: &T, u: U| #[trigger] call_ensures(read, (row,), u) ==> u.deep_view() == f(row.deep_view()),
            out.deep_view() == all.take(i as int).filter(p).map_values(f),
        decreases table@.len() - i,
    {
        proof {
            assert(all[i as int] == table@[i as int].deep_view());
            lemma_filter_step(all, p, i as int);
        }
        if keep(&table[i]) {
            let ghost front = all.take(i as int).filter(p);
            let made = read(&table[i]);
            let ghost before = out;
            let ghost value = made;
            out.push(made);
            proof {
                lemma_deep_push(before, out, value);
                lemma_map_push(front, all[i as int], f);
            }
        }
        i += 1;
    }
    proof {
        lemma_take_all(all);
    }
    out
}

/// A row is found first among those that are kept where every row that is sought is kept.
pub proof fn lemma_first_where_kept<A>(s: Seq<A>, keep: spec_fn(A) -> bool, p: spec_fn(A) -> bool)
    requires
        forall|x: A| #[trigger] p(x) ==> keep(x),
    ensures
        first_where(s.filter(keep), p) == first_where(s, p),
{
    let places = lemma_filter_places(s, keep);
    let t = s.filter(keep);
    let i = lemma_first_where(s, p);
    if any_where(s, p) {
        assert(p(s[i]));
        assert(places.contains(i));
        let m = choose|m: int| 0 <= m < places.len() && places[m] == i;
        assert forall|k: int| 0 <= k < m implies !p(#[trigger] t[k]) by {
            assert(t[k] == s[places[k]]);
            assert(places[k] < places[m]);
        }
        assert(t[m] == s[places[m]]);
        lemma_first_where_hit(t, p, m);
    } else {
        assert forall|k: int| 0 <= k < t.len() implies !p(#[trigger] t[k]) by {
            assert(t[k] == s[places[k]]);
        }
        lemma_first_where_miss(t, p);
    }
}

/// What stands in two tables one behind the other stands in one of them.
pub proof fn lemma_either<A>(a: Seq<A>, b: Seq<A>, x: A)
    ensures
        (a + b).contains(x) <==> a.contains(x) || b.contains(x),
{
    if a.contains(x) {
        let i = choose|i: int| 0 <= i < a.len() && a[i] == x;
        assert((a + b)[i] == x);
    }
    if b.contains(x) {
        let i = choose|i: int| 0 <= i < b.len() && b[i] == x;
        assert((a + b)[a.len() + i] == x);
    }
}

} // verus!
