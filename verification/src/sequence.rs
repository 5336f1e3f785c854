//! Rows in the order of the numbers that they have.

use vstd::prelude::*;

use crate::rows;

verus! {

/// A kind of row that is listed in the order of a number.
pub trait Numbered: DeepView + Sized {
    /// The number by which a row is ordered.
    spec fn number_of(row: Self::V) -> int;

    /// The number by which the row is ordered.
    fn number(&self) -> (r: i64)
        ensures
            r == Self::number_of(self.deep_view()),
    ;
}

/// The number by which rows are ordered.
pub open spec fn number_fn<T: Numbered>() -> spec_fn(T::V) -> int {
    |row: T::V| T::number_of(row)
}

/// Rows in order with one more, behind those that do not come after it.
pub open spec fn put_in<A>(s: Seq<A>, number: spec_fn(A) -> int, row: A) -> Seq<A>
    decreases s.len(),
{
    if s.len() == 0 || number(s.last()) <= number(row) {
        s.push(row)
    } else {
        put_in(s.drop_last(), number, row).push(s.last())
    }
}

/// Rows in the order of their numbers; rows with the same number keep their order.
pub open spec fn in_sequence<A>(s: Seq<A>, number: spec_fn(A) -> int) -> Seq<A>
    decreases s.len(),
{
    if s.len() == 0 {
        s
    } else {
        put_in(in_sequence(s.drop_last(), number), number, s.last())
    }
}

/// Whether no row has a lower number than an earlier one.
pub open spec fn rising<A>(s: Seq<A>, number: spec_fn(A) -> int) -> bool {
    forall|i: int, k: int| 0 <= i < k < s.len() ==> number(#[trigger] s[i]) <= number(#[trigger] s[k])
}

/// Whether no row has a higher number than one.
pub open spec fn none_above<A>(s: Seq<A>, number: spec_fn(A) -> int, row: A) -> bool {
    forall|i: int| 0 <= i < s.len() ==> number(#[trigger] s[i]) <= number(row)
}

proof fn lemma_put_in_at<A>(s: Seq<A>, number: spec_fn(A) -> int, row: A, at: int)
    requires
        0 <= at <= s.len(),
        forall|k: int| at <= k < s.len() ==> number(row) < number(#[trigger] s[k]),
        at > 0 ==> number(s[at - 1]) <= number(row),
    ensures
        put_in(s, number, row) == s.insert(at, row),
    decreases s.len(),
{
    if at == s.len() {
        assert(s.insert(at, row) =~= s.push(row));
    } else {
        assert(number(row) < number(s[s.len() - 1]));
        lemma_put_in_at(s.drop_last(), number, row, at);
        assert(s.drop_last().insert(at, row).push(s.last()) =~= s.insert(at, row));
    }
}

proof fn lemma_put_in_member<A>(s: Seq<A>, number: spec_fn(A) -> int, row: A, x: A)
    ensures
        put_in(s, number, row).contains(x) <==> s.contains(x) || x == row,
        put_in(s, number, row).len() == s.len() + 1,
    decreases s.len(),
{
    if s.len() == 0 || number(s.last()) <= number(row) {
        rows::lemma_push_contains(s, row, x);
    } else {
        let t = s.drop_last();
        lemma_put_in_member(t, number, row, x);
        rows::lemma_push_contains(put_in(t, number, row), s.last(), x);
        rows::lemma_push_contains(t, s.last(), x);
        assert(t.push(s.last()) =~= s);
    }
}

/// Rows in order are the same rows.
pub proof fn lemma_member<A>(s: Seq<A>, number: spec_fn(A) -> int, x: A)
    ensures
        in_sequence(s, number).contains(x) <==> s.contains(x),
        in_sequence(s, number).len() == s.len(),
    decreases s.len(),
{
    if s.len() > 0 {
        let t = s.drop_last();
        lemma_member(t, number, x);
        lemma_put_in_member(in_sequence(t, number), number, s.last(), x);
        rows::lemma_push_contains(t, s.last(), x);
        assert(t.push(s.last()) =~= s);
    }
}

proof fn lemma_put_in_rises<A>(s: Seq<A>, number: spec_fn(A) -> int, row: A)
    requires
        rising(s, number),
    ensures
        rising(put_in(s, number, row), number),
    decreases s.len(),
{
    if s.len() == 0 || number(s.last()) <= number(row) {
        assert forall|i: int, k: int| 0 <= i < k < s.push(row).len() implies number(#[trigger] s.push(row)[i]) <= number(
            #[trigger] s.push(row)[k],
        ) by {
            if i < s.len() - 1 && k == s.len() {
                assert(number(s[i]) <= number(s[s.len() - 1]));
            }
        }
    } else {
        let t = s.drop_last();
        let u = put_in(t, number, row);
        assert(rising(t, number)) by {
            assert forall|i: int, k: int| 0 <= i < k < t.len() implies number(#[trigger] t[i]) <= number(
                #[trigger] t[k],
            ) by {
                assert(number(s[i]) <= number(s[k]));
            }
        }
        lemma_put_in_rises(t, number, row);
        assert forall|i: int| 0 <= i < u.len() implies number(#[trigger] u[i]) <= number(s.last()) by {
            assert(u.contains(u[i]));
            lemma_put_in_member(t, number, row, u[i]);
            if u[i] != row {
                let k = choose|k: int| 0 <= k < t.len() && t[k] == u[i];
                assert(number(s[k]) <= number(s[s.len() - 1]));
            }
        }
        assert forall|i: int, k: int| 0 <= i < k < u.push(s.last()).len() implies number(
            #[trigger] u.push(s.last())[i],
        ) <= number(#[trigger] u.push(s.last())[k]) by {
            if k < u.len() {
                assert(number(u[i]) <= number(u[k]));
            }
        }
    }
}

/// Rows in order rise.
pub proof fn lemma_rises<A>(s: Seq<A>, number: spec_fn(A) -> int)
    ensures
        rising(in_sequence(s, number), number),
    decreases s.len(),
{
    if s.len() > 0 {
        lemma_rises(s.drop_last(), number);
        lemma_put_in_rises(in_sequence(s.drop_last(), number), number, s.last());
    }
}

/// A row that no other is above comes last.
pub proof fn lemma_push_highest<A>(s: Seq<A>, number: spec_fn(A) -> int, row: A)
    requires
        none_above(s, number, row),
    ensures
        in_sequence(s.push(row), number) == in_sequence(s, number).push(row),
{
    let t = in_sequence(s, number);
    assert(s.push(row).drop_last() =~= s);
    if t.len() > 0 {
        assert(t.contains(t.last()));
        lemma_member(s, number, t.last());
        let k = choose|k: int| 0 <= k < s.len() && s[k] == t.last();
        assert(number(s[k]) <= number(row));
    }
}

proof fn lemma_put_in_pairwise<A>(s: Seq<A>, number: spec_fn(A) -> int, row: A, rel: spec_fn(A, A) -> bool)
    requires
        forall|i: int, k: int| 0 <= i < s.len() && 0 <= k < s.len() && i != k ==> rel(#[trigger] s[i], #[trigger] s[k]),
        forall|i: int| 0 <= i < s.len() ==> rel(#[trigger] s[i], row) && rel(row, s[i]),
    ensures
        ({
            let u = put_in(s, number, row);
            forall|i: int, k: int| 0 <= i < u.len() && 0 <= k < u.len() && i != k ==> rel(#[trigger] u[i], #[trigger] u[k])
        }),
    decreases s.len(),
{
    if s.len() > 0 && number(s.last()) > number(row) {
        let t = s.drop_last();
        let u = put_in(t, number, row);
        let x = s.last();
        assert forall|i: int, k: int| 0 <= i < t.len() && 0 <= k < t.len() && i != k implies rel(
            #[trigger] t[i],
            #[trigger] t[k],
        ) by {
            assert(rel(s[i], s[k]));
        }
        assert forall|i: int| 0 <= i < t.len() implies rel(#[trigger] t[i], row) && rel(row, t[i]) by {
            assert(rel(s[i], row));
        }
        lemma_put_in_pairwise(t, number, row, rel);
        assert forall|i: int| 0 <= i < u.len() implies rel(#[trigger] u[i], x) && rel(x, u[i]) by {
            assert(u.contains(u[i]));
            lemma_put_in_member(t, number, row, u[i]);
            assert(rel(s[s.len() - 1], row));
            if u[i] != row {
                let k = choose|k: int| 0 <= k < t.len() && t[k] == u[i];
                assert(rel(s[k], s[s.len() - 1]));
                assert(rel(s[s.len() - 1], s[k]));
            }
        }
        assert forall|i: int, k: int| 0 <= i < u.push(x).len() && 0 <= k < u.push(x).len() && i != k implies rel(
            #[trigger] u.push(x)[i],
            #[trigger] u.push(x)[k],
        ) by {
            if i < u.len() && k < u.len() {
                assert(rel(u[i], u[k]));
            }
        }
    }
}

/// What holds between any two rows holds between them in order.
pub proof fn lemma_pairwise<A>(s: Seq<A>, number: spec_fn(A) -> int, rel: spec_fn(A, A) -> bool)
    requires
        forall|i: int, k: int| 0 <= i < s.len() && 0 <= k < s.len() && i != k ==> rel(#[trigger] s[i], #[trigger] s[k]),
    ensures
        ({
            let u = in_sequence(s, number);
            forall|i: int, k: int| 0 <= i < u.len() && 0 <= k < u.len() && i != k ==> rel(#[trigger] u[i], #[trigger] u[k])
        }),
    decreases s.len(),
{
    if s.len() > 0 {
        let t = s.drop_last();
        let u = in_sequence(t, number);
        assert forall|i: int, k: int| 0 <= i < t.len() && 0 <= k < t.len() && i != k implies rel(
            #[trigger] t[i],
            #[trigger] t[k],
        ) by {
            assert(rel(s[i], s[k]));
        }
        lemma_pairwise(t, number, rel);
        assert forall|i: int| 0 <= i < u.len() implies rel(#[trigger] u[i], s.last()) && rel(s.last(), u[i]) by {
            assert(u.contains(u[i]));
            lemma_member(t, number, u[i]);
            let k = choose|k: int| 0 <= k < t.len() && t[k] == u[i];
            assert(rel(s[k], s[s.len() - 1]));
            assert(rel(s[s.len() - 1], s[k]));
        }
        lemma_put_in_pairwise(u, number, s.last(), rel);
    }
}

/// Rows that rise are in order as they are.
pub proof fn lemma_rising_stays<A>(s: Seq<A>, number: spec_fn(A) -> int)
    requires
        rising(s, number),
    ensures
        in_sequence(s, number) == s,
    decreases s.len(),
{
    if s.len() > 0 {
        let t = s.drop_last();
        assert forall|i: int, k: int| 0 <= i < k < t.len() implies number(#[trigger] t[i]) <= number(#[trigger] t[k]) by {
            assert(number(s[i]) <= number(s[k]));
        }
        lemma_rising_stays(t, number);
        if t.len() > 0 {
            assert(number(s[t.len() - 1]) <= number(s[s.len() - 1]));
        }
        assert(t.push(s.last()) =~= s);
    }
}

proof fn lemma_put_in_filter<A>(s: Seq<A>, number: spec_fn(A) -> int, row: A, p: spec_fn(A) -> bool)
    requires
        rising(s, number),
    ensures
        put_in(s, number, row).filter(p) == (if p(row) {
            put_in(s.filter(p), number, row)
        } else {
            s.filter(p)
        }),
    decreases s.len(),
{
    reveal(Seq::filter);
    if s.len() == 0 || number(s.last()) <= number(row) {
        assert(s.push(row).drop_last() =~= s);
        let f = s.filter(p);
        if f.len() > 0 {
            assert(f.contains(f.last()));
            rows::lemma_filter_member(s, p, f.last());
            let k = choose|k: int| 0 <= k < s.len() && s[k] == f.last();
            if k < s.len() - 1 {
                assert(number(s[k]) <= number(s[s.len() - 1]));
            }
        }
    } else {
        let t = s.drop_last();
        assert(rising(t, number)) by {
            assert forall|i: int, k: int| 0 <= i < k < t.len() implies number(#[trigger] t[i]) <= number(
                #[trigger] t[k],
            ) by {
                assert(number(s[i]) <= number(s[k]));
            }
        }
        lemma_put_in_filter(t, number, row, p);
        let u = put_in(t, number, row);
        assert(u.push(s.last()).drop_last() =~= u);
        if p(s.last()) {
            assert(t.filter(p).push(s.last()).drop_last() =~= t.filter(p));
        }
    }
}

/// It is the same whether rows are put in order or picked first.
pub proof fn lemma_filter<A>(s: Seq<A>, number: spec_fn(A) -> int, p: spec_fn(A) -> bool)
    ensures
        in_sequence(s.filter(p), number) == in_sequence(s, number).filter(p),
    decreases s.len(),
{
    reveal(Seq::filter);
    if s.len() > 0 {
        let t = s.drop_last();
        lemma_filter(t, number, p);
        lemma_rises(t, number);
        lemma_put_in_filter(in_sequence(t, number), number, s.last(), p);
        if p(s.last()) {
            assert(t.filter(p).push(s.last()).drop_last() =~= t.filter(p));
        }
    }
}

/// Of the rows in order the last one has the highest number.
pub proof fn lemma_last_is_highest<A>(s: Seq<A>, number: spec_fn(A) -> int)
    requires
        s.len() > 0,
    ensures
        in_sequence(s, number).len() == s.len(),
        s.contains(in_sequence(s, number).last()),
        none_above(s, number, in_sequence(s, number).last()),
{
    let t = in_sequence(s, number);
    lemma_rises(s, number);
    lemma_member(s, number, t.last());
    assert(t.contains(t[t.len() - 1]));
    assert forall|i: int| 0 <= i < s.len() implies number(#[trigger] s[i]) <= number(t.last()) by {
        assert(s.contains(s[i]));
        lemma_member(s, number, s[i]);
        let k = choose|k: int| 0 <= k < t.len() && t[k] == s[i];
        if k < t.len() - 1 {
            assert(number(t[k]) <= number(t[t.len() - 1]));
        }
    }
}

/// Puts a row where it belongs among rows in order.
fn place<T: Numbered>(rows_in: &mut Vec<T>, row: T)
    ensures
        final(rows_in).deep_view() == put_in(old(rows_in).deep_view(), number_fn::<T>(), row.deep_view()),
{
    let ghost all = rows_in.deep_view();
    let ghost number = number_fn::<T>();
    let n: i64 = row.number();
    let mut at: usize = rows_in.len();
    while at > 0 && n < rows_in[at - 1].number()
        invariant
            0 <= at <= rows_in@.len(),
            all == rows_in.deep_view(),
            number == number_fn::<T>(),
            n == number(row.deep_view()),
            *rows_in == *old(rows_in),
            forall|k: int| at <= k < all.len() ==> number(row.deep_view()) < number(#[trigger] all[k]),
        ensures
            0 <= at <= rows_in@.len(),
            *rows_in == *old(rows_in),
            forall|k: int| at <= k < all.len() ==> number(row.deep_view()) < number(#[trigger] all[k]),
            at > 0 ==> number(all[at - 1]) <= number(row.deep_view()),
        decreases at,
    {
        assert(all[at - 1] == rows_in@[at - 1].deep_view());
        at -= 1;
    }
    proof {
        lemma_put_in_at(all, number, row.deep_view(), at as int);
    }
    let ghost value = row;
    let ghost before = *rows_in;
    rows_in.insert(at, row);
    assert(rows_in.deep_view() =~= before.deep_view().insert(at as int, value.deep_view()));
}

/// Puts rows in the order of their numbers; rows with the same number keep their order.
pub fn line_up<T: Numbered>(v: Vec<T>) -> (r: Vec<T>)
    ensures
        r.deep_view() == in_sequence(v.deep_view(), number_fn::<T>()),
{
    let ghost all = v.deep_view();
    let ghost number = number_fn::<T>();
    let mut rest = v;
    let mut out: Vec<T> = Vec::new();
    let ghost mut done: int = 0;
    assert(all.skip(0) =~= all);
    assert(out.deep_view() =~= all.take(0));
    while rest.len() > 0
        invariant
            0 <= done <= all.len(),
            number == number_fn::<T>(),
            rest.deep_view() == all.skip(done),
            out.deep_view() == in_sequence(all.take(done), number),
        decreases rest@.len(),
    {
        let ghost before = rest;
        let row = rest.remove(0);
        proof {
            assert(before.deep_view().len() == before@.len());
            assert(before.deep_view()[0] == all[done]);
            assert(rest.deep_view() =~= all.skip(done + 1)) by {
                assert forall|k: int| 0 <= k < rest@.len() implies rest.deep_view()[k] == all.skip(done + 1)[k] by {
                    assert(rest@[k] == before@[k + 1]);
                    assert(before.deep_view()[k + 1] == all.skip(done)[k + 1]);
                }
            }
            assert(all.take(done + 1).drop_last() =~= all.take(done));
            assert(all.take(done + 1).last() == all[done]);
            done = done + 1;
        }
        place(&mut out, row);
    }
    proof {
        assert(rest.deep_view().len() == 0);
        assert(all.take(done) =~= all);
    }
    out
}

} // verus!
