//! What goes with an entry: the entries that target it, those that target them, and so on.

use vstd::prelude::*;

use super::model::{EntryView, LedgerEntry};
use crate::{json, rows, text};

verus! {

/// Whether an entry is `root`, or reaches it through at most `steps` targets.
pub open spec fn reaches(entries: Seq<EntryView>, root: Seq<char>, steps: nat, id: Seq<char>) -> bool
    decreases steps,
{
    ||| id == root
    ||| steps > 0 && exists|i: int|
        0 <= i < entries.len() && (#[trigger] entries[i]).id == id
            && entries[i].target_entry_id is Some && reaches(
            entries,
            root,
            (steps - 1) as nat,
            entries[i].target_entry_id->0,
        )
}

/// Whether an identifier goes with `root`: it is `root`, or reaches it through targets.
pub open spec fn doomed(entries: Seq<EntryView>, root: Seq<char>, id: Seq<char>) -> bool {
    exists|steps: nat| reaches(entries, root, steps, id)
}

/// The entries that go with `root`.
pub open spec fn doomed_entries_of(entries: Seq<EntryView>, root: Seq<char>) -> Seq<EntryView> {
    entries.filter(|e: EntryView| doomed(entries, root, e.id))
}

/// What is left of a ledger when `root` goes.
pub open spec fn without_doomed(entries: Seq<EntryView>, root: Seq<char>) -> Seq<EntryView> {
    entries.filter(|e: EntryView| !doomed(entries, root, e.id))
}

/// Whether an identifier is `root` or that of a marked entry.
spec fn marked_id(entries: Seq<EntryView>, marks: Seq<bool>, root: Seq<char>, id: Seq<char>) -> bool {
    ||| id == root
    ||| exists|i: int| 0 <= i < entries.len() && marks[i] && (#[trigger] entries[i]).id == id
}

/// The number of entries that are not marked.
spec fn unmarked(marks: Seq<bool>) -> nat
    decreases marks.len(),
{
    if marks.len() == 0 {
        0
    } else {
        unmarked(marks.drop_last()) + (if marks.last() {
            0nat
        } else {
            1nat
        })
    }
}

proof fn lemma_mark(marks: Seq<bool>, i: int)
    requires
        0 <= i < marks.len(),
        !marks[i],
    ensures
        unmarked(marks.update(i, true)) == unmarked(marks) - 1,
    decreases marks.len(),
{
    let after = marks.update(i, true);
    if i == marks.len() - 1 {
        assert(after.drop_last() =~= marks.drop_last());
    } else {
        lemma_mark(marks.drop_last(), i);
        assert(after.drop_last() =~= marks.drop_last().update(i, true));
    }
}

proof fn lemma_doomed_step(entries: Seq<EntryView>, root: Seq<char>, i: int)
    requires
        0 <= i < entries.len(),
        entries[i].target_entry_id is Some,
        doomed(entries, root, entries[i].target_entry_id->0),
    ensures
        doomed(entries, root, entries[i].id),
{
    let steps = choose|steps: nat| reaches(entries, root, steps, entries[i].target_entry_id->0);
    assert(reaches(entries, root, steps + 1, entries[i].id));
}

/// Where the marked entries are closed under targets, whatever reaches `root` is marked.
proof fn lemma_closed(entries: Seq<EntryView>, marks: Seq<bool>, root: Seq<char>, steps: nat, id: Seq<char>)
    requires
        marks.len() == entries.len(),
        forall|i: int|
            0 <= i < entries.len() && (#[trigger] entries[i]).target_entry_id is Some && marked_id(
                entries,
                marks,
                root,
                entries[i].target_entry_id->0,
            ) ==> marks[i],
        reaches(entries, root, steps, id),
    ensures
        marked_id(entries, marks, root, id),
    decreases steps,
{
    if id != root {
        let i = choose|i: int|
            0 <= i < entries.len() && (#[trigger] entries[i]).id == id
                && entries[i].target_entry_id is Some && reaches(
                entries,
                root,
                (steps - 1) as nat,
                entries[i].target_entry_id->0,
            );
        lemma_closed(entries, marks, root, (steps - 1) as nat, entries[i].target_entry_id->0);
    }
}

fn is_marked(entries: &Vec<LedgerEntry>, marks: &Vec<bool>, root: &str, id: &str) -> (r: bool)
    requires
        marks@.len() == entries@.len(),
    ensures
        r == marked_id(entries.deep_view(), marks@, root@, id@),
{
    if text::same_text(id, root) {
        return true;
    }
    let ghost all = entries.deep_view();
    let mut i: usize = 0;
    while i < entries.len()
        invariant
            0 <= i <= entries@.len(),
            all == entries.deep_view(),
            marks@.len() == entries@.len(),
            id@ != root@,
            forall|k: int| 0 <= k < i ==> !(marks@[k] && (#[trigger] all[k]).id == id@),
        decreases entries@.len() - i,
    {
        assert(all[i as int] == entries@[i as int]@);
        if marks[i] && text::same_text(entries[i].id.as_str(), id) {
            return true;
        }
        i += 1;
    }
    false
}

/// Marks the entries that go with `root`.
fn mark_doomed(entries: &Vec<LedgerEntry>, root: &str) -> (marks: Vec<bool>)
    ensures
        marks@.len() == entries@.len(),
        forall|id: Seq<char>|
            #[trigger] marked_id(entries.deep_view(), marks@, root@, id) == doomed(
                entries.deep_view(),
                root@,
                id,
            ),
{
    let ghost all = entries.deep_view();
    let mut marks: Vec<bool> = Vec::new();
    let mut n: usize = 0;
    while n < entries.len()
        invariant
            0 <= n <= entries@.len(),
            marks@.len() == n,
            forall|k: int| 0 <= k < n ==> !#[trigger] marks@[k],
        decreases entries@.len() - n,
    {
        marks.push(false);
        n += 1;
    }
    let mut changed = true;
    while changed
        invariant
            all == entries.deep_view(),
            marks@.len() == entries@.len(),
            forall|k: int| 0 <= k < all.len() && marks@[k] ==> doomed(all, root@, (#[trigger] all[k]).id),
            !changed ==> forall|i: int|
                0 <= i < all.len() && (#[trigger] all[i]).target_entry_id is Some && marked_id(
                    all,
                    marks@,
                    root@,
                    all[i].target_entry_id->0,
                ) ==> marks@[i],
        decreases unmarked(marks@) + (if changed { 1nat } else { 0nat }),
    {
        changed = false;
        let ghost start = marks@;
        let mut i: usize = 0;
        while i < entries.len()
            invariant
                0 <= i <= entries@.len(),
                all == entries.deep_view(),
                marks@.len() == entries@.len(),
                forall|k: int|
                    0 <= k < all.len() && marks@[k] ==> doomed(all, root@, (#[trigger] all[k]).id),
                changed ==> unmarked(marks@) < unmarked(start),
                !changed ==> marks@ == start && forall|k: int|
                    0 <= k < i && (#[trigger] all[k]).target_entry_id is Some && marked_id(
                        all,
                        marks@,
                        root@,
                        all[k].target_entry_id->0,
                    ) ==> marks@[k],
            decreases entries@.len() - i,
        {
            assert(all[i as int] == entries@[i as int]@);
            if !marks[i] {
                if let Some(target) = &entries[i].target_entry_id {
                    if is_marked(entries, &marks, root, target.as_str()) {
                        proof {
                            lemma_mark(marks@, i as int);
                            if target@ != root@ {
                                let k = choose|k: int|
                                    0 <= k < all.len() && marks@[k] && (#[trigger] all[k]).id == target@;
                                assert(doomed(all, root@, all[k].id));
                            } else {
                                assert(reaches(all, root@, 0, target@));
                            }
                            lemma_doomed_step(all, root@, i as int);
                        }
                        marks.set(i, true);
                        changed = true;
                    }
                }
            }
            i += 1;
        }
    }
    proof {
        assert forall|id: Seq<char>|
            #[trigger] marked_id(all, marks@, root@, id) == doomed(all, root@, id) by {
            if marked_id(all, marks@, root@, id) {
                if id == root@ {
                    assert(reaches(all, root@, 0, id));
                }
            }
            if doomed(all, root@, id) {
                let steps = choose|steps: nat| reaches(all, root@, steps, id);
                lemma_closed(all, marks@, root@, steps, id);
            }
        }
    }
    marks
}

/// The entries that go with `root`, in their order.
pub fn doomed_entries(entries: &Vec<LedgerEntry>, root: &str) -> (r: Vec<LedgerEntry>)
    ensures
        r.deep_view() == doomed_entries_of(entries.deep_view(), root@),
{
    let ghost all = entries.deep_view();
    let ghost p = |e: EntryView| doomed(all, root@, e.id);
    let marks = mark_doomed(entries, root);
    let mut out: Vec<LedgerEntry> = Vec::new();
    let mut i: usize = 0;
    proof {
        assert(all.take(0).filter(p) =~= Seq::empty()) by {
            reveal(Seq::filter);
        }
    }
    while i < entries.len()
        invariant
            0 <= i <= entries@.len(),
            all == entries.deep_view(),
            p == (|e: EntryView| doomed(all, root@, e.id)),
            marks@.len() == entries@.len(),
            forall|id: Seq<char>|
                #[trigger] marked_id(all, marks@, root@, id) == doomed(all, root@, id),
            out.deep_view() == all.take(i as int).filter(p),
        decreases entries@.len() - i,
    {
        let entry = &entries[i];
        proof {
            assert(all[i as int] == entry@);
            rows::lemma_filter_step(all, p, i as int);
        }
        if is_marked(entries, &marks, root, entry.id.as_str()) {
            let copy = entry.copy();
            let ghost before = out;
            let ghost value = copy;
            out.push(copy);
            proof {
                rows::lemma_deep_push(before, out, value);
            }
        }
        i += 1;
    }
    proof {
        rows::lemma_take_all(all);
    }
    out
}

/// Removes `root` and the entries that go with it.
pub fn remove_doomed(entries: &mut Vec<LedgerEntry>, root: &str)
    ensures
        final(entries).deep_view() == without_doomed(old(entries).deep_view(), root@),
{
    let ghost all = entries.deep_view();
    let ghost p = |e: EntryView| !doomed(all, root@, e.id);
    let marks = mark_doomed(entries, root);
    let mut out: Vec<LedgerEntry> = Vec::new();
    let mut i: usize = 0;
    proof {
        assert(all.take(0).filter(p) =~= Seq::empty()) by {
            reveal(Seq::filter);
        }
    }
    while i < entries.len()
        invariant
            0 <= i <= entries@.len(),
            all == entries.deep_view(),
            p == (|e: EntryView| !doomed(all, root@, e.id)),
            marks@.len() == entries@.len(),
            forall|id: Seq<char>|
                #[trigger] marked_id(all, marks@, root@, id) == doomed(all, root@, id),
            out.deep_view() == all.take(i as int).filter(p),
        decreases entries@.len() - i,
    {
        let entry = &entries[i];
        proof {
            assert(all[i as int] == entry@);
            rows::lemma_filter_step(all, p, i as int);
        }
        if !is_marked(entries, &marks, root, entry.id.as_str()) {
            let copy = entry.copy();
            let ghost before = out;
            let ghost value = copy;
            out.push(copy);
            proof {
                rows::lemma_deep_push(before, out, value);
            }
        }
        i += 1;
    }
    proof {
        rows::lemma_take_all(all);
    }
    *entries = out;
}

/// The entries that go with `root`, each by its identifier, its kind and the text of its
/// payload.
pub fn cascade_entries(entries: &Vec<LedgerEntry>, root_id: &str) -> (r: Vec<(String, String, String)>)
    ensures
        r.deep_view() == doomed_entries_of(entries.deep_view(), root_id@).map_values(
            |e: EntryView| (e.id, e.kind, json::printed(e.payload)),
        ),
{
    let found = doomed_entries(entries, root_id);
    let mut out: Vec<(String, String, String)> = Vec::new();
    let mut i: usize = 0;
    while i < found.len()
        invariant
            0 <= i <= found@.len(),
            out@.len() == i,
            forall|k: int|
                0 <= k < i ==> (#[trigger] out@[k]).deep_view() == (
                    found@[k]@.id,
                    found@[k]@.kind,
                    json::printed(found@[k]@.payload),
                ),
        decreases found@.len() - i,
    {
        let entry = &found[i];
        out.push((entry.id.clone(), entry.kind.clone(), json::print(&entry.payload)));
        i += 1;
    }
    assert(out.deep_view() =~= found.deep_view().map_values(
        |e: EntryView| (e.id, e.kind, json::printed(e.payload)),
    ));
    out
}

/// Whatever targets an entry that goes also goes.
pub proof fn law_targets_of_the_doomed_go(entries: Seq<EntryView>, root: Seq<char>, entry: EntryView)
    requires
        entries.contains(entry),
        entry.target_entry_id is Some,
        doomed(entries, root, entry.target_entry_id->0),
    ensures
        doomed_entries_of(entries, root).contains(entry),
        !without_doomed(entries, root).contains(entry),
{
    let i = choose|i: int| 0 <= i < entries.len() && entries[i] == entry;
    lemma_doomed_step(entries, root, i);
    let p = |e: EntryView| doomed(entries, root, e.id);
    let q = |e: EntryView| !doomed(entries, root, e.id);
    rows::lemma_filter_member(entries, p, entry);
    rows::lemma_filter_member(entries, q, entry);
}

/// What is left when an entry went targets nothing that went with it.
pub proof fn law_the_rest_targets_nothing_doomed(entries: Seq<EntryView>, root: Seq<char>, entry: EntryView)
    requires
        without_doomed(entries, root).contains(entry),
        entry.target_entry_id is Some,
    ensures
        !doomed(entries, root, entry.target_entry_id->0),
{
    let q = |e: EntryView| !doomed(entries, root, e.id);
    rows::lemma_filter_member(entries, q, entry);
    if doomed(entries, root, entry.target_entry_id->0) {
        let i = choose|i: int| 0 <= i < entries.len() && entries[i] == entry;
        lemma_doomed_step(entries, root, i);
    }
}

/// What is left of a ledger when an entry goes is every entry that does not go with it.
pub proof fn lemma_without_doomed(entries: Seq<EntryView>, root: Seq<char>, entry: EntryView)
    ensures
        without_doomed(entries, root).contains(entry) <==> entries.contains(entry) && !doomed(
            entries,
            root,
            entry.id,
        ),
{
    rows::lemma_filter_member(entries, |e: EntryView| !doomed(entries, root, e.id), entry);
}

/// What goes with an entry is the entry itself and what targets something that goes, and no more:
/// any entries that hold the one, and with each the ones that target it, hold all that go.
pub proof fn law_no_more_goes_than_must(entries: Seq<EntryView>, root: Seq<char>, goes: Set<Seq<char>>, id: Seq<char>)
    requires
        goes.contains(root),
        forall|i: int|
            0 <= i < entries.len() && (#[trigger] entries[i]).target_entry_id is Some && goes.contains(
                entries[i].target_entry_id->0,
            ) ==> goes.contains(entries[i].id),
    ensures
        doomed(entries, root, root),
        doomed(entries, root, id) ==> goes.contains(id),
{
    assert(reaches(entries, root, 0, root));
    if doomed(entries, root, id) {
        let steps = choose|steps: nat| reaches(entries, root, steps, id);
        lemma_held(entries, root, goes, steps, id);
    }
}

proof fn lemma_held(entries: Seq<EntryView>, root: Seq<char>, goes: Set<Seq<char>>, steps: nat, id: Seq<char>)
    requires
        goes.contains(root),
        forall|i: int|
            0 <= i < entries.len() && (#[trigger] entries[i]).target_entry_id is Some && goes.contains(
                entries[i].target_entry_id->0,
            ) ==> goes.contains(entries[i].id),
        reaches(entries, root, steps, id),
    ensures
        goes.contains(id),
    decreases steps,
{
    if id != root {
        let i = choose|i: int|
            0 <= i < entries.len() && (#[trigger] entries[i]).id == id && entries[i].target_entry_id is Some && reaches(
                entries,
                root,
                (steps - 1) as nat,
                entries[i].target_entry_id->0,
            );
        lemma_held(entries, root, goes, (steps - 1) as nat, entries[i].target_entry_id->0);
    }
}

/// The entries that go and those that are left are together the ledger, each in its order, and the
/// entry that the others go with is among the ones that go.
pub proof fn law_ledger_is_parted(entries: Seq<EntryView>, root: Seq<char>)
    ensures
        doomed_entries_of(entries, root) == entries.filter(|e: EntryView| doomed(entries, root, e.id)),
        without_doomed(entries, root) == entries.filter(|e: EntryView| !doomed(entries, root, e.id)),
        forall|i: int|
            0 <= i < entries.len() && (#[trigger] entries[i]).id == root ==> doomed_entries_of(entries, root).contains(
                entries[i],
            ),
{
    let p = |e: EntryView| doomed(entries, root, e.id);
    assert forall|i: int| 0 <= i < entries.len() && (#[trigger] entries[i]).id == root implies doomed_entries_of(
        entries,
        root,
    ).contains(entries[i]) by {
        assert(reaches(entries, root, 0, root));
        rows::lemma_filter_member(entries, p, entries[i]);
    }
}

} // verus!
