//! The group index: which rows of a table belong to which group.

use vstd::prelude::*;
use crate::pool::par_map;
use crate::series::{is_true_at, BooleanChunked};

verus! {

/// The groups of a table in their order. Each group is its representative
/// row and its member rows; rows are numbered as in the table that was
/// grouped.
pub type GroupTuples = Vec<(u32, Vec<u32>)>;

/// A group as plain values.
pub open spec fn group_view(group: (u32, Vec<u32>)) -> (u32, Seq<u32>) {
    (group.0, group.1@)
}

/// A group index as plain values.
pub open spec fn groups_view(groups: Seq<(u32, Vec<u32>)>) -> Seq<(u32, Seq<u32>)> {
    Seq::new(groups.len(), |i: int| group_view(groups[i]))
}

/// The test that a member row passes when `mask` holds `true` for it.
pub open spec fn keeps(mask: Seq<Option<bool>>) -> spec_fn(u32) -> bool {
    |row: u32| is_true_at(mask, row as int)
}

/// The members for which `mask` holds `true`, in their order.
pub open spec fn retained(members: Seq<u32>, mask: Seq<Option<bool>>) -> Seq<u32> {
    members.filter(keeps(mask))
}

/// A group narrowed by `mask`: its retained members, represented by the
/// first of them, or by the group's own representative where none is left.
pub open spec fn narrowed(group: (u32, Seq<u32>), mask: Seq<Option<bool>>) -> (u32, Seq<u32>) {
    let members = retained(group.1, mask);
    (
        if members.len() > 0 {
            members[0]
        } else {
            group.0
        },
        members,
    )
}

/// Every group narrowed by `mask`, each at its own position.
pub open spec fn narrowed_groups(groups: Seq<(u32, Seq<u32>)>, mask: Seq<Option<bool>>) -> Seq<
    (u32, Seq<u32>),
> {
    Seq::new(groups.len(), |i: int| narrowed(groups[i], mask))
}

/// Taking one more member retains it exactly when `mask` holds `true` for it.
proof fn lemma_retained_step(members: Seq<u32>, mask: Seq<Option<bool>>, k: int)
    requires
        0 <= k < members.len(),
    ensures
        retained(members.take(k + 1), mask) == if is_true_at(mask, members[k] as int) {
            retained(members.take(k), mask).push(members[k])
        } else {
            retained(members.take(k), mask)
        },
{
    reveal(Seq::filter);
    assert(members.take(k + 1).drop_last() == members.take(k));
}

/// The row numbers of a slice, copied.
fn copy_rows(rows: &Vec<u32>) -> (r: Vec<u32>)
    ensures
        r@ == rows@,
{
    let mut out: Vec<u32> = Vec::new();
    let mut k: usize = 0;
    while k < rows.len()
        invariant
            0 <= k <= rows@.len(),
            out@ == rows@.take(k as int),
        decreases rows@.len() - k,
    {
        out.push(rows[k]);
        k = k + 1;
    }
    out
}

/// A copy of a group index.
pub fn clone_groups(groups: &GroupTuples) -> (r: GroupTuples)
    ensures
        groups_view(r@) == groups_view(groups@),
{
    let mut out: GroupTuples = Vec::new();
    let mut k: usize = 0;
    while k < groups.len()
        invariant
            0 <= k <= groups@.len(),
            out@.len() == k,
            forall|i: int| 0 <= i < k ==> group_view(#[trigger] out@[i]) == group_view(groups@[i]),
        decreases groups@.len() - k,
    {
        out.push((groups[k].0, copy_rows(&groups[k].1)));
        k = k + 1;
    }
    out
}

/// Narrows one group to the members for which `predicate` holds `true`. A
/// member for which the predicate is missing, `false` or has no row is
/// dropped. The group is then represented by its first retained member, and
/// keeps its representative where no member is retained.
pub fn filter_group(group: &(u32, Vec<u32>), predicate: &BooleanChunked) -> (r: (u32, Vec<u32>))
    ensures
        group_view(r) == narrowed(group_view(*group), predicate.values@),
{
    let mut idx: Vec<u32> = Vec::new();
    let mut k: usize = 0;
    while k < group.1.len()
        invariant
            0 <= k <= group.1@.len(),
            idx@ == retained(group.1@.take(k as int), predicate.values@),
        decreases group.1@.len() - k,
    {
        let row: u32 = group.1[k];
        proof {
            lemma_retained_step(group.1@, predicate.values@, k as int);
        }
        match predicate.get(row as usize) {
            Some(true) => {
                idx.push(row);
            },
            _ => {},
        }
        k = k + 1;
    }
    assert(group.1@.take(k as int) == group.1@);
    let first: u32 = if idx.len() > 0 {
        idx[0]
    } else {
        group.0
    };
    (first, idx)
}

/// Narrows every group of an index by `predicate`, the groups in parallel.
/// The result has the same groups in the same order, whatever order the
/// workers finish in.
pub fn filter_groups(groups: &GroupTuples, predicate: &BooleanChunked) -> (r: GroupTuples)
    ensures
        groups_view(r@) == narrowed_groups(groups_view(groups@), predicate.values@),
{
    let narrow = |group: &(u32, Vec<u32>)| -> (out: (u32, Vec<u32>))
        ensures
            group_view(out) == narrowed(group_view(*group), predicate.values@),
        { filter_group(group, predicate) };
    par_map(groups, narrow)
}

/// What narrowing does to a group index: it keeps the number of groups and
/// their order; a group's members are those of its members for which the
/// mask holds `true`, so never more than before; a group left without
/// members keeps its representative; any other group is represented by its
/// first member.
pub proof fn lemma_narrowed_groups(groups: Seq<(u32, Seq<u32>)>, mask: Seq<Option<bool>>)
    ensures
        narrowed_groups(groups, mask).len() == groups.len(),
        forall|i: int|
            #![trigger narrowed_groups(groups, mask)[i]]
            0 <= i < groups.len() ==> {
                let before = groups[i];
                let after = narrowed_groups(groups, mask)[i];
                &&& after.1 == retained(before.1, mask)
                &&& after.1.len() <= before.1.len()
                &&& forall|k: int|
                    0 <= k < after.1.len() ==> before.1.contains(#[trigger] after.1[k]) && is_true_at(
                        mask,
                        after.1[k] as int,
                    )
                &&& forall|k: int|
                    0 <= k < before.1.len() && is_true_at(mask, before.1[k] as int) ==> after.1.contains(
                        #[trigger] before.1[k],
                    )
                &&& after.1.len() == 0 ==> after.0 == before.0
                &&& after.1.len() > 0 ==> after.0 == after.1[0]
            },
{
    assert forall|i: int|
        #![trigger narrowed_groups(groups, mask)[i]]
        0 <= i < groups.len() implies {
        let before = groups[i];
        let after = narrowed_groups(groups, mask)[i];
        &&& after.1 == retained(before.1, mask)
        &&& after.1.len() <= before.1.len()
        &&& forall|k: int|
            0 <= k < after.1.len() ==> before.1.contains(#[trigger] after.1[k]) && is_true_at(
                mask,
                after.1[k] as int,
            )
        &&& forall|k: int|
            0 <= k < before.1.len() && is_true_at(mask, before.1[k] as int) ==> after.1.contains(
                #[trigger] before.1[k],
            )
        &&& after.1.len() == 0 ==> after.0 == before.0
        &&& after.1.len() > 0 ==> after.0 == after.1[0]
    } by {
        let members = groups[i].1;
        let kept = retained(members, mask);
        members.lemma_filter_len(keeps(mask));
        assert forall|k: int| 0 <= k < kept.len() implies members.contains(#[trigger] kept[k])
            && is_true_at(mask, kept[k] as int) by {
            members.lemma_filter_pred(keeps(mask), k);
            members.lemma_filter_contains_rev(keeps(mask), kept[k]);
        }
        assert forall|k: int|
            0 <= k < members.len() && is_true_at(mask, members[k] as int) implies kept.contains(
            #[trigger] members[k],
        ) by {
            members.lemma_filter_contains(keeps(mask), k);
        }
    }
}

} // verus!
