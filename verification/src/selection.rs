//! The selection adapter: chosen indices become records in file order.

use crate::error::SelectionError;
use vstd::prelude::*;

verus! {

/// Whether a selection takes the record at `index`. The empty selection
/// takes every record.
pub open spec fn is_chosen(selection: Seq<usize>, index: int) -> bool {
    selection.len() == 0 || exists|k: int| 0 <= k < selection.len() && selection[k] == index
}

/// The chosen indices below `len`, ascending: the indices are walked in
/// order and the chosen ones kept.
pub open spec fn chosen_indices(selection: Seq<usize>, len: nat) -> Seq<int>
    decreases len,
{
    if len == 0 {
        Seq::empty()
    } else {
        let before = chosen_indices(selection, (len - 1) as nat);
        if is_chosen(selection, len - 1) {
            before.push(len - 1)
        } else {
            before
        }
    }
}

/// The first index, in the order supplied, that `len` records do not have.
pub open spec fn first_out_of_bounds(selection: Seq<usize>, len: nat) -> Option<usize>
    decreases selection.len(),
{
    if selection.len() == 0 {
        None
    } else if selection[0] >= len {
        Some(selection[0])
    } else {
        first_out_of_bounds(selection.drop_first(), len)
    }
}

/// What a selection resolves to: the chosen records in ascending order of
/// their indices, or the first index that is out of bounds.
pub open spec fn resolution<T>(selection: Seq<usize>, records: Seq<T>) -> Result<
    Seq<T>,
    SelectionError,
> {
    match first_out_of_bounds(selection, records.len()) {
        Some(index) => Err(
            SelectionError::IndexOutOfBounds { index, len: records.len() as usize },
        ),
        None => Ok(chosen_indices(selection, records.len()).map_values(|i: int| records[i])),
    }
}

/// `first_out_of_bounds` finds an index exactly when one is out of bounds.
pub proof fn lemma_first_out_of_bounds(selection: Seq<usize>, len: nat)
    ensures
        match first_out_of_bounds(selection, len) {
            Some(index) => index >= len && selection.contains(index),
            None => forall|k: int| 0 <= k < selection.len() ==> selection[k] < len,
        },
    decreases selection.len(),
{
    if selection.len() > 0 && selection[0] < len {
        let rest = selection.drop_first();
        lemma_first_out_of_bounds(rest, len);
        match first_out_of_bounds(rest, len) {
            Some(index) => {
                let k = choose|k: int| 0 <= k < rest.len() && rest[k] == index;
                assert(selection[k + 1] == index);
            },
            None => {
                assert forall|k: int| 0 <= k < selection.len() implies selection[k] < len by {
                    if k > 0 {
                        assert(selection[k] == rest[k - 1]);
                    }
                }
            },
        }
    }
}

/// The chosen indices come in strictly ascending order, each of them is
/// below `len` and chosen, and no chosen index below `len` is left out.
pub proof fn lemma_chosen_indices_ascend(selection: Seq<usize>, len: nat)
    ensures
        chosen_indices(selection, len).len() <= len,
        forall|a: int, b: int|
            0 <= a < b < chosen_indices(selection, len).len() ==> chosen_indices(selection, len)[a]
                < chosen_indices(selection, len)[b],
        forall|a: int|
            0 <= a < chosen_indices(selection, len).len() ==> 0 <= #[trigger] chosen_indices(
                selection,
                len,
            )[a] < len && is_chosen(selection, chosen_indices(selection, len)[a]),
        forall|i: int|
            0 <= i < len && is_chosen(selection, i) ==> chosen_indices(selection, len).contains(i),
    decreases len,
{
    if len > 0 {
        let shorter = (len - 1) as nat;
        lemma_chosen_indices_ascend(selection, shorter);
        let before = chosen_indices(selection, shorter);
        let all = chosen_indices(selection, len);
        assert forall|i: int| 0 <= i < len && is_chosen(selection, i) implies all.contains(i) by {
            if i < shorter {
                let a = choose|a: int| 0 <= a < before.len() && before[a] == i;
                assert(all[a] == i);
            } else {
                assert(all[all.len() - 1] == i);
            }
        }
    }
}

/// Resolution does not depend on the order in which the indices were
/// supplied, nor on how often one was named: two selections of the same
/// indices choose the same records.
pub proof fn lemma_resolution_ignores_order<T>(
    first: Seq<usize>,
    second: Seq<usize>,
    records: Seq<T>,
)
    requires
        forall|i: usize| first.contains(i) <==> second.contains(i),
    ensures
        resolution(first, records) is Ok <==> resolution(second, records) is Ok,
        resolution(first, records) is Ok ==> resolution(first, records) == resolution(
            second,
            records,
        ),
{
    lemma_first_out_of_bounds(first, records.len());
    lemma_first_out_of_bounds(second, records.len());
    assert forall|k: int| 0 <= k < first.len() implies second.contains(#[trigger] first[k]) by {
        assert(first.contains(first[k]));
    }
    assert forall|k: int| 0 <= k < second.len() implies first.contains(#[trigger] second[k]) by {
        assert(second.contains(second[k]));
    }
    lemma_same_indices_chosen(first, second, records.len());
}

/// Two selections of the same indices choose the same ascending indices.
pub proof fn lemma_same_indices_chosen(first: Seq<usize>, second: Seq<usize>, len: nat)
    requires
        forall|i: usize| first.contains(i) <==> second.contains(i),
    ensures
        chosen_indices(first, len) == chosen_indices(second, len),
    decreases len,
{
    if len > 0 {
        lemma_same_indices_chosen(first, second, (len - 1) as nat);
        let i = len - 1;
        if first.len() > 0 {
            assert(first.contains(first[0]));
        }
        if second.len() > 0 {
            assert(second.contains(second[0]));
        }
        if is_chosen(first, i) && first.len() > 0 {
            let k = choose|k: int| 0 <= k < first.len() && first[k] == i;
            assert(first.contains(first[k]));
            assert(second.contains(first[k]));
        }
        if is_chosen(second, i) && second.len() > 0 {
            let k = choose|k: int| 0 <= k < second.len() && second[k] == i;
            assert(second.contains(second[k]));
            assert(first.contains(second[k]));
        }
    }
}

/// The empty selection chooses every index.
pub proof fn lemma_empty_selection_chooses_all(len: nat)
    ensures
        chosen_indices(Seq::<usize>::empty(), len) == Seq::new(len, |i: int| i),
    decreases len,
{
    if len > 0 {
        lemma_empty_selection_chooses_all((len - 1) as nat);
    }
}

/// The empty selection resolves to all records, in their order.
pub proof fn lemma_empty_selection_keeps_all<T>(records: Seq<T>)
    ensures
        resolution(Seq::<usize>::empty(), records) == Ok::<Seq<T>, SelectionError>(records),
{
    lemma_empty_selection_chooses_all(records.len());
    assert(chosen_indices(Seq::<usize>::empty(), records.len()).map_values(|i: int| records[i])
        == records);
}

/// The records that `selection` takes from `records`, in ascending order of
/// their indices whatever the order of `selection`. The empty selection takes
/// all of them. An index that `records` does not have is an error, and the
/// first such index in `selection` is reported.
pub fn resolve<'a, T>(selection: &[usize], records: &'a [T]) -> (resolved: Result<
    Vec<&'a T>,
    SelectionError,
>)
    ensures
        match resolved {
            Ok(chosen) => resolution(selection@, records@) == Ok::<Seq<T>, SelectionError>(
                chosen@.map_values(|r: &T| *r),
            ),
            Err(e) => resolution(selection@, records@) == Err::<Seq<T>, SelectionError>(e),
        },
{
    let len = records.len();
    let mut marks: Vec<bool> = Vec::new();
    while marks.len() < len
        invariant
            marks@.len() <= len,
            forall|i: int| 0 <= i < marks@.len() ==> !marks@[i],
        decreases len - marks@.len(),
    {
        marks.push(false);
    }
    let mut k: usize = 0;
    assert(selection@.skip(0) == selection@);
    while k < selection.len()
        invariant
            len == records@.len(),
            marks@.len() == len,
            0 <= k <= selection@.len(),
            first_out_of_bounds(selection@, len as nat) == first_out_of_bounds(
                selection@.skip(k as int),
                len as nat,
            ),
            forall|i: int|
                0 <= i < len ==> (marks@[i] <==> exists|j: int|
                    0 <= j < k && selection@[j] == i),
        decreases selection@.len() - k,
    {
        let index = selection[k];
        assert(selection@.skip(k as int).drop_first() == selection@.skip(k + 1));
        if index >= len {
            return Err(SelectionError::IndexOutOfBounds { index, len });
        }
        marks.set(index, true);
        k += 1;
    }
    let all = selection.len() == 0;
    let mut chosen: Vec<&'a T> = Vec::new();
    let mut i: usize = 0;
    while i < len
        invariant
            len == records@.len(),
            marks@.len() == len,
            0 <= i <= len,
            all == (selection@.len() == 0),
            forall|i: int|
                0 <= i < len ==> (marks@[i] <==> exists|j: int|
                    0 <= j < selection@.len() && selection@[j] == i),
            chosen@.map_values(|r: &T| *r) == chosen_indices(selection@, i as nat).map_values(
                |i: int| records@[i],
            ),
        decreases len - i,
    {
        let ghost before = chosen@;
        let ghost indices = chosen_indices(selection@, i as nat);
        if all || marks[i] {
            chosen.push(&records[i]);
            proof {
                assert(is_chosen(selection@, i as int));
                assert(chosen_indices(selection@, (i + 1) as nat) == indices.push(i as int));
                assert(chosen@.map_values(|r: &T| *r) == before.map_values(|r: &T| *r).push(
                    records@[i as int],
                ));
                assert(indices.push(i as int).map_values(|i: int| records@[i])
                    == indices.map_values(|i: int| records@[i]).push(records@[i as int]));
            }
        } else {
            assert(!is_chosen(selection@, i as int));
        }
        i += 1;
    }
    Ok(chosen)
}

} // verus!
