//! The list of operations that a user has chosen, as places in the list of
//! offered identifiers. The list always ends with room for one more choice:
//! an entry that names the operation that changes nothing.

use vstd::prelude::*;

verus! {

/// `selected` without the entries at its end that repeat `none_index`: of a
/// run of them at the end one stays, and a list of two entries stays as it
/// is.
pub open spec fn without_spare_entries(selected: Seq<usize>, none_index: usize) -> Seq<usize>
    decreases selected.len(),
{
    if selected.len() > 2 && selected[selected.len() - 1] == none_index && selected[selected.len()
        - 2] == none_index {
        without_spare_entries(selected.drop_last(), none_index)
    } else {
        selected
    }
}

/// The list after the entry at `select_index` has been set to
/// `operation_index`: where its last entry then names an operation, a free
/// entry follows it, and else its spare entries are gone.
pub open spec fn after_select(
    selected: Seq<usize>,
    select_index: int,
    operation_index: usize,
    none_index: usize,
) -> Seq<usize> {
    let chosen = selected.update(select_index, operation_index);
    if chosen.last() != none_index {
        chosen.push(none_index)
    } else {
        without_spare_entries(chosen, none_index)
    }
}

/// The list after the entry at `operation_index` has been deleted: the last
/// entry is freed, any other is taken out, and a place outside the list
/// changes nothing.
pub open spec fn after_delete(selected: Seq<usize>, operation_index: int, none_index: usize) -> Seq<
    usize,
> {
    if 0 <= operation_index < selected.len() {
        if operation_index == selected.len() - 1 {
            selected.update(operation_index, none_index)
        } else {
            selected.remove(operation_index)
        }
    } else {
        selected
    }
}

/// Deletes the entry at `operation_index` and tells whether the list had
/// one there.
pub fn delete_operation(selected: &mut Vec<usize>, operation_index: usize, none_index: usize) -> (found:
    bool)
    ensures
        found == (operation_index < old(selected)@.len()),
        final(selected)@ == after_delete(old(selected)@, operation_index as int, none_index),
{
    if operation_index < selected.len() {
        if operation_index == selected.len() - 1 {
            selected.set(operation_index, none_index);
        } else {
            selected.remove(operation_index);
        }
        true
    } else {
        false
    }
}

/// Sets the entry at `select_index` to `operation_index` and keeps one free
/// entry at the end of the list.
pub fn select_operation(
    selected: &mut Vec<usize>,
    select_index: usize,
    operation_index: usize,
    none_index: usize,
)
    requires
        select_index < old(selected)@.len(),
    ensures
        final(selected)@ == after_select(
            old(selected)@,
            select_index as int,
            operation_index,
            none_index,
        ),
{
    selected.set(select_index, operation_index);
    let ghost chosen = selected@;
    if selected[selected.len() - 1] != none_index {
        selected.push(none_index);
    } else {
        let mut done = false;
        while selected.len() > 2 && !done
            invariant
                selected@.len() >= 1,
                without_spare_entries(chosen, none_index) == without_spare_entries(
                    selected@,
                    none_index,
                ),
                done ==> selected@.len() > 2 && !(selected@[selected@.len() - 1] == none_index
                    && selected@[selected@.len() - 2] == none_index),
            decreases selected@.len() + (if done { 0int } else { 1int }),
        {
            let last = selected.len() - 1;
            let second_last = selected.len() - 2;
            if selected[last] == none_index && selected[second_last] == none_index {
                selected.pop();
            } else {
                done = true;
            }
        }
    }
}

/// The identifiers that the entries of `selected` name among `ids`, in
/// order.
pub fn selected_ids(selected: &Vec<usize>, ids: &Vec<String>) -> (chosen: Vec<String>)
    requires
        forall|i: int| 0 <= i < selected@.len() ==> selected@[i] < ids@.len(),
    ensures
        chosen@.len() == selected@.len(),
        forall|i: int| 0 <= i < chosen@.len() ==> chosen@[i]@ == ids@[selected@[i] as int]@,
{
    let mut chosen: Vec<String> = Vec::new();
    let mut i: usize = 0;
    while i < selected.len()
        invariant
            i <= selected.len(),
            chosen@.len() == i,
            forall|k: int| 0 <= k < selected@.len() ==> selected@[k] < ids@.len(),
            forall|k: int| 0 <= k < chosen@.len() ==> chosen@[k]@ == ids@[selected@[k] as int]@,
        decreases selected.len() - i,
    {
        chosen.push(ids[selected[i]].clone());
        i += 1;
    }
    chosen
}

} // verus!
