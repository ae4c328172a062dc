//! Gathering child-value indices out of a variable-length list array.
//!
//! A list array stores its variable-length elements back to back in a child
//! array; an offsets table of length N + 1 delimits them, element `i`
//! occupying child slots `offsets[i] .. offsets[i + 1]`. Taking elements of
//! the list by a nullable index sequence produces the flattened child
//! indices of the selected sub-lists, plus a new offsets table describing
//! the sub-list boundaries of the output.

use vstd::prelude::*;

verus! {

/// The child-array indices backing list element `ix`: the run
/// `offsets[ix] .. offsets[ix + 1]` in ascending order.
pub open spec fn sublist_indices(offsets: Seq<u32>, ix: int) -> Seq<u32>
    recommends
        0 <= ix,
        ix + 1 < offsets.len(),
        offsets[ix] <= offsets[ix + 1],
{
    Seq::new(
        (offsets[ix + 1] - offsets[ix]) as nat,
        |j: int| (offsets[ix] + j) as u32,
    )
}

/// The flattened child indices a gather yields: for each entry of `indices`
/// in order, nothing when it is null, and the sub-list run of its value when
/// it is valid.
pub open spec fn gathered_indices(offsets: Seq<u32>, indices: Seq<Option<u32>>) -> Seq<u32>
    decreases indices.len(),
{
    if indices.len() == 0 {
        Seq::empty()
    } else {
        gathered_indices(offsets, indices.drop_last()) + match indices.last() {
            None => Seq::empty(),
            Some(v) => sublist_indices(offsets, v as int),
        }
    }
}

/// An offsets table is well-formed when it has an entry for each list
/// element plus one, and never decreases.
pub open spec fn offsets_wf(offsets: Seq<u32>) -> bool {
    &&& offsets.len() >= 1
    &&& forall|i: int| 0 <= i < offsets.len() - 1 ==> #[trigger] offsets[i] <= offsets[i + 1]
}

/// Every valid index selects an existing list element.
pub open spec fn indices_in_range(offsets: Seq<u32>, indices: Seq<Option<u32>>) -> bool {
    forall|k: int|
        0 <= k < indices.len() ==> (#[trigger] indices[k] matches Some(v) ==> v + 1
            < offsets.len())
}

/// Growing the index sequence by one entry appends that entry's run (or
/// nothing, for a null) to the gathered indices.
pub proof fn lemma_gathered_take_succ(offsets: Seq<u32>, indices: Seq<Option<u32>>, k: int)
    requires
        0 <= k < indices.len(),
    ensures
        gathered_indices(offsets, indices.take(k + 1)) == gathered_indices(
            offsets,
            indices.take(k),
        ) + match indices[k] {
            None => Seq::<u32>::empty(),
            Some(v) => sublist_indices(offsets, v as int),
        },
{
    let t = indices.take(k + 1);
    assert(t.drop_last() =~= indices.take(k));
    assert(t.last() == indices[k]);
}

/// The gathered indices of a prefix are never more numerous than those of
/// the whole index sequence.
pub proof fn lemma_gathered_prefix_len(offsets: Seq<u32>, indices: Seq<Option<u32>>, k: int)
    requires
        0 <= k <= indices.len(),
    ensures
        gathered_indices(offsets, indices.take(k)).len() <= gathered_indices(
            offsets,
            indices,
        ).len(),
    decreases indices.len() - k,
{
    if k == indices.len() {
        assert(indices.take(k) =~= indices);
    } else {
        lemma_gathered_take_succ(offsets, indices, k);
        lemma_gathered_prefix_len(offsets, indices, k + 1);
    }
}

/// Law: a null entry at position `k` of the index sequence contributes no
/// gathered indices, so the output offset repeats.
pub proof fn lemma_gather_null_entry(offsets: Seq<u32>, indices: Seq<Option<u32>>, k: int)
    requires
        0 <= k < indices.len(),
        indices[k] is None,
    ensures
        gathered_indices(offsets, indices.take(k + 1)) == gathered_indices(
            offsets,
            indices.take(k),
        ),
{
    lemma_gathered_take_succ(offsets, indices, k);
    assert(gathered_indices(offsets, indices.take(k + 1)) =~= gathered_indices(
        offsets,
        indices.take(k),
    ));
}

/// Law: selecting a list element whose run is empty (`start == end`)
/// contributes no gathered indices, yet the output offset repeats just as
/// for a null.
pub proof fn lemma_gather_empty_sublist(offsets: Seq<u32>, indices: Seq<Option<u32>>, k: int)
    requires
        0 <= k < indices.len(),
        indices[k] matches Some(v) && v + 1 < offsets.len() && offsets[v as int] == offsets[v
            + 1],
    ensures
        gathered_indices(offsets, indices.take(k + 1)) == gathered_indices(
            offsets,
            indices.take(k),
        ),
{
    lemma_gathered_take_succ(offsets, indices, k);
    assert(gathered_indices(offsets, indices.take(k + 1)) =~= gathered_indices(
        offsets,
        indices.take(k),
    ));
}

/// Takes a list array's inner data by `indices`, using the list's offsets
/// table.
///
/// Returns the flattened child indices of the selected sub-lists, each
/// wrapped as a (never null) nullable value, and a new offsets table of
/// length `indices.len() + 1` whose entry `k` is the number of child indices
/// gathered by the first `k` entries of `indices`.
///
/// Keeping every valid index within the list, and the total gathered length
/// within `i32`, is the caller's obligation, stated in the contract rather
/// than checked at run time.
pub fn take_value_indices_from_list(offsets: &Vec<u32>, indices: &Vec<Option<u32>>) -> (r: (
    Vec<Option<u32>>,
    Vec<i32>,
))
    requires
        offsets_wf(offsets@),
        indices_in_range(offsets@, indices@),
        gathered_indices(offsets@, indices@).len() <= i32::MAX,
    ensures
        r.1@.len() == indices@.len() + 1,
        r.1@[0] == 0,
        forall|k: int|
            0 <= k <= indices@.len() ==> r.1@[k] == gathered_indices(
                offsets@,
                indices@.take(k),
            ).len(),
        r.0@.len() == gathered_indices(offsets@, indices@).len(),
        forall|j: int|
            0 <= j < r.0@.len() ==> r.0@[j] == Some(gathered_indices(offsets@, indices@)[j]),
{
    let offsets_len = offsets.len();
    let mut new_offsets: Vec<i32> = Vec::new();
    let mut values: Vec<Option<u32>> = Vec::new();
    let mut current_offset: i32 = 0;
    new_offsets.push(0);
    proof {
        assert(indices@.take(0) =~= Seq::<Option<u32>>::empty());
    }
    let mut i: usize = 0;
    while i < indices.len()
        invariant
            i <= indices@.len(),
            offsets_len == offsets@.len(),
            offsets_wf(offsets@),
            indices_in_range(offsets@, indices@),
            gathered_indices(offsets@, indices@).len() <= i32::MAX,
            current_offset == gathered_indices(offsets@, indices@.take(i as int)).len(),
            new_offsets@.len() == i + 1,
            forall|k: int|
                0 <= k <= i ==> new_offsets@[k] == gathered_indices(
                    offsets@,
                    indices@.take(k),
                ).len(),
            values@.len() == gathered_indices(offsets@, indices@.take(i as int)).len(),
            forall|j: int|
                0 <= j < values@.len() ==> values@[j] == Some(
                    gathered_indices(offsets@, indices@.take(i as int))[j],
                ),
        decreases indices@.len() - i,
    {
        let ghost prefix = gathered_indices(offsets@, indices@.take(i as int));
        proof {
            lemma_gathered_take_succ(offsets@, indices@, i as int);
            lemma_gathered_prefix_len(offsets@, indices@, i as int + 1);
        }
        match indices[i] {
            Some(ix) => {
                proof {
                    assert(indices@[i as int] == Some(ix));
                    assert(ix + 1 < offsets@.len());
                }
                let ix = ix as usize;
                let start = offsets[ix];
                let end = offsets[ix + 1];
                let ghost run = sublist_indices(offsets@, ix as int);
                current_offset = current_offset + (end - start) as i32;
                new_offsets.push(current_offset);
                let mut cur = start;
                while cur < end
                    invariant
                        start <= cur <= end,
                        values@.len() == prefix.len() + (cur - start),
                        forall|j: int|
                            0 <= j < prefix.len() ==> values@[j] == Some(prefix[j]),
                        forall|j: int|
                            prefix.len() <= j < values@.len() ==> values@[j] == Some(
                                (start + (j - prefix.len())) as u32,
                            ),
                    decreases end - cur,
                {
                    values.push(Some(cur));
                    cur = cur + 1;
                }
                proof {
                    assert forall|j: int|
                        0 <= j < prefix.len() + run.len() implies values@[j] == Some(
                        (prefix + run)[j],
                    ) by {
                        if j < prefix.len() {
                        } else {
                            assert(run[j - prefix.len()] == (start + (j - prefix.len())) as u32);
                        }
                    }
                }
            },
            None => {
                new_offsets.push(current_offset);
            },
        }
        i = i + 1;
    }
    proof {
        assert(indices@.take(indices@.len() as int) =~= indices@);
    }
    (values, new_offsets)
}

} // verus!
