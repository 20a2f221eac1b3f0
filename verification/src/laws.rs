//! Laws of the aggregation pipeline, proved once and for all inputs:
//! empty detection gives empty output, degenerate crops never reach the
//! output, one recognition failure never costs another region its record,
//! and detection order is preserved.

use vstd::prelude::*;

use crate::aggregate::{assemble_spec, plan_spec, record_of};
use crate::aggregate::lemma_plan_properties;
use crate::model::{CropDims, RecordView, Region};
use crate::render::{json_of_records, lines_of};

verus! {

/// The recognized text of one outcome; empty where recognition failed.
pub open spec fn text_of(o: Option<String>) -> Seq<char> {
    match o {
        Some(t) => t@,
        None => Seq::empty(),
    }
}

/// How many of the first `upto` outcomes succeeded: the output index of
/// outcome `upto`, if it succeeded.
pub open spec fn some_count(outcomes: Seq<Option<String>>, upto: int) -> int
    decreases upto,
{
    if upto <= 0 {
        0
    } else {
        some_count(outcomes, upto - 1) + if outcomes[upto - 1] is Some {
            1int
        } else {
            0int
        }
    }
}

proof fn lemma_some_count_drop_last(outcomes: Seq<Option<String>>, upto: int)
    requires
        0 <= upto <= outcomes.len() - 1,
    ensures
        some_count(outcomes.drop_last(), upto) == some_count(outcomes, upto),
    decreases upto,
{
    if upto > 0 {
        lemma_some_count_drop_last(outcomes, upto - 1);
    }
}

/// The count never decreases, and a successful outcome strictly raises it.
pub proof fn lemma_some_count_mono(outcomes: Seq<Option<String>>, a: int, b: int)
    requires
        0 <= a <= b,
    ensures
        some_count(outcomes, a) <= some_count(outcomes, b),
        a < b && outcomes[a] is Some ==> some_count(outcomes, a) < some_count(outcomes, b),
    decreases b - a,
{
    if a < b {
        lemma_some_count_mono(outcomes, a + 1, b);
    }
}

/// The assembled output holds exactly one record per successful outcome.
pub proof fn lemma_assemble_len(regions: Seq<Region>, plan: Seq<usize>, outcomes: Seq<Option<String>>)
    requires
        plan.len() == outcomes.len(),
    ensures
        assemble_spec(regions, plan, outcomes).len() == some_count(outcomes, outcomes.len() as int),
    decreases plan.len(),
{
    if plan.len() > 0 {
        lemma_assemble_len(regions, plan.drop_last(), outcomes.drop_last());
        lemma_some_count_drop_last(outcomes, outcomes.len() - 1);
    }
}

/// Where outcome `j` succeeded, its record stands in the output at index
/// `some_count(outcomes, j)` — whatever became of every other region.
pub proof fn lemma_record_for_success(
    regions: Seq<Region>,
    plan: Seq<usize>,
    outcomes: Seq<Option<String>>,
    j: int,
)
    requires
        plan.len() == outcomes.len(),
        forall|k: int| 0 <= k < plan.len() ==> (#[trigger] plan[k]) < regions.len(),
        0 <= j < plan.len(),
        outcomes[j] is Some,
    ensures
        0 <= some_count(outcomes, j) < assemble_spec(regions, plan, outcomes).len(),
        assemble_spec(regions, plan, outcomes)[some_count(outcomes, j)] == record_of(
            regions[plan[j] as int],
            text_of(outcomes[j]),
        ),
    decreases plan.len(),
{
    lemma_some_count_mono(outcomes, 0, j);
    lemma_assemble_len(regions, plan, outcomes);
    lemma_some_count_mono(outcomes, j, outcomes.len() as int);
    let rest = assemble_spec(regions, plan.drop_last(), outcomes.drop_last());
    if j == plan.len() - 1 {
        lemma_assemble_len(regions, plan.drop_last(), outcomes.drop_last());
        lemma_some_count_drop_last(outcomes, j);
        assert(rest.len() == some_count(outcomes, j));
    } else {
        lemma_record_for_success(regions, plan.drop_last(), outcomes.drop_last(), j);
        lemma_some_count_drop_last(outcomes, j);
        assert(plan.drop_last()[j] == plan[j]);
        assert(outcomes.drop_last()[j] == outcomes[j]);
    }
}

/// Every record of the assembled output originates from some successful
/// outcome and carries that region's position and text.
pub proof fn lemma_assemble_source(
    regions: Seq<Region>,
    plan: Seq<usize>,
    outcomes: Seq<Option<String>>,
    k: int,
)
    requires
        plan.len() == outcomes.len(),
        forall|m: int| 0 <= m < plan.len() ==> (#[trigger] plan[m]) < regions.len(),
        0 <= k < assemble_spec(regions, plan, outcomes).len(),
    ensures
        exists|j: int|
            0 <= j < plan.len() && outcomes[j] is Some && assemble_spec(regions, plan, outcomes)[k]
                == record_of(regions[#[trigger] plan[j] as int], text_of(outcomes[j])),
    decreases plan.len(),
{
    let out = assemble_spec(regions, plan, outcomes);
    let rest = assemble_spec(regions, plan.drop_last(), outcomes.drop_last());
    if outcomes.last() is Some && k == rest.len() {
        let j = plan.len() - 1;
        assert(0 <= j < plan.len() && outcomes[j] is Some && out[k] == record_of(
            regions[plan[j] as int],
            text_of(outcomes[j]),
        ));
    } else {
        lemma_assemble_source(regions, plan.drop_last(), outcomes.drop_last(), k);
        let j = choose|j: int|
            0 <= j < plan.drop_last().len() && outcomes.drop_last()[j] is Some && assemble_spec(
                regions,
                plan.drop_last(),
                outcomes.drop_last(),
            )[k] == record_of(
                regions[#[trigger] plan.drop_last()[j] as int],
                text_of(outcomes.drop_last()[j]),
            );
        assert(plan.drop_last()[j] == plan[j]);
        assert(outcomes.drop_last()[j] == outcomes[j]);
        assert(out[k] == rest[k]);
        assert(0 <= j < plan.len() && outcomes[j] is Some && out[k] == record_of(
            regions[plan[j] as int],
            text_of(outcomes[j]),
        ));
    }
}

/// With zero detected regions the pipeline owes nothing and says so
/// plainly: the plan and the record sequence are empty, the JSON report
/// is exactly `[]`, and the plain-text report is the empty output.
pub proof fn lemma_no_regions_empty_output()
    ensures
        plan_spec(Seq::<CropDims>::empty()) == Seq::<usize>::empty(),
        assemble_spec(
            Seq::<Region>::empty(),
            Seq::<usize>::empty(),
            Seq::<Option<String>>::empty(),
        ) == Seq::<RecordView>::empty(),
        json_of_records(Seq::<RecordView>::empty()) == "[]"@,
        lines_of(Seq::<Seq<char>>::empty()) == Seq::<char>::empty(),
{
    reveal_strlit("[");
    reveal_strlit("]");
    reveal_strlit("[]");
    assert(json_of_records(Seq::<RecordView>::empty()) =~= "[]"@);
    assert(lines_of(Seq::<Seq<char>>::empty()) =~= Seq::<char>::empty());
}

/// A crop with zero width or zero height is never behind any output
/// record: every record's position is a region whose crop was
/// non-degenerate, however many degenerate crops stand around it.
pub proof fn lemma_degenerate_crops_excluded(
    regions: Seq<Region>,
    crops: Seq<CropDims>,
    outcomes: Seq<Option<String>>,
    k: int,
)
    requires
        regions.len() == crops.len(),
        crops.len() <= usize::MAX,
        outcomes.len() == plan_spec(crops).len(),
        0 <= k < assemble_spec(regions, plan_spec(crops), outcomes).len(),
    ensures
        exists|i: int|
            0 <= i < crops.len() && (#[trigger] crops[i]).is_nonzero() && assemble_spec(
                regions,
                plan_spec(crops),
                outcomes,
            )[k].position == regions[i],
{
    let plan = plan_spec(crops);
    lemma_plan_properties(crops);
    lemma_assemble_source(regions, plan, outcomes, k);
    let j = choose|j: int|
        0 <= j < plan.len() && outcomes[j] is Some && assemble_spec(regions, plan, outcomes)[k]
            == record_of(regions[#[trigger] plan[j] as int], text_of(outcomes[j]));
    let i = plan[j] as int;
    assert(0 <= i < crops.len() && crops[i].is_nonzero() && assemble_spec(
        regions,
        plan_spec(crops),
        outcomes,
    )[k].position == regions[i]);
}

/// One recognition failure is isolated: every other planned region whose
/// recognition succeeded still has its record, at its counted place, and
/// the output holds exactly the successful regions' records.
pub proof fn lemma_failure_is_isolated(
    regions: Seq<Region>,
    plan: Seq<usize>,
    outcomes: Seq<Option<String>>,
    i: int,
)
    requires
        plan.len() == outcomes.len(),
        forall|k: int| 0 <= k < plan.len() ==> (#[trigger] plan[k]) < regions.len(),
        0 <= i < plan.len(),
        outcomes[i] is None,
    ensures
        assemble_spec(regions, plan, outcomes).len() == some_count(
            outcomes,
            outcomes.len() as int,
        ),
        forall|j: int|
            0 <= j < plan.len() && j != i && (#[trigger] outcomes[j]) is Some
                ==> assemble_spec(regions, plan, outcomes)[some_count(outcomes, j)] == record_of(
                regions[plan[j] as int],
                text_of(outcomes[j]),
            ),
{
    lemma_assemble_len(regions, plan, outcomes);
    assert forall|j: int|
        0 <= j < plan.len() && j != i && (#[trigger] outcomes[j]) is Some
            implies assemble_spec(regions, plan, outcomes)[some_count(outcomes, j)] == record_of(
            regions[plan[j] as int],
            text_of(outcomes[j]),
        ) by {
        lemma_record_for_success(regions, plan, outcomes, j);
    }
}

/// Detection order is preserved: for two planned regions, both with
/// successful recognition, the earlier one's record stands strictly
/// before the later one's in the output.
pub proof fn lemma_detection_order_preserved(
    regions: Seq<Region>,
    plan: Seq<usize>,
    outcomes: Seq<Option<String>>,
    j1: int,
    j2: int,
)
    requires
        plan.len() == outcomes.len(),
        forall|k: int| 0 <= k < plan.len() ==> (#[trigger] plan[k]) < regions.len(),
        0 <= j1 < j2 < plan.len(),
        outcomes[j1] is Some,
        outcomes[j2] is Some,
    ensures
        some_count(outcomes, j1) < some_count(outcomes, j2) < assemble_spec(
            regions,
            plan,
            outcomes,
        ).len(),
        assemble_spec(regions, plan, outcomes)[some_count(outcomes, j1)] == record_of(
            regions[plan[j1] as int],
            text_of(outcomes[j1]),
        ),
        assemble_spec(regions, plan, outcomes)[some_count(outcomes, j2)] == record_of(
            regions[plan[j2] as int],
            text_of(outcomes[j2]),
        ),
{
    lemma_some_count_mono(outcomes, j1, j2);
    lemma_record_for_success(regions, plan, outcomes, j1);
    lemma_record_for_success(regions, plan, outcomes, j2);
}

} // verus!
