//! The result aggregator: decides which crops recognition runs on, checks
//! the region/crop count invariant, and assembles the ordered record
//! sequence while tolerating isolated per-region recognition failures.
//!
//! The engine calls themselves happen outside this crate; the caller hands
//! in the detected regions, the crop dimensions, and the per-crop
//! recognition outcomes, and everything decided about them here is
//! verified.

use vstd::prelude::*;

use crate::model::{AggregateError, CropDims, RecordView, Region, TextRecord};
use crate::model::DEFAULT_CONFIDENCE_PERMILLE;
use crate::model::views_of;

verus! {

/// Indices of the crops that recognition should be attempted on: exactly
/// those with non-zero dimensions, in detection order.
pub open spec fn plan_spec(crops: Seq<CropDims>) -> Seq<usize>
    decreases crops.len(),
{
    if crops.len() == 0 {
        Seq::empty()
    } else {
        let prefix = plan_spec(crops.drop_last());
        if crops.last().is_nonzero() {
            prefix.push((crops.len() - 1) as usize)
        } else {
            prefix
        }
    }
}

/// The plan lists exactly the indices of non-degenerate crops, each once,
/// in increasing (detection) order.
pub proof fn lemma_plan_properties(crops: Seq<CropDims>)
    requires
        crops.len() <= usize::MAX,
    ensures
        forall|j: int|
            0 <= j < plan_spec(crops).len() ==> (#[trigger] plan_spec(crops)[j]) < crops.len()
                && crops[plan_spec(crops)[j] as int].is_nonzero(),
        forall|j1: int, j2: int|
            0 <= j1 < j2 < plan_spec(crops).len() ==> plan_spec(crops)[j1] < plan_spec(
                crops,
            )[j2],
        forall|i: int|
            0 <= i < crops.len() && crops[i].is_nonzero() ==> exists|j: int|
                0 <= j < plan_spec(crops).len() && plan_spec(crops)[j] == i as usize,
    decreases crops.len(),
{
    if crops.len() > 0 {
        lemma_plan_properties(crops.drop_last());
        let prefix = plan_spec(crops.drop_last());
        let plan = plan_spec(crops);
        assert(forall|i: int| 0 <= i < crops.len() - 1 ==> crops.drop_last()[i] == crops[i]);
        assert(forall|j: int| 0 <= j < prefix.len() ==> plan[j] == #[trigger] prefix[j]);
        assert forall|j: int|
            0 <= j < plan.len() implies (#[trigger] plan[j]) < crops.len() && crops[plan[j] as int].is_nonzero() by {
            if j < prefix.len() {
                assert(prefix[j] < crops.drop_last().len());
                assert(crops.drop_last()[prefix[j] as int].is_nonzero());
            } else {
                assert(crops.last().is_nonzero());
                assert(plan[j] == (crops.len() - 1) as usize);
            }
        }
        assert forall|j1: int, j2: int|
            0 <= j1 < j2 < plan.len() implies plan[j1] < plan[j2] by {
            if j2 < prefix.len() {
                assert(prefix[j1] < prefix[j2]);
            } else {
                assert(plan[j2] == (crops.len() - 1) as usize);
                assert(prefix[j1] < crops.drop_last().len());
            }
        }
        assert forall|i: int|
            0 <= i < crops.len() && crops[i].is_nonzero() implies exists|j: int|
            0 <= j < plan_spec(crops).len() && plan_spec(crops)[j] == i as usize by {
            if i < crops.len() - 1 {
                let j = choose|j: int|
                    0 <= j < prefix.len() && prefix[j] == i as usize;
                assert(plan_spec(crops)[j] == i as usize);
            } else {
                assert(crops.last().is_nonzero());
                assert(plan_spec(crops)[plan_spec(crops).len() - 1] == i as usize);
            }
        }
    }
}

/// Decides, for one image, which crops recognition runs on.
///
/// Detected-region and extracted-crop counts must agree — a mismatch means
/// positional correspondence cannot be trusted, so the whole request fails
/// with [`AggregateError::CountMismatch`] and no partial result. When the
/// counts agree the result is exactly the plan of [`plan_spec`]: the
/// indices of the non-degenerate crops, in detection order. Zero regions
/// is a valid outcome with an empty plan.
pub fn recognition_plan(regions: &Vec<Region>, crops: &Vec<CropDims>) -> (r: Result<
    Vec<usize>,
    AggregateError,
>)
    ensures
        regions@.len() == crops@.len() ==> (r matches Ok(p) && p@ == plan_spec(crops@)),
        regions@.len() != crops@.len() ==> r == Err::<Vec<usize>, AggregateError>(
            AggregateError::CountMismatch {
                regions: regions@.len() as usize,
                crops: crops@.len() as usize,
            },
        ),
{
    if regions.len() != crops.len() {
        return Err(AggregateError::CountMismatch { regions: regions.len(), crops: crops.len() });
    }
    let n: usize = crops.len();
    let mut p: Vec<usize> = Vec::new();
    let mut i: usize = 0;
    while i < n
        invariant
            i <= n,
            n == crops@.len(),
            p@ == plan_spec(crops@.take(i as int)),
        decreases n - i,
    {
        if crops[i].width > 0 && crops[i].height > 0 {
            p.push(i);
        }
        i = i + 1;
        proof {
            assert(crops@.take(i as int).drop_last() =~= crops@.take(i as int - 1));
            assert(crops@.take(i as int).last() == crops@[i as int - 1]);
        }
    }
    proof {
        assert(crops@.take(n as int) =~= crops@);
    }
    Ok(p)
}

/// The record made from one region and its recognized text, with the
/// fixed placeholder confidence.
pub open spec fn record_of(region: Region, text: Seq<char>) -> RecordView {
    RecordView {
        text: text,
        confidence_permille: DEFAULT_CONFIDENCE_PERMILLE,
        position: region,
    }
}

/// The ordered records assembled from the planned indices and the per-crop
/// recognition outcomes: one record per successful outcome, in plan order;
/// failed outcomes are dropped without disturbing their neighbours.
pub open spec fn assemble_spec(
    regions: Seq<Region>,
    plan: Seq<usize>,
    outcomes: Seq<Option<String>>,
) -> Seq<RecordView>
    recommends
        plan.len() == outcomes.len(),
    decreases plan.len(),
{
    if plan.len() == 0 || outcomes.len() == 0 {
        Seq::empty()
    } else {
        let rest = assemble_spec(regions, plan.drop_last(), outcomes.drop_last());
        match outcomes.last() {
            Some(t) => rest.push(record_of(regions[plan.last() as int], t@)),
            None => rest,
        }
    }
}

/// Builds the ordered [`TextRecord`] sequence for one image from the
/// planned indices and the recognition outcome of each planned crop
/// (`None` where recognition failed). A failure drops only its own
/// record; every successful region keeps its place in detection order.
pub fn assemble_records(
    regions: &Vec<Region>,
    plan: &Vec<usize>,
    outcomes: &Vec<Option<String>>,
) -> (r: Vec<TextRecord>)
    requires
        plan@.len() == outcomes@.len(),
        forall|j: int| 0 <= j < plan@.len() ==> (#[trigger] plan@[j]) < regions@.len(),
    ensures
        views_of(r@) == assemble_spec(regions@, plan@, outcomes@),
        forall|k: int|
            0 <= k < r@.len() ==> (#[trigger] r@[k]@).confidence_permille
                == DEFAULT_CONFIDENCE_PERMILLE,
{
    let n: usize = plan.len();
    let mut r: Vec<TextRecord> = Vec::new();
    let mut j: usize = 0;
    while j < n
        invariant
            j <= n,
            n == plan@.len(),
            plan@.len() == outcomes@.len(),
            forall|k: int| 0 <= k < plan@.len() ==> (#[trigger] plan@[k]) < regions@.len(),
            views_of(r@) == assemble_spec(regions@, plan@.take(j as int), outcomes@.take(j as int)),
            forall|k: int|
                0 <= k < r@.len() ==> (#[trigger] r@[k]@).confidence_permille
                    == DEFAULT_CONFIDENCE_PERMILLE,
        decreases n - j,
    {
        let ghost pre = r@;
        match &outcomes[j] {
            Some(t) => {
                let rec = TextRecord {
                    text: t.clone(),
                    confidence_permille: DEFAULT_CONFIDENCE_PERMILLE,
                    position: regions[plan[j]],
                };
                r.push(rec);
            },
            None => {},
        }
        j = j + 1;
        proof {
            assert(plan@.take(j as int).drop_last() =~= plan@.take(j as int - 1));
            assert(outcomes@.take(j as int).drop_last() =~= outcomes@.take(j as int - 1));
            assert(plan@.take(j as int).last() == plan@[j as int - 1]);
            assert(outcomes@.take(j as int).last() == outcomes@[j as int - 1]);
            assert(views_of(r@) =~= assemble_spec(
                regions@,
                plan@.take(j as int),
                outcomes@.take(j as int),
            ));
        }
    }
    proof {
        assert(plan@.take(n as int) =~= plan@);
        assert(outcomes@.take(n as int) =~= outcomes@);
    }
    r
}

} // verus!
