//! The data model: detected regions, crop dimensions, aggregated text
//! records, output modes and the aggregation error.

use vstd::prelude::*;
use vstd::string::StringExecFns;

verus! {

/// Axis-aligned bounding box of one detected text region, as the engine
/// reports it: integer `left`/`top`, unsigned `width`/`height`.
#[derive(Clone, Copy, Debug, PartialEq, Eq, Structural)]
pub struct Region {
    pub left: i32,
    pub top: i32,
    pub width: u32,
    pub height: u32,
}

/// Pixel dimensions of one cropped sub-image handed back by the engine.
#[derive(Clone, Copy, Debug, PartialEq, Eq, Structural)]
pub struct CropDims {
    pub width: u32,
    pub height: u32,
}

impl CropDims {
    /// A crop is usable only when both dimensions are non-zero.
    pub open spec fn is_nonzero(self) -> bool {
        self.width > 0 && self.height > 0
    }
}

/// Confidence carried by every record, in thousandths. The engine exposes
/// no per-region confidence through this contract, so the aggregator
/// assigns this fixed placeholder — a documented approximation, not a
/// measured value.
pub const DEFAULT_CONFIDENCE_PERMILLE: u32 = 1000;

/// One unit of structured output: recognized text, its confidence in
/// thousandths, and the region it came from, in detection order.
#[derive(Debug)]
pub struct TextRecord {
    pub text: String,
    pub confidence_permille: u32,
    pub position: Region,
}

/// Mathematical view of a [`TextRecord`].
pub struct RecordView {
    pub text: Seq<char>,
    pub confidence_permille: u32,
    pub position: Region,
}

impl View for TextRecord {
    type V = RecordView;

    open spec fn view(&self) -> RecordView {
        RecordView {
            text: self.text@,
            confidence_permille: self.confidence_permille,
            position: self.position,
        }
    }
}

/// Views of a sequence of records.
pub open spec fn views_of(s: Seq<TextRecord>) -> Seq<RecordView> {
    s.map_values(|r: TextRecord| r@)
}

/// The engine configuration fixed once per process: rectangle border
/// inflation, box merging, and the merge-distance threshold. The model
/// blobs and key table travel beside it as raw bytes, outside this crate.
#[derive(Clone, Copy, Debug, PartialEq, Eq, Structural)]
pub struct EngineConfig {
    pub rect_border_size: u32,
    pub merge_boxes: bool,
    pub merge_threshold: u32,
}

impl EngineConfig {
    /// The fixed configuration this tool initializes the engine with.
    pub fn standard() -> (c: EngineConfig)
        ensures
            c == (EngineConfig { rect_border_size: 12u32, merge_boxes: false, merge_threshold: 1u32 }),
    {
        EngineConfig { rect_border_size: 12, merge_boxes: false, merge_threshold: 1 }
    }
}

/// How results are rendered: a structured JSON report or plain text lines.
#[derive(Clone, Copy, Debug, PartialEq, Eq, Structural)]
pub enum OutputMode {
    Json,
    Text,
}

/// The engine inconsistency that aborts one image's structured processing:
/// the number of detected regions and of extracted sub-images disagree, so
/// positional correspondence cannot be trusted.
#[derive(Clone, Copy, Debug, PartialEq, Eq, Structural)]
pub enum AggregateError {
    CountMismatch { regions: usize, crops: usize },
}

impl AggregateError {
    /// A printable diagnostic for this error.
    pub fn message(&self) -> (r: String)
        ensures
            r@ == "Inconsistent detection results"@,
    {
        String::from_str("Inconsistent detection results")
    }
}

} // verus!
