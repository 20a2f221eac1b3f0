use ocr_cli::aggregate::{assemble_records, recognition_plan};
use ocr_cli::model::{AggregateError, CropDims, Region, TextRecord, DEFAULT_CONFIDENCE_PERMILLE};
use ocr_cli::render::{render_records_json, render_region, render_text_lines};

fn region(left: i32, top: i32, width: u32, height: u32) -> Region {
    Region { left, top, width, height }
}

fn crop(width: u32, height: u32) -> CropDims {
    CropDims { width, height }
}

#[test]
fn empty_detection_renders_empty_array_and_empty_text() {
    let regions: Vec<Region> = vec![];
    let crops: Vec<CropDims> = vec![];
    let plan = recognition_plan(&regions, &crops).unwrap();
    assert!(plan.is_empty());
    let outcomes: Vec<Option<String>> = vec![];
    let records = assemble_records(&regions, &plan, &outcomes);
    assert!(records.is_empty());
    assert_eq!(render_records_json(&records), "[]");
    let lines: Vec<String> = vec![];
    assert_eq!(render_text_lines(&lines), "");
}

#[test]
fn count_mismatch_fails_whole_request() {
    let regions = vec![region(0, 0, 5, 5), region(1, 1, 5, 5)];
    let crops = vec![crop(5, 5)];
    let r = recognition_plan(&regions, &crops);
    match r {
        Err(AggregateError::CountMismatch { regions: a, crops: b }) => {
            assert_eq!(a, 2);
            assert_eq!(b, 1);
        },
        _ => panic!("expected a count mismatch"),
    }
    let err = recognition_plan(&regions, &crops).unwrap_err();
    assert_eq!(err.message(), "Inconsistent detection results");
}

#[test]
fn zero_sized_crops_are_never_planned() {
    let regions = vec![
        region(0, 0, 10, 10),
        region(0, 20, 10, 10),
        region(0, 40, 10, 10),
        region(0, 60, 10, 10),
    ];
    let crops = vec![crop(10, 10), crop(0, 10), crop(10, 0), crop(10, 10)];
    let plan = recognition_plan(&regions, &crops).unwrap();
    assert_eq!(plan, vec![0, 3]);
    let outcomes = vec![Some(String::from("a")), Some(String::from("b"))];
    let records = assemble_records(&regions, &plan, &outcomes);
    assert_eq!(records.len(), 2);
    assert_eq!(records[0].position, regions[0]);
    assert_eq!(records[1].position, regions[3]);
}

#[test]
fn one_failure_keeps_every_other_region() {
    let regions = vec![
        region(0, 0, 10, 10),
        region(0, 20, 10, 10),
        region(0, 40, 10, 10),
    ];
    let crops = vec![crop(10, 10), crop(10, 10), crop(10, 10)];
    let plan = recognition_plan(&regions, &crops).unwrap();
    assert_eq!(plan, vec![0, 1, 2]);
    let outcomes = vec![Some(String::from("first")), None, Some(String::from("third"))];
    let records = assemble_records(&regions, &plan, &outcomes);
    assert_eq!(records.len(), 2);
    assert_eq!(records[0].text, "first");
    assert_eq!(records[0].position, regions[0]);
    assert_eq!(records[1].text, "third");
    assert_eq!(records[1].position, regions[2]);
}

#[test]
fn detection_order_is_preserved() {
    let regions = vec![
        region(5, 1, 2, 2),
        region(1, 5, 2, 2),
        region(9, 9, 2, 2),
    ];
    let crops = vec![crop(2, 2), crop(2, 2), crop(2, 2)];
    let plan = recognition_plan(&regions, &crops).unwrap();
    let outcomes = vec![
        Some(String::from("A")),
        Some(String::from("B")),
        Some(String::from("C")),
    ];
    let records = assemble_records(&regions, &plan, &outcomes);
    let texts: Vec<&str> = records.iter().map(|r| r.text.as_str()).collect();
    assert_eq!(texts, vec!["A", "B", "C"]);
    assert_eq!(records[0].position, regions[0]);
    assert_eq!(records[1].position, regions[1]);
    assert_eq!(records[2].position, regions[2]);
}

#[test]
fn single_region_scenario_renders_exact_json() {
    let regions = vec![region(10, 5, 40, 12)];
    let crops = vec![crop(40, 12)];
    let plan = recognition_plan(&regions, &crops).unwrap();
    let outcomes = vec![Some(String::from("Hello"))];
    let records = assemble_records(&regions, &plan, &outcomes);
    let json = render_records_json(&records);
    assert_eq!(
        json,
        "[{\"text\":\"Hello\",\"confidence\":1.0,\"position\":{\"left\":10,\"top\":5,\"width\":40,\"height\":12}}]"
    );
}

#[test]
fn confidence_default_is_full() {
    let regions = vec![region(0, 0, 1, 1)];
    let plan = vec![0usize];
    let outcomes = vec![Some(String::from("x"))];
    let records = assemble_records(&regions, &plan, &outcomes);
    assert_eq!(records[0].confidence_permille, DEFAULT_CONFIDENCE_PERMILLE);
}

#[test]
fn negative_and_extreme_coordinates_render_in_decimal() {
    let s = render_region(region(-3, i32::MIN, 0, u32::MAX));
    assert_eq!(
        s,
        "{\"left\":-3,\"top\":-2147483648,\"width\":0,\"height\":4294967295}"
    );
}

#[test]
fn partial_confidence_renders_with_three_digits() {
    let rec = TextRecord {
        text: String::from("x"),
        confidence_permille: 250,
        position: region(0, 0, 1, 1),
    };
    let json = render_records_json(&vec![rec]);
    let parsed: serde_json::Value = serde_json::from_str(&json).unwrap();
    assert_eq!(parsed[0]["confidence"], 0.25);
    assert!(json.contains("\"confidence\":0.250"));
}

#[test]
fn json_escaping_produces_valid_json() {
    let rec = TextRecord {
        text: String::from("a\"b\\c\nd\te\ru\u{1}f"),
        confidence_permille: 1000,
        position: region(1, 2, 3, 4),
    };
    let records = vec![rec];
    let json = render_records_json(&records);
    let parsed: serde_json::Value = serde_json::from_str(&json).unwrap();
    assert_eq!(parsed[0]["text"], "a\"b\\c\nd\te\ru\u{1}f");
    assert_eq!(parsed[0]["confidence"], 1.0);
    assert_eq!(parsed[0]["position"]["left"], 1);
    assert_eq!(parsed[0]["position"]["top"], 2);
    assert_eq!(parsed[0]["position"]["width"], 3);
    assert_eq!(parsed[0]["position"]["height"], 4);
}

#[test]
fn text_mode_prints_one_line_per_string() {
    let lines = vec![String::from("first line"), String::from("second")];
    assert_eq!(render_text_lines(&lines), "first line\nsecond\n");
}
