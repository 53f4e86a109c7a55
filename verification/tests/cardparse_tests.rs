use cardparse::{
    extract, validate_and_compile, CardParse, ExtractionPlan, FieldDecl, LocDecl, ParseError,
    ParsingStructure, PlannedField, Schema, SchemaError,
};

fn loc(line: usize, start: usize, end: Option<usize>, max: Option<usize>) -> LocDecl {
    LocDecl { line: Some(line), start: Some(start), end, max }
}

fn field(name: &str, l: Option<LocDecl>) -> FieldDecl {
    FieldDecl { name: String::from(name), loc: l }
}

#[derive(Debug)]
struct Simple {
    field_one: String,
    field_two: String,
}

impl CardParse for Simple {
    fn cardparse(s: &str) -> Result<Simple, ParseError> {
        let schema = Schema {
            fields: vec![
                field("field_one", Some(loc(1, 1, Some(12), None))),
                field("field_two", Some(loc(2, 6, Some(12), None))),
            ],
        };
        let compiled = validate_and_compile(&schema).expect("schema is valid");
        let rec = extract(&compiled, s)?;
        Ok(Simple {
            field_one: rec.entries[0].value.clone(),
            field_two: rec.entries[1].value.clone(),
        })
    }
}

#[derive(Debug)]
struct FirstNoEnd {
    field_one: String,
    field_two: String,
    field_three: String,
}

impl CardParse for FirstNoEnd {
    fn cardparse(s: &str) -> Result<FirstNoEnd, ParseError> {
        let schema = Schema {
            fields: vec![
                field("field_one", Some(loc(1, 1, None, None))),
                field("field_two", Some(loc(2, 6, None, Some(24)))),
                field("field_three", Some(loc(2, 1, Some(5), None))),
            ],
        };
        let compiled = validate_and_compile(&schema).expect("schema is valid");
        let rec = extract(&compiled, s)?;
        Ok(FirstNoEnd {
            field_one: rec.entries[0].value.clone(),
            field_two: rec.entries[1].value.clone(),
            field_three: rec.entries[2].value.clone(),
        })
    }
}

#[test]
fn simple_test() {
    let simple = Simple::cardparse("Some String it is\nAnd also some other string");
    assert!(simple.is_ok());
    let simple = simple.unwrap();
    assert_eq!(simple.field_one, "Some String ");
    assert_eq!(simple.field_two, "lso som");
}

#[test]
fn first_no_end_test() {
    let first_no_end = FirstNoEnd::cardparse("Some String it is\nAnd also some other string");
    assert!(first_no_end.is_ok());
    let first_no_end = first_no_end.unwrap();
    assert_eq!(first_no_end.field_one, "Some String it is");
    assert_eq!(first_no_end.field_two, "lso some other stri");
    assert_eq!(first_no_end.field_three, "And a");
}

#[test]
fn first_no_end_failure_test() {
    let first_no_end = FirstNoEnd::cardparse("Some String it is\nAnd");
    assert!(first_no_end.is_err());
    assert_eq!(
        first_no_end.unwrap_err().message(),
        "Field 'field_two' could not be parsed from 'Some String it is\nAnd' because the source was too short"
    );
}

#[test]
fn overlapping_fields_rejected() {
    let schema = Schema {
        fields: vec![
            field("a", Some(loc(1, 1, Some(5), None))),
            field("b", Some(loc(1, 3, Some(8), None))),
        ],
    };
    let r = validate_and_compile(&schema);
    assert!(r.is_err());
    match r.unwrap_err() {
        SchemaError::OverlappingFields { field_a, field_b, line } => {
            assert_eq!(field_a, "a");
            assert_eq!(field_b, "b");
            assert_eq!(line, 1);
        },
        other => panic!("expected an overlap, got {:?}", other),
    }
}

#[test]
fn touching_ranges_overlap() {
    // Inclusive columns: a range ending at 5 and one starting at 5 share
    // a column.
    let schema = Schema {
        fields: vec![
            field("a", Some(loc(1, 1, Some(5), None))),
            field("b", Some(loc(1, 5, Some(8), None))),
        ],
    };
    assert!(validate_and_compile(&schema).is_err());
}

#[test]
fn open_ended_field_conflicts_with_later_start() {
    // An open-ended field reaches to the end of its line, so a field
    // starting after it still overlaps.
    let schema = Schema {
        fields: vec![
            field("a", Some(loc(1, 3, None, None))),
            field("b", Some(loc(1, 10, Some(12), None))),
        ],
    };
    assert!(validate_and_compile(&schema).is_err());
}

#[test]
fn disjoint_fields_accepted() {
    let schema = Schema {
        fields: vec![
            field("a", Some(loc(1, 1, Some(5), None))),
            field("b", Some(loc(1, 6, Some(10), None))),
            field("c", Some(loc(1, 11, None, None))),
            field("d", Some(loc(2, 1, Some(4), None))),
        ],
    };
    assert!(validate_and_compile(&schema).is_ok());
}

#[test]
fn open_ended_after_fixed_ranges_accepted() {
    // The open-ended field is declared first but sits right-most on its
    // line; validation accepts it wherever it appears in schema order.
    let schema = Schema {
        fields: vec![
            field("tail", Some(loc(1, 20, None, None))),
            field("head", Some(loc(1, 1, Some(10), None))),
            field("mid", Some(loc(1, 11, Some(19), None))),
        ],
    };
    assert!(validate_and_compile(&schema).is_ok());
}

#[test]
fn conflicting_keys_rejected() {
    let schema = Schema {
        fields: vec![field("bad", Some(loc(1, 1, Some(5), Some(7))))],
    };
    let r = validate_and_compile(&schema);
    assert!(r.is_err());
    match r.unwrap_err() {
        SchemaError::ConflictingLocationKeys { field, reason } => {
            assert_eq!(field, "bad");
            assert_eq!(reason, "max and end both specified");
        },
        other => panic!("expected a key conflict, got {:?}", other),
    }
}

#[test]
fn missing_line_key_rejected() {
    let schema = Schema {
        fields: vec![field(
            "nowhere",
            Some(LocDecl { line: None, start: Some(1), end: None, max: None }),
        )],
    };
    match validate_and_compile(&schema).unwrap_err() {
        SchemaError::MissingRequiredKey { field, key } => {
            assert_eq!(field, "nowhere");
            assert_eq!(format!("{:?}", key), "Line");
        },
        other => panic!("expected a missing key, got {:?}", other),
    }
}

#[test]
fn missing_start_key_rejected() {
    let schema = Schema {
        fields: vec![field(
            "floating",
            Some(LocDecl { line: Some(1), start: None, end: None, max: None }),
        )],
    };
    match validate_and_compile(&schema).unwrap_err() {
        SchemaError::MissingRequiredKey { field, key } => {
            assert_eq!(field, "floating");
            assert_eq!(format!("{:?}", key), "Start");
        },
        other => panic!("expected a missing key, got {:?}", other),
    }
}

#[test]
fn extraction_is_deterministic() {
    let schema = Schema {
        fields: vec![
            field("head", Some(loc(1, 1, Some(4), None))),
            field("rest", Some(loc(2, 2, None, Some(30)))),
        ],
    };
    let compiled = validate_and_compile(&schema).unwrap();
    let text = "abcdefgh\nsecond line here";
    let r1 = extract(&compiled, text).unwrap();
    let r2 = extract(&compiled, text).unwrap();
    assert_eq!(r1.entries.len(), r2.entries.len());
    for (e1, e2) in r1.entries.iter().zip(r2.entries.iter()) {
        assert_eq!(e1.name, e2.name);
        assert_eq!(e1.value, e2.value);
    }
}

#[test]
fn fixed_range_reads_exactly_the_window() {
    let schema = Schema {
        fields: vec![field("win", Some(loc(1, 3, Some(7), None)))],
    };
    let compiled = validate_and_compile(&schema).unwrap();
    let a = extract(&compiled, "xxABCDEyyyyy").unwrap();
    let b = extract(&compiled, "xxABCDEzzzzzzzzzz").unwrap();
    assert_eq!(a.entries[0].value, "ABCDE");
    assert_eq!(a.entries[0].value.chars().count(), 7 - 3 + 1);
    // Content after the declared end never reaches the output.
    assert_eq!(a.entries[0].value, b.entries[0].value);
}

#[test]
fn fixed_range_boundary() {
    let schema = Schema {
        fields: vec![field("f", Some(loc(1, 2, Some(5), None)))],
    };
    let compiled = validate_and_compile(&schema).unwrap();
    // A line exactly `end` characters long succeeds.
    let ok = extract(&compiled, "abcde");
    assert!(ok.is_ok());
    assert_eq!(ok.unwrap().entries[0].value, "bcde");
    // One character shorter fails.
    let short = extract(&compiled, "abcd");
    assert!(short.is_err());
    assert!(matches!(short.unwrap_err(), ParseError::SourceTooShort { .. }));
}

#[test]
fn scenario_fixed_range_line_one() {
    let schema = Schema {
        fields: vec![field("f", Some(loc(1, 1, Some(12), None)))],
    };
    let compiled = validate_and_compile(&schema).unwrap();
    let rec = extract(&compiled, "Some String it is\nAnd also some other string").unwrap();
    assert_eq!(rec.entries[0].value, "Some String ");
}

#[test]
fn scenario_fixed_range_line_two() {
    let schema = Schema {
        fields: vec![field("f", Some(loc(2, 6, Some(12), None)))],
    };
    let compiled = validate_and_compile(&schema).unwrap();
    let rec = extract(&compiled, "Some String it is\nAnd also some other string").unwrap();
    assert_eq!(rec.entries[0].value, "lso som");
}

#[test]
fn scenario_open_ended_whole_line() {
    let schema = Schema {
        fields: vec![field("f", Some(loc(1, 1, None, None)))],
    };
    let compiled = validate_and_compile(&schema).unwrap();
    let rec = extract(&compiled, "Some String it is").unwrap();
    assert_eq!(rec.entries[0].value, "Some String it is");
}

#[test]
fn scenario_capped_range_is_cut_by_line_length() {
    let schema = Schema {
        fields: vec![field("f", Some(loc(2, 6, None, Some(24))))],
    };
    let compiled = validate_and_compile(&schema).unwrap();
    // The second line is 27 characters long, so the cap at column 24 wins.
    let rec = extract(&compiled, "head\nabcdefghijklmnopqrstuvwxyz1").unwrap();
    assert_eq!(rec.entries[0].value.chars().count(), 19);
    assert_eq!(rec.entries[0].value, "fghijklmnopqrstuvwx");
}

#[test]
fn scenario_too_short_line() {
    let schema = Schema {
        fields: vec![field("f", Some(loc(2, 6, Some(12), None)))],
    };
    let compiled = validate_and_compile(&schema).unwrap();
    let r = extract(&compiled, "Some String it is\nAnd");
    match r.unwrap_err() {
        ParseError::SourceTooShort { field, line, start, end_or_max, line_content, source } => {
            assert_eq!(field, "f");
            assert_eq!(line, 2);
            assert_eq!(start, 6);
            assert_eq!(end_or_max, Some(12));
            assert_eq!(line_content, "And");
            assert_eq!(source, "Some String it is\nAnd");
        },
        other => panic!("expected a short source, got {:?}", other),
    }
}

#[test]
fn missing_line_reported() {
    let schema = Schema {
        fields: vec![field("f", Some(loc(3, 1, None, None)))],
    };
    let compiled = validate_and_compile(&schema).unwrap();
    let r = extract(&compiled, "one\ntwo");
    match r.unwrap_err() {
        ParseError::MissingLine { field, line, total_lines, source } => {
            assert_eq!(field, "f");
            assert_eq!(line, 3);
            assert_eq!(total_lines, 2);
            assert_eq!(source, "one\ntwo");
        },
        other => panic!("expected a missing line, got {:?}", other),
    }
}

#[test]
fn missing_line_message() {
    let schema = Schema {
        fields: vec![field("f", Some(loc(5, 1, None, None)))],
    };
    let compiled = validate_and_compile(&schema).unwrap();
    let e = extract(&compiled, "only").unwrap_err();
    assert_eq!(
        e.message(),
        "Field 'f' could not be parsed from 'only' because the source did not contain the line"
    );
}

#[test]
fn unlocated_field_binds_empty_string() {
    let schema = Schema {
        fields: vec![
            field("here", Some(loc(1, 1, Some(2), None))),
            field("free", None),
        ],
    };
    let compiled = validate_and_compile(&schema).unwrap();
    let rec = extract(&compiled, "abc").unwrap();
    assert_eq!(rec.entries[1].name, "free");
    assert_eq!(rec.entries[1].value, "");
}

#[test]
fn record_lookup_by_name() {
    let schema = Schema {
        fields: vec![
            field("one", Some(loc(1, 1, Some(3), None))),
            field("two", Some(loc(1, 4, None, None))),
        ],
    };
    let compiled = validate_and_compile(&schema).unwrap();
    let rec = extract(&compiled, "abcdef").unwrap();
    assert_eq!(rec.get("one"), Some(&String::from("abc")));
    assert_eq!(rec.get("two"), Some(&String::from("def")));
    assert_eq!(rec.get("three"), None);
}

#[test]
fn trailing_empty_line_is_addressable() {
    let schema = Schema {
        fields: vec![field("f", Some(loc(2, 1, None, Some(4))))],
    };
    let compiled = validate_and_compile(&schema).unwrap();
    // "abc\n" splits into "abc" and a trailing empty line, so line 2
    // exists but cannot reach column 1.
    let r = extract(&compiled, "abc\n");
    assert!(matches!(r.unwrap_err(), ParseError::SourceTooShort { .. }));
    let ok = extract(&compiled, "abc\nxy").unwrap();
    assert_eq!(ok.entries[0].value, "xy");
}

#[test]
fn split_lines_keeps_every_segment() {
    let lines = cardparse::split_lines("a\nbb\n");
    assert_eq!(lines, vec![String::from("a"), String::from("bb"), String::from("")]);
    let lines = cardparse::split_lines("");
    assert_eq!(lines, vec![String::from("")]);
}

#[test]
fn registry_insert_detects_overlap() {
    let mut reg = ParsingStructure::new();
    let a = PlannedField {
        name: String::from("a"),
        plan: ExtractionPlan::FixedRange { line: 1, start: 1, end: 5 },
    };
    let b = PlannedField {
        name: String::from("b"),
        plan: ExtractionPlan::FixedRange { line: 1, start: 6, end: 9 },
    };
    let c = PlannedField {
        name: String::from("c"),
        plan: ExtractionPlan::CappedRange { line: 1, start: 4, max: 8 },
    };
    assert!(reg.insert(a).is_ok());
    assert!(reg.insert(b).is_ok());
    match reg.insert(c).unwrap_err() {
        SchemaError::OverlappingFields { field_a, field_b, line } => {
            assert_eq!(field_a, "a");
            assert_eq!(field_b, "c");
            assert_eq!(line, 1);
        },
        other => panic!("expected an overlap, got {:?}", other),
    }
}

#[test]
fn non_ascii_columns_count_characters() {
    let schema = Schema {
        fields: vec![field("f", Some(loc(1, 3, Some(6), None)))],
    };
    let compiled = validate_and_compile(&schema).unwrap();
    let rec = extract(&compiled, "äöüßéñx").unwrap();
    assert_eq!(rec.entries[0].value, "üßéñ");
}
