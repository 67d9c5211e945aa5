use criterion_table::{
    encode_key, process, BenchmarkId, BuildError, ColumnPosition, Comparison, CriterionTableData,
    Direction, Formatter, GFMFormatter, TablesConfig, TimeUnit, UnitScale,
};

fn measure(estimate: f64, unit: &str) -> Result<TimeUnit, BuildError> {
    let mut scale = UnitScale::try_from_label(unit)?;
    let mut time = estimate;
    while time > 1000.0 {
        match scale.larger() {
            Some(next) => {
                scale = next;
                time /= 1000.0;
            }
            None => break,
        }
    }
    Ok(TimeUnit::new(scale, time.to_bits(), format!("{time:.2}")))
}

fn picoseconds(t: &TimeUnit) -> f64 {
    f64::from_bits(t.magnitude_bits) * t.scale.picoseconds() as f64
}

fn comparison_of(ratio: f64) -> Comparison {
    if ratio > 1.0 {
        Comparison::new(Direction::Faster, format!("{ratio:.2}"))
    } else if ratio < 1.0 {
        Comparison::new(Direction::Slower, format!("{:.2}", 1.0 / ratio))
    } else {
        Comparison::new(Direction::Even, format!("{ratio:.2}"))
    }
}

fn add(data: &mut CriterionTableData, positions: &mut ColumnPosition, id: &str, estimate: f64, unit: &str) -> Result<(), BuildError> {
    let id = BenchmarkId::parse(id)?;
    let time = measure(estimate, unit)?;
    let compare = match data.baseline_time(&id.table, &id.row) {
        Some(base) => comparison_of(picoseconds(&base) / picoseconds(&time)),
        None => Comparison::baseline(),
    };
    data.add_benchmark(positions, id, time, compare)
}

fn build(records: &[(&str, f64, &str)]) -> Result<CriterionTableData, BuildError> {
    let mut data = CriterionTableData::new();
    let mut positions = ColumnPosition::new();
    for (id, estimate, unit) in records {
        add(&mut data, &mut positions, id, *estimate, unit)?;
    }
    Ok(data)
}

fn widths(data: &CriterionTableData, table: usize) -> Vec<(String, usize)> {
    data.tables[table].columns.0.iter().map(|c| (c.name.clone(), c.max_width)).collect()
}

#[test]
fn end_to_end_fibonacci() {
    let data = build(&[("Fib/Recursive/10", 120.0, "ns"), ("Fib/Iterative/10", 12.0, "ns")]).unwrap();
    assert_eq!(data.tables.len(), 1);
    let table = &data.tables[0];
    assert_eq!(table.name, "Fib");
    assert_eq!(table.rows.len(), 1);
    let row = &table.rows[0];
    assert_eq!(row.name, "10");
    assert_eq!(row.column_data[0].name, "Recursive");
    assert_eq!(row.column_data[0].pct.to_text(), "1.00x");
    assert_eq!(row.column_data[1].name, "Iterative");
    assert_eq!(row.column_data[1].pct.direction, Direction::Faster);
    assert_eq!(row.column_data[1].pct.to_text(), "10.00x faster");

    let out = process(&data, &TablesConfig::empty());
    let expected = format!(
        "# Benchmarks\n\n- [Fib](#fib)\n\n## Fib\n\n| {}| `Recursive`{}| `Iterative`{} |\n|:{}|:{}|:{} |\n| **`10`**{}| `120.00 ns` (1.00x){}| `12.00 ns` (\u{2705} **10.00x faster**){} |\n\nMade with [criterion-table](https://github.com/nu11ptr/criterion-table)\n",
        " ".repeat(9),
        " ".repeat(15),
        " ".repeat(22),
        "-".repeat(9),
        "-".repeat(26),
        "-".repeat(33),
        " ".repeat(1),
        " ".repeat(7),
        " ".repeat(1),
    );
    assert_eq!(out, expected);
}

#[test]
fn missing_row_segment_gives_empty_row() {
    let data = build(&[("Table/Col", 5.0, "ms")]).unwrap();
    let table = &data.tables[0];
    assert_eq!(table.name, "Table");
    assert_eq!(table.rows.len(), 1);
    assert_eq!(table.rows[0].name, "");
    assert_eq!(table.rows[0].column_data[0].name, "Col");
    let out = process(&data, &TablesConfig::empty());
    assert!(out.contains(&format!("\n|{}| `5.00 ms` (1.00x)", " ".repeat(8))));
}

#[test]
fn same_id_twice_is_duplicate() {
    let result = build(&[("T/C/R", 1.0, "ns"), ("T/C/R", 2.0, "ns")]);
    match result {
        Err(BuildError::DuplicateColumn(name)) => assert_eq!(name, "C"),
        other => panic!("expected a duplicate column, got {other:?}"),
    }
}

#[test]
fn same_column_in_other_rows_is_fine() {
    let data = build(&[("T/C/R1", 1.0, "ns"), ("T/C/R2", 2.0, "ns")]).unwrap();
    assert_eq!(data.tables[0].rows.len(), 2);
}

#[test]
fn unknown_unit_is_named() {
    match build(&[("T/C/R", 1.0, "xs")]) {
        Err(BuildError::UnrecognizedTimeUnit(label)) => assert_eq!(label, "xs"),
        other => panic!("expected an unrecognized unit, got {other:?}"),
    }
}

#[test]
fn malformed_identifier_is_named() {
    match build(&[("NoSlash", 1.0, "ns")]) {
        Err(BuildError::MalformedIdentifier(id)) => assert_eq!(id, "NoSlash"),
        other => panic!("expected a malformed identifier, got {other:?}"),
    }
    assert!(matches!(BenchmarkId::parse(""), Err(BuildError::MalformedIdentifier(_))));
}

#[test]
fn identifiers_split_on_slashes() {
    let id = BenchmarkId::parse("a/b").unwrap();
    assert_eq!((id.table.as_str(), id.column.as_str(), id.row.as_str()), ("a", "b", ""));
    let id = BenchmarkId::parse("a/b/c/d").unwrap();
    assert_eq!((id.table.as_str(), id.column.as_str(), id.row.as_str()), ("a", "b", "c"));
    let id = BenchmarkId::parse("/x/").unwrap();
    assert_eq!((id.table.as_str(), id.column.as_str(), id.row.as_str()), ("", "x", ""));
}

#[test]
fn malformed_error_comes_before_unit_error() {
    match build(&[("bad", 1.0, "xs")]) {
        Err(BuildError::MalformedIdentifier(_)) => {}
        other => panic!("expected a malformed identifier, got {other:?}"),
    }
}

#[test]
fn table_comment_found_by_lowercase_key() {
    let data = build(&[("Fib/Recursive/10", 120.0, "ns")]).unwrap();
    let config = TablesConfig {
        comments: Some("Top comment".to_string()),
        table_comments: vec![("fib".to_string(), "Fibonacci numbers".to_string())],
    };
    assert_eq!(config.table_comment("Fib"), Some("Fibonacci numbers".to_string()));
    let out = process(&data, &config);
    assert!(out.starts_with("# Benchmarks\n\nTop comment\n- [Fib](#fib)\n\n## Fib\n\nFibonacci numbers\n| "));
}

#[test]
fn keys_and_links_differ() {
    assert_eq!(encode_key("Fast Fib"), "fast_fib");
    let mut buffer = String::new();
    let mut f = GFMFormatter;
    f.start(&mut buffer, None, &vec!["Fast Fib".to_string()]);
    assert_eq!(buffer, "# Benchmarks\n\n- [Fast Fib](#fast-fib)\n\n");
}

#[test]
fn comparison_wording() {
    assert_eq!(Comparison::baseline().to_text(), "1.00x");
    assert_eq!(comparison_of(1.0).to_text(), "1.00x");
    assert_eq!(comparison_of(2.0).to_text(), "2.00x faster");
    assert_eq!(comparison_of(0.5).to_text(), "2.00x slower");
    assert_eq!(Comparison::new(Direction::Slower, "3.10".to_string()).width(), 12);
}

#[test]
fn normalization_promotes_and_is_idempotent() {
    let t = measure(1500.0, "ns").unwrap();
    assert_eq!(t.to_text(), "1.50 us");
    assert_eq!(t.width(), 7);
    let again = measure(f64::from_bits(t.magnitude_bits), "us").unwrap();
    assert_eq!(again.scale, t.scale);
    assert_eq!(again.magnitude_bits, t.magnitude_bits);
    let t = measure(5_000_000.0, "ms").unwrap();
    assert_eq!(t.to_text(), "5000.00 s");
    let t = measure(1000.0, "ps").unwrap();
    assert_eq!(t.to_text(), "1000.00 ps");
    assert_eq!(UnitScale::Second.picoseconds(), 1_000_000_000_000);
}

#[test]
fn column_widths_cover_names_and_data() {
    let data = build(&[
        ("T/A/long row name", 1.0, "ns"),
        ("T/VeryLongColumnNameHere/x", 2.0, "ns"),
        ("T/A/x", 1000.5, "ms"),
    ])
    .unwrap();
    let w = widths(&data, 0);
    assert_eq!(w[0], ("".to_string(), 13));
    for (name, width) in &w[1..] {
        assert!(*width >= name.chars().count());
    }
    let a = w.iter().find(|(n, _)| n == "A").unwrap().1;
    // row x: "1.00 s" + "500250000.00x slower", against its baseline of 2 ns
    assert_eq!(a, 26);
    let long = w.iter().find(|(n, _)| n == "VeryLongColumnNameHere").unwrap().1;
    assert_eq!(long, 22);
}

#[test]
fn label_width_is_longest_row_name() {
    let data = build(&[("T/A/ab", 1.0, "ns"), ("T/A/abcdef", 1.0, "ns"), ("T/B/", 1.0, "ns")]).unwrap();
    assert_eq!(widths(&data, 0)[0].1, 6);
}

#[test]
fn rendering_is_deterministic() {
    let records = [("X/a/1", 3.0, "us"), ("X/b/1", 6.0, "us"), ("Y/a/2", 9.0, "ns")];
    let first = process(&build(&records).unwrap(), &TablesConfig::empty());
    let second = process(&build(&records).unwrap(), &TablesConfig::empty());
    assert_eq!(first, second);
    assert!(first.contains("(\u{274c} *2.00x slower*)"));
}

#[test]
fn column_order_follows_row_occurrences() {
    let mut positions = ColumnPosition::new();
    assert_eq!(positions.next_idx("r".to_string()), 1);
    assert_eq!(positions.next_idx("r".to_string()), 2);
    assert_eq!(positions.next_idx("s".to_string()), 1);
    assert_eq!(positions.next_idx("r".to_string()), 3);

    let data = build(&[("T/A/r1", 1.0, "ns"), ("T/B/r1", 1.0, "ns"), ("U/C/r1", 1.0, "ns"), ("U/D/r2", 1.0, "ns")]).unwrap();
    let names: Vec<String> = widths(&data, 1).into_iter().map(|(n, _)| n).collect();
    assert_eq!(names, vec!["".to_string(), "D".to_string(), "C".to_string()]);
}

#[test]
fn missing_cells_render_placeholder() {
    let data = build(&[("T/A/r1", 1.0, "ns"), ("T/B/r2", 1.0, "ns")]).unwrap();
    let out = process(&data, &TablesConfig::empty());
    assert!(out.contains("`N/A`"));
    for line in out.lines().filter(|l| l.starts_with('|')) {
        assert!(line.ends_with(" |"));
    }
}

#[test]
fn tables_keep_first_seen_order() {
    let data = build(&[("B/x/1", 1.0, "ns"), ("A/x/1", 1.0, "ns"), ("B/y/1", 1.0, "ns")]).unwrap();
    let names: Vec<&str> = data.tables.iter().map(|t| t.name.as_str()).collect();
    assert_eq!(names, vec!["B", "A"]);
}

#[test]
fn pad_fills_past_width() {
    let mut buffer = String::from("ab");
    GFMFormatter::pad(&mut buffer, '-', 5, 2);
    assert_eq!(buffer, "ab----");
}

#[test]
fn no_records_render_an_empty_report() {
    let out = process(&CriterionTableData::new(), &TablesConfig::empty());
    assert_eq!(out, "# Benchmarks\n\n\nMade with [criterion-table](https://github.com/nu11ptr/criterion-table)\n");
}

#[test]
fn every_unit_label_is_known() {
    let labels = [("s", UnitScale::Second), ("ms", UnitScale::Millisecond), ("us", UnitScale::Microsecond), ("ns", UnitScale::Nanosecond), ("ps", UnitScale::Picosecond)];
    for (label, scale) in labels {
        assert_eq!(UnitScale::try_from_label(label).unwrap(), scale);
        assert_eq!(scale.suffix(), label);
    }
    assert!(UnitScale::try_from_label("S").is_err());
    assert!(UnitScale::try_from_label("").is_err());
    assert_eq!(UnitScale::Millisecond.larger(), Some(UnitScale::Second));
    assert_eq!(UnitScale::Second.larger(), None);
}

#[test]
fn baseline_is_first_cell_of_the_row() {
    let data = build(&[("T/A/r", 7.0, "ns"), ("T/B/r", 14.0, "ns"), ("T/B/q", 1.0, "ns")]).unwrap();
    let base = data.baseline_time("T", "r").unwrap();
    assert_eq!(base.to_text(), "7.00 ns");
    assert_eq!(data.baseline_time("T", "q").unwrap().to_text(), "1.00 ns");
    assert!(data.baseline_time("T", "zz").is_none());
    assert!(data.baseline_time("U", "r").is_none());
    let q = &data.tables[0].rows[1];
    assert_eq!(q.column_data[0].pct.to_text(), "1.00x");
    assert_eq!(data.tables[0].rows[0].column_data[1].pct.to_text(), "2.00x slower");
}
