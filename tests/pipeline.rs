use csv_schema::{
    assemble_schema, chars_of, column_names, decimal_string, infer_column_type, merge_columns,
    schema_names, split_fields, synthesized_column_name, tally_column, transpose_batch,
    ColumnSchema, FloatForm, Policy, TypeCounts, TypeTag,
};

fn form_of(v: &str) -> FloatForm {
    if let Ok(f) = v.parse::<f32>() {
        if f.to_string() == v {
            return FloatForm::ExactReal;
        }
    }
    if v.parse::<f64>().is_ok() {
        FloatForm::Double
    } else {
        FloatForm::NotFloat
    }
}

fn forms_of(values: &Vec<String>) -> Vec<FloatForm> {
    values.iter().map(|v| form_of(v)).collect()
}

fn strings(items: &[&str]) -> Vec<String> {
    items.iter().map(|s| s.to_string()).collect()
}

/// Runs the library's stages over in-memory lines.
fn infer(lines: &[&str], delimiter: &str, has_header: bool, policy: Policy) -> Vec<ColumnSchema> {
    let names = schema_names(lines[0], delimiter, has_header);
    let data: Vec<String> = if has_header { strings(&lines[1..]) } else { strings(lines) };
    let columns = transpose_batch(&data, delimiter, names.len());
    let counts: Vec<TypeCounts> =
        columns.iter().map(|c| tally_column(c, &forms_of(c))).collect();
    assemble_schema(&names, &counts, policy)
}

fn pairs(schema: &[ColumnSchema]) -> Vec<(String, String)> {
    schema.iter().map(|c| (c.name.clone(), c.tag.name())).collect()
}

fn expected(items: &[(&str, &str)]) -> Vec<(String, String)> {
    items.iter().map(|(a, b)| (a.to_string(), b.to_string())).collect()
}

#[test]
fn test_csv_parser_with_header() {
    let lines = [
        "id,name,age,is_active,created_at,created_time,uuid",
        "1,Alice,30,true,2023-10-05 14:30:00,14:30:00,123e4567-e89b-12d3-a456-426614174000",
        "2,Bob,25,false,2023-10-06 15:45:00,15:45:00,123e4567-e89b-12d3-a456-426614174001",
    ];
    let schema = infer(&lines, ",", true, Policy::NarrowestFirst);
    assert_eq!(
        pairs(&schema),
        expected(&[
            ("id", "TINYINT"),
            ("name", "CHAR"),
            ("age", "TINYINT"),
            ("is_active", "BIT"),
            ("created_at", "DATETIME"),
            ("created_time", "TIME"),
            ("uuid", "UNIQUEIDENTIFIER"),
        ])
    );
}

#[test]
fn test_csv_parser_without_header() {
    let lines = [
        "1,Alice,30,true,2023-10-05 14:30:00,14:30:00,123e4567-e89b-12d3-a456-426614174000",
        "2,Bob,25,false,2023-10-06 15:45:00,15:45:00,123e4567-e89b-12d3-a456-426614174001",
    ];
    let schema = infer(&lines, ",", false, Policy::NarrowestFirst);
    assert_eq!(
        pairs(&schema),
        expected(&[
            ("col1", "TINYINT"),
            ("col2", "CHAR"),
            ("col3", "TINYINT"),
            ("col4", "BIT"),
            ("col5", "DATETIME"),
            ("col6", "TIME"),
            ("col7", "UNIQUEIDENTIFIER"),
        ])
    );
}

#[test]
fn end_to_end_five_columns() {
    let lines = [
        "id,name,age,is_active,created_at",
        "1,Alice,30,true,2023-10-05 14:30:00",
        "2,Bob,25,false,2023-10-06 15:45:00",
    ];
    let schema = infer(&lines, ",", true, Policy::NarrowestFirst);
    assert_eq!(
        pairs(&schema),
        expected(&[
            ("id", "TINYINT"),
            ("name", "CHAR"),
            ("age", "TINYINT"),
            ("is_active", "BIT"),
            ("created_at", "DATETIME"),
        ])
    );
}

#[test]
fn no_header_synthesizes_names() {
    let lines = ["1,Alice,30,true,2023-10-05 14:30:00", "2,Bob,25,false,2023-10-06 15:45:00"];
    let schema = infer(&lines, ",", false, Policy::NarrowestFirst);
    assert_eq!(
        pairs(&schema),
        expected(&[
            ("col1", "TINYINT"),
            ("col2", "CHAR"),
            ("col3", "TINYINT"),
            ("col4", "BIT"),
            ("col5", "DATETIME"),
        ])
    );
}

#[test]
fn inference_twice_gives_same_schema() {
    let lines = ["a;b", "1;x", "300;2023-01-02", "true;y"];
    let first = pairs(&infer(&lines, ";", true, Policy::NarrowestFirst));
    let second = pairs(&infer(&lines, ";", true, Policy::NarrowestFirst));
    assert_eq!(first, second);
    assert_eq!(first, expected(&[("a", "BIT"), ("b", "DATE")]));
}

#[test]
fn strict_mismatch_policy() {
    let lines = ["a,b,c", "1,x,5", "300,y,6"];
    let schema = infer(&lines, ",", true, Policy::StrictMismatch);
    assert_eq!(
        pairs(&schema),
        expected(&[("a", "NVARCHAR(MAX)"), ("b", "CHAR"), ("c", "TINYINT")])
    );
}

#[test]
fn short_and_long_rows() {
    let lines = ["a,b,c", "1", "2,x,y,extra,more"];
    let schema = infer(&lines, ",", true, Policy::NarrowestFirst);
    assert_eq!(pairs(&schema), expected(&[("a", "TINYINT"), ("b", "CHAR"), ("c", "CHAR")]));
    let columns = transpose_batch(&strings(&lines[1..]), ",", 3);
    assert_eq!(columns, vec![strings(&["1", "2"]), strings(&["x"]), strings(&["y"])]);
}

#[test]
fn empty_column_falls_back() {
    let lines = ["a,b", "1", "2"];
    let schema = infer(&lines, ",", true, Policy::NarrowestFirst);
    assert_eq!(pairs(&schema), expected(&[("a", "TINYINT"), ("b", "NVARCHAR(MAX)")]));
    let empty = TypeCounts::new();
    assert_eq!(empty.resolve(Policy::NarrowestFirst), TypeTag::NVarCharMax);
    assert_eq!(empty.resolve(Policy::StrictMismatch), TypeTag::NVarCharMax);
}

#[test]
fn empty_header_cells_are_named_by_position() {
    let names = column_names("id,,name,\r", ",");
    assert_eq!(names, strings(&["id", "col2", "name", "col4"]));
    let names = column_names("  x|y  ", "|");
    assert_eq!(names, strings(&["x", "y"]));
    let names = column_names("\u{3000}\ta,b\u{a0}\u{2009}", ",");
    assert_eq!(names, strings(&["a", "b"]));
}

#[test]
fn split_on_delimiters() {
    assert_eq!(split_fields("a,b,,c", ","), strings(&["a", "b", "", "c"]));
    assert_eq!(split_fields("", ","), strings(&[""]));
    assert_eq!(split_fields("a::b:::c", "::"), strings(&["a", "b", ":c"]));
    assert_eq!(split_fields("héé,ü", ","), strings(&["héé", "ü"]));
    assert_eq!(split_fields("ab", ""), strings(&["", "a", "b", ""]));
    assert_eq!(split_fields("", ""), strings(&["", ""]));
    assert_eq!(split_fields("añ", ""), "añ".split("").map(|f| f.to_string()).collect::<Vec<String>>());
    let columns = transpose_batch(&strings(&["ab"]), "", 1);
    assert_eq!(columns, vec![strings(&[""])]);
    assert_eq!(split_fields("x,", ","), strings(&["x", ""]));
}

#[test]
fn synthesized_names_and_decimals() {
    assert_eq!(synthesized_column_name(0), "col1");
    assert_eq!(synthesized_column_name(9), "col10");
    assert_eq!(synthesized_column_name(122), "col123");
    assert_eq!(decimal_string(0), "0");
    assert_eq!(decimal_string(1000007), "1000007");
    assert_eq!(decimal_string(u128::MAX), u128::MAX.to_string());
    assert_eq!(chars_of("añb"), vec!['a', 'ñ', 'b']);
}

#[test]
fn batched_column_inference() {
    let mut values: Vec<String> = Vec::new();
    for i in 0..2500 {
        values.push(format!("{}", i % 100));
    }
    values.push("hello".to_string());
    let forms = forms_of(&values);
    assert_eq!(infer_column_type(&values, &forms, Policy::NarrowestFirst), TypeTag::TinyInt);
    assert_eq!(infer_column_type(&values, &forms, Policy::StrictMismatch), TypeTag::NVarCharMax);
    let counts = tally_column(&values, &forms);
    assert_eq!(counts.count(TypeTag::TinyInt), 2500);
    assert_eq!(counts.count(TypeTag::Char), 1);
    assert_eq!(counts.count(TypeTag::Bit), 0);
    let none: Vec<String> = Vec::new();
    assert_eq!(infer_column_type(&none, &Vec::new(), Policy::NarrowestFirst), TypeTag::NVarCharMax);
}

#[test]
fn trim_matches_std() {
    for s in ["", "   ", " a b\t", "\u{3000}x\u{a0}\u{2009}", "\u{200b}y\u{200b}", "\r\nz\u{85}", "plain"] {
        assert_eq!(csv_schema::schema::trim(s), s.trim(), "{:?}", s);
    }
}

#[test]
fn column_totals_merge_per_index() {
    let a = vec![tally_column(&strings(&["1", "x"]), &forms_of(&strings(&["1", "x"]))), TypeCounts::new()];
    let b = vec![TypeCounts::new(), tally_column(&strings(&["true"]), &forms_of(&strings(&["true"])))];
    let m = merge_columns(&a, &b);
    assert_eq!(m.len(), 2);
    assert_eq!(m[0].count(TypeTag::TinyInt), 1);
    assert_eq!(m[0].count(TypeTag::Char), 1);
    assert_eq!(m[1].count(TypeTag::Bit), 1);
    assert_eq!(m[1].resolve(Policy::NarrowestFirst), TypeTag::Bit);
}

#[test]
fn permuted_column_resolves_alike() {
    let values = strings(&["12", "hello", "3.5", "2023-01-02", "70000", "12"]);
    let mut reversed = values.clone();
    reversed.reverse();
    for p in [Policy::NarrowestFirst, Policy::StrictMismatch] {
        assert_eq!(
            infer_column_type(&values, &forms_of(&values), p),
            infer_column_type(&reversed, &forms_of(&reversed), p)
        );
    }
    assert_eq!(infer_column_type(&values, &forms_of(&values), Policy::NarrowestFirst), TypeTag::TinyInt);
}
