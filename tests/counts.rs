use csv_schema::{Policy, TypeCounts, TypeTag};

fn tally(tags: &[TypeTag]) -> TypeCounts {
    let mut c = TypeCounts::new();
    for t in tags {
        c.record(*t);
    }
    c
}

fn all_counts(c: &TypeCounts) -> Vec<u64> {
    (0..14).map(|i| c.count(TypeTag::from_precedence(i))).collect()
}

#[test]
fn merge_sums_counts_and_unions_tags() {
    let a = tally(&[TypeTag::Bit, TypeTag::Int, TypeTag::Int]);
    let b = tally(&[TypeTag::Int, TypeTag::Date]);
    let m = a.merge(&b);
    assert_eq!(m.count(TypeTag::Bit), 1);
    assert_eq!(m.count(TypeTag::Int), 3);
    assert_eq!(m.count(TypeTag::Date), 1);
    assert_eq!(m.count(TypeTag::Char), 0);
    assert!(m.is_present(TypeTag::Date));
    assert!(!m.is_present(TypeTag::Time));
}

#[test]
fn merge_order_does_not_matter() {
    let values = [
        TypeTag::Char, TypeTag::Int, TypeTag::Bit, TypeTag::Int, TypeTag::Date, TypeTag::Real,
        TypeTag::Char, TypeTag::TinyInt,
    ];
    let whole = tally(&values);
    let parts = [tally(&values[0..3]), tally(&values[3..5]), tally(&values[5..])];
    let orders = [[0, 1, 2], [2, 1, 0], [1, 0, 2], [1, 2, 0], [0, 2, 1], [2, 0, 1]];
    for o in orders {
        let m = parts[o[0]].merge(&parts[o[1]]).merge(&parts[o[2]]);
        assert_eq!(all_counts(&m), all_counts(&whole));
        let n = parts[o[0]].merge(&parts[o[1]].merge(&parts[o[2]]));
        assert_eq!(all_counts(&n), all_counts(&whole));
        for p in [Policy::NarrowestFirst, Policy::StrictMismatch] {
            assert_eq!(m.resolve(p), whole.resolve(p));
        }
    }
    assert_eq!(whole.resolve(Policy::NarrowestFirst), TypeTag::Bit);
    assert_eq!(whole.resolve(Policy::StrictMismatch), TypeTag::NVarCharMax);
}

#[test]
fn resolution_policies() {
    let one = tally(&[TypeTag::Date, TypeTag::Date]);
    assert_eq!(one.resolve(Policy::NarrowestFirst), TypeTag::Date);
    assert_eq!(one.resolve(Policy::StrictMismatch), TypeTag::Date);
    let two = tally(&[TypeTag::Char, TypeTag::Float]);
    assert_eq!(two.resolve(Policy::NarrowestFirst), TypeTag::Float);
    assert_eq!(two.resolve(Policy::StrictMismatch), TypeTag::NVarCharMax);
}

#[test]
fn tags_follow_precedence() {
    for i in 0..14 {
        assert_eq!(TypeTag::from_precedence(i).precedence(), i);
    }
    assert_eq!(TypeTag::Date.precedence(), 7);
    assert_eq!(TypeTag::Time.precedence(), 8);
    assert_eq!(TypeTag::NVarCharMax.name(), "NVARCHAR(MAX)");
    assert_eq!(TypeTag::DateTime2.name(), "DATETIME2");
    assert_eq!(TypeTag::UniqueIdentifier.name(), "UNIQUEIDENTIFIER");
}
