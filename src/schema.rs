use vstd::prelude::*;
use crate::classify::{field_tag, infer_sql_type, FloatForm};
use crate::counts::{
    lemma_merge_empty, lemma_tally_concat, lemma_tally_multiset, merge_spec, resolve_spec, sat,
    tally_spec, TypeCounts,
};
use crate::tag::{lemma_rank_tag_at, rank, Policy, TypeTag, TAG_COUNT};
use crate::text::{chars_of, split_fields, split_spec, synthesized_column_name, synthesized_name, views};

verus! {

/// Rows per batch when a column's values are tallied.
pub const BATCH_SIZE: usize = 1000;

/// A character with Unicode's `White_Space` property.
pub open spec fn is_white_space(c: char) -> bool {
    ('\u{9}' <= c && c <= '\u{d}') || c == ' ' || c == '\u{85}' || c == '\u{a0}' || c
        == '\u{1680}' || ('\u{2000}' <= c && c <= '\u{200a}') || c == '\u{2028}' || c
        == '\u{2029}' || c == '\u{202f}' || c == '\u{205f}' || c == '\u{3000}'
}

/// `s` without its leading white space.
pub open spec fn trim_start_spec(s: Seq<char>) -> Seq<char>
    decreases s.len(),
{
    if s.len() > 0 && is_white_space(s[0]) {
        trim_start_spec(s.drop_first())
    } else {
        s
    }
}

/// `s` without its trailing white space.
pub open spec fn trim_end_spec(s: Seq<char>) -> Seq<char>
    decreases s.len(),
{
    if s.len() > 0 && is_white_space(s.last()) {
        trim_end_spec(s.drop_last())
    } else {
        s
    }
}

/// `s` without leading and trailing white space.
pub open spec fn trimmed(s: Seq<char>) -> Seq<char> {
    trim_end_spec(trim_start_spec(s))
}

fn is_white_space_exec(c: char) -> (r: bool)
    ensures
        r == is_white_space(c),
{
    ('\u{9}' <= c && c <= '\u{d}') || c == ' ' || c == '\u{85}' || c == '\u{a0}' || c
        == '\u{1680}' || ('\u{2000}' <= c && c <= '\u{200a}') || c == '\u{2028}' || c
        == '\u{2029}' || c == '\u{202f}' || c == '\u{205f}' || c == '\u{3000}'
}

/// The text without leading and trailing characters of Unicode's
/// `White_Space` property.
pub fn trim(s: &str) -> (r: &str)
    ensures
        r@ == trimmed(s@),
{
    let cs = chars_of(s);
    let n = cs.len();
    let mut lo: usize = 0;
    assert(s@.subrange(0, n as int) =~= s@);
    while lo < n && is_white_space_exec(cs[lo])
        invariant
            cs@ == s@,
            n == s@.len(),
            lo <= n,
            trim_start_spec(s@) == trim_start_spec(s@.subrange(lo as int, n as int)),
        decreases n - lo,
    {
        assert(s@.subrange(lo as int, n as int).drop_first() =~= s@.subrange(lo + 1, n as int));
        lo = lo + 1;
    }
    let mut hi: usize = n;
    while hi > lo && is_white_space_exec(cs[hi - 1])
        invariant
            cs@ == s@,
            n == s@.len(),
            lo <= hi <= n,
            trim_start_spec(s@) == s@.subrange(lo as int, n as int),
            trimmed(s@) == trim_end_spec(s@.subrange(lo as int, hi as int)),
        decreases hi - lo,
    {
        assert(s@.subrange(lo as int, hi as int).drop_last() =~= s@.subrange(lo as int, hi - 1));
        hi = hi - 1;
    }
    s.substring_char(lo, hi)
}

/// The tags of a column's values, each with its float form.
pub open spec fn tags_spec(values: Seq<Seq<char>>, forms: Seq<FloatForm>) -> Seq<TypeTag> {
    Seq::new(values.len(), |i: int| field_tag(values[i], forms[i]))
}

/// The values that column `c` receives from some rows, in row order: a row
/// with `c` fields or fewer contributes nothing.
pub open spec fn column_of(rows: Seq<Seq<Seq<char>>>, c: int) -> Seq<Seq<char>>
    decreases rows.len(),
{
    if rows.len() == 0 {
        Seq::empty()
    } else {
        column_of(rows.drop_last(), c) + if c < rows.last().len() {
            seq![rows.last()[c]]
        } else {
            Seq::<Seq<char>>::empty()
        }
    }
}

/// The rows of some lines, each split on `d`.
pub open spec fn rows_of(lines: Seq<Seq<char>>, d: Seq<char>) -> Seq<Seq<Seq<char>>> {
    Seq::new(lines.len(), |i: int| split_spec(lines[i], d))
}

/// Column names from header fields: an empty field at index `i` is named
/// `col<i+1>`.
pub open spec fn names_from_fields(fields: Seq<Seq<char>>) -> Seq<Seq<char>> {
    Seq::new(
        fields.len(),
        |i: int|
            if fields[i].len() == 0 {
                synthesized_name(i as nat)
            } else {
                fields[i]
            },
    )
}

/// The column names a header line gives.
pub open spec fn header_names(line: Seq<char>, d: Seq<char>) -> Seq<Seq<char>> {
    names_from_fields(split_spec(trimmed(line), d))
}

/// The name of column `i`: the header's, where it has one, else `col<i+1>`.
pub open spec fn name_at(names: Seq<Seq<char>>, i: int) -> Seq<char> {
    if i < names.len() {
        names[i]
    } else {
        synthesized_name(i as nat)
    }
}

/// One entry of an inferred schema.
#[derive(Clone, Debug)]
pub struct ColumnSchema {
    pub name: String,
    pub tag: TypeTag,
}

/// The column names of a header line: its fields after trimming the line,
/// with an empty field at index `i` named `col<i+1>`.
pub fn column_names(header_line: &str, delimiter: &str) -> (r: Vec<String>)
    ensures
        views(r@) == header_names(header_line@, delimiter@),
{
    let fields = split_fields(trim(header_line), delimiter);
    let mut out: Vec<String> = Vec::new();
    let mut i: usize = 0;
    while i < fields.len()
        invariant
            i <= fields@.len(),
            views(fields@) == split_spec(trimmed(header_line@), delimiter@),
            views(out@) == names_from_fields(views(fields@)).subrange(0, i as int),
        decreases fields@.len() - i,
    {
        let name = if fields[i].as_str().is_empty() {
            synthesized_column_name(i)
        } else {
            fields[i].clone()
        };
        let ghost before = out@;
        assert(views(fields@)[i as int] == fields@[i as int]@);
        out.push(name);
        assert(views(out@) =~= views(before).push(name@));
        i = i + 1;
        assert(views(out@) =~= names_from_fields(views(fields@)).subrange(0, i as int));
    }
    assert(views(out@) =~= header_names(header_line@, delimiter@));
    out
}


/// Column names for a file whose first line is `first_line`: the header's
/// names when the file has a header, else `col1`, `col2`, ... for each field
/// of that first data line.
pub fn schema_names(first_line: &str, delimiter: &str, has_header: bool) -> (r: Vec<String>)
    ensures
        has_header ==> views(r@) == header_names(first_line@, delimiter@),
        !has_header ==> views(r@) == Seq::new(
            split_spec(first_line@, delimiter@).len(),
            |i: int| synthesized_name(i as nat),
        ),
{
    if has_header {
        return column_names(first_line, delimiter);
    }
    let n = split_fields(first_line, delimiter).len();
    let mut out: Vec<String> = Vec::new();
    let mut i: usize = 0;
    while i < n
        invariant
            i <= n,
            n == split_spec(first_line@, delimiter@).len(),
            views(out@) == Seq::new(i as nat, |j: int| synthesized_name(j as nat)),
        decreases n - i,
    {
        let name = synthesized_column_name(i);
        let ghost before = out@;
        out.push(name);
        assert(views(out@) =~= views(before).push(name@));
        i = i + 1;
        assert(views(out@) =~= Seq::new(i as nat, |j: int| synthesized_name(j as nat)));
    }
    out
}

proof fn lemma_column_of_step(rows: Seq<Seq<Seq<char>>>, k: int, c: int)
    requires
        0 <= k < rows.len(),
    ensures
        column_of(rows.subrange(0, k + 1), c) == column_of(rows.subrange(0, k), c) + if c
            < rows[k].len() {
            seq![rows[k][c]]
        } else {
            Seq::<Seq<char>>::empty()
        },
{
    assert(rows.subrange(0, k + 1).drop_last() =~= rows.subrange(0, k));
}

/// Splits each line of a batch on `delimiter` and gathers the fields by
/// column. Column `c` receives, in row order, field `c` of each row that has
/// one; fields past `num_columns` are dropped.
pub fn transpose_batch(batch: &Vec<String>, delimiter: &str, num_columns: usize) -> (r: Vec<
    Vec<String>,
>)
    ensures
        r@.len() == num_columns,
        forall|c: int|
            0 <= c < num_columns ==> views(#[trigger] r@[c]@) == column_of(
                rows_of(views(batch@), delimiter@),
                c,
            ),
{
    let ghost rs = rows_of(views(batch@), delimiter@);
    let mut rows: Vec<Vec<String>> = Vec::new();
    let mut k: usize = 0;
    while k < batch.len()
        invariant
            k <= batch@.len(),
            rs == rows_of(views(batch@), delimiter@),
            rows@.len() == k,
            forall|j: int| 0 <= j < k ==> views(#[trigger] rows@[j]@) == rs[j],
        decreases batch@.len() - k,
    {
        let fields = split_fields(batch[k].as_str(), delimiter);
        assert(views(batch@)[k as int] == batch@[k as int]@);
        rows.push(fields);
        k = k + 1;
    }
    let mut out: Vec<Vec<String>> = Vec::new();
    let mut c: usize = 0;
    while c < num_columns
        invariant
            c <= num_columns,
            rs == rows_of(views(batch@), delimiter@),
            rows@.len() == rs.len(),
            forall|j: int| 0 <= j < rows@.len() ==> views(#[trigger] rows@[j]@) == rs[j],
            out@.len() == c,
            forall|j: int| 0 <= j < c ==> views(#[trigger] out@[j]@) == column_of(rs, j),
        decreases num_columns - c,
    {
        let mut col: Vec<String> = Vec::new();
        let mut k: usize = 0;
        while k < rows.len()
            invariant
                k <= rows@.len(),
                rows@.len() == rs.len(),
                forall|j: int| 0 <= j < rows@.len() ==> views(#[trigger] rows@[j]@) == rs[j],
                views(col@) == column_of(rs.subrange(0, k as int), c as int),
            decreases rows@.len() - k,
        {
            proof {
                lemma_column_of_step(rs, k as int, c as int);
            }
            assert(views(rows@[k as int]@) == rs[k as int]);
            if c < rows[k].len() {
                let f = rows[k][c].clone();
                assert(views(rows@[k as int]@)[c as int] == rows@[k as int]@[c as int]@);
                let ghost before = col@;
                col.push(f);
                assert(views(col@) =~= views(before).push(f@));
            }
            k = k + 1;
        }
        assert(rs.subrange(0, rs.len() as int) =~= rs);
        out.push(col);
        c = c + 1;
    }
    out
}

proof fn lemma_tally_push(x: Seq<TypeTag>, t: TypeTag)
    ensures
        tally_spec(x.push(t)) == tally_spec(x).update(
            rank(t) as int,
            sat(tally_spec(x)[rank(t) as int] + 1),
        ),
{
    assert(x.push(t).drop_last() =~= x);
    assert forall|i: int| 0 <= i < TAG_COUNT implies #[trigger] tally_spec(x.push(t))[i]
        == tally_spec(x).update(rank(t) as int, sat(tally_spec(x)[rank(t) as int] + 1))[i] by {
        lemma_rank_tag_at(t, i);
    }
    assert(tally_spec(x.push(t)) =~= tally_spec(x).update(
        rank(t) as int,
        sat(tally_spec(x)[rank(t) as int] + 1),
    ));
}

fn tally_range(values: &Vec<String>, forms: &Vec<FloatForm>, lo: usize, hi: usize) -> (r:
    TypeCounts)
    requires
        values@.len() == forms@.len(),
        lo <= hi <= values@.len(),
    ensures
        r.wf(),
        r@ == tally_spec(tags_spec(views(values@), forms@).subrange(lo as int, hi as int)),
{
    let ghost tags = tags_spec(views(values@), forms@);
    let mut acc = TypeCounts::new();
    proof {
        lemma_merge_empty(acc@);
        assert(tags.subrange(lo as int, lo as int) =~= Seq::<TypeTag>::empty());
    }
    let mut i: usize = lo;
    while i < hi
        invariant
            values@.len() == forms@.len(),
            lo <= i <= hi <= values@.len(),
            tags == tags_spec(views(values@), forms@),
            acc.wf(),
            acc@ == tally_spec(tags.subrange(lo as int, i as int)),
        decreases hi - i,
    {
        let t = infer_sql_type(values[i].as_str(), forms[i]);
        assert(views(values@)[i as int] == values@[i as int]@);
        proof {
            lemma_tally_push(tags.subrange(lo as int, i as int), t);
            assert(tags.subrange(lo as int, i + 1) =~= tags.subrange(lo as int, i as int).push(t));
        }
        acc.record(t);
        i = i + 1;
    }
    acc
}

/// Tallies the tags of a column's values; `forms[i]` is the float form of
/// `values[i]`.
pub fn tally_column(values: &Vec<String>, forms: &Vec<FloatForm>) -> (r: TypeCounts)
    requires
        values@.len() == forms@.len(),
    ensures
        r.wf(),
        r@ == tally_spec(tags_spec(views(values@), forms@)),
{
    let r = tally_range(values, forms, 0, values.len());
    assert(tags_spec(views(values@), forms@).subrange(0, values@.len() as int) =~= tags_spec(
        views(values@),
        forms@,
    ));
    r
}

/// Infers a column's type: its values are tallied in batches of
/// `BATCH_SIZE`, the batch tallies merged, and the result resolved under
/// `policy`.
pub fn infer_column_type(values: &Vec<String>, forms: &Vec<FloatForm>, policy: Policy) -> (r:
    TypeTag)
    requires
        values@.len() == forms@.len(),
    ensures
        r == resolve_spec(tally_spec(tags_spec(views(values@), forms@)), policy),
{
    let ghost tags = tags_spec(views(values@), forms@);
    let n = values.len();
    let mut acc = TypeCounts::new();
    proof {
        lemma_merge_empty(acc@);
        assert(tags.subrange(0, 0) =~= Seq::<TypeTag>::empty());
    }
    let mut start: usize = 0;
    while start < n
        invariant
            n == values@.len(),
            values@.len() == forms@.len(),
            start <= n,
            tags == tags_spec(views(values@), forms@),
            acc.wf(),
            acc@ == tally_spec(tags.subrange(0, start as int)),
        decreases n - start,
    {
        let end = if n - start > BATCH_SIZE {
            start + BATCH_SIZE
        } else {
            n
        };
        let batch = tally_range(values, forms, start, end);
        proof {
            lemma_tally_concat(tags.subrange(0, start as int), tags.subrange(start as int, end as int));
            assert(tags.subrange(0, start as int) + tags.subrange(start as int, end as int)
                =~= tags.subrange(0, end as int));
        }
        acc = acc.merge(&batch);
        start = end;
    }
    assert(tags.subrange(0, n as int) =~= tags);
    acc.resolve(policy)
}

/// A column's values paired with their float forms.
pub open spec fn zip_forms(values: Seq<Seq<char>>, forms: Seq<FloatForm>) -> Seq<
    (Seq<char>, FloatForm),
> {
    Seq::new(values.len(), |i: int| (values[i], forms[i]))
}

/// The tag of each (value, float form) pair.
pub open spec fn pair_tags(ps: Seq<(Seq<char>, FloatForm)>) -> Seq<TypeTag> {
    ps.map_values(|p: (Seq<char>, FloatForm)| field_tag(p.0, p.1))
}

proof fn lemma_pair_tags_multiset(ps: Seq<(Seq<char>, FloatForm)>, qs: Seq<(Seq<char>, FloatForm)>)
    requires
        ps.to_multiset() == qs.to_multiset(),
    ensures
        pair_tags(ps).to_multiset() == pair_tags(qs).to_multiset(),
    decreases ps.len(),
{
    ps.to_multiset_ensures();
    qs.to_multiset_ensures();
    pair_tags(ps).to_multiset_ensures();
    pair_tags(qs).to_multiset_ensures();
    if ps.len() == 0 {
        assert(pair_tags(ps) =~= pair_tags(qs));
    } else {
        let x = ps.last();
        let p0 = ps.drop_last();
        p0.to_multiset_ensures();
        assert(ps =~= p0.push(x));
        assert(qs.to_multiset().count(x) > 0);
        assert(qs.contains(x));
        let j = choose|j: int| 0 <= j < qs.len() && qs[j] == x;
        let q0 = qs.remove(j);
        q0.to_multiset_ensures();
        assert(p0.to_multiset() =~= q0.to_multiset());
        lemma_pair_tags_multiset(p0, q0);
        let y = field_tag(x.0, x.1);
        assert(pair_tags(ps) =~= pair_tags(p0).push(y));
        assert(pair_tags(q0) =~= pair_tags(qs).remove(j));
        assert(pair_tags(qs)[j] == y);
        pair_tags(p0).to_multiset_ensures();
        assert(pair_tags(qs).to_multiset().count(y) > 0);
        assert(pair_tags(ps).to_multiset() =~= pair_tags(qs).to_multiset());
    }
}

/// The order of a column's values does not matter: two columns holding the
/// same (value, float form) pairs, as a multiset, have the same tally and
/// resolve to the same tag under every policy.
pub proof fn lemma_column_order_free(
    v1: Seq<Seq<char>>,
    f1: Seq<FloatForm>,
    v2: Seq<Seq<char>>,
    f2: Seq<FloatForm>,
    policy: Policy,
)
    requires
        v1.len() == f1.len(),
        v2.len() == f2.len(),
        zip_forms(v1, f1).to_multiset() == zip_forms(v2, f2).to_multiset(),
    ensures
        tally_spec(tags_spec(v1, f1)) == tally_spec(tags_spec(v2, f2)),
        resolve_spec(tally_spec(tags_spec(v1, f1)), policy) == resolve_spec(
            tally_spec(tags_spec(v2, f2)),
            policy,
        ),
{
    lemma_pair_tags_multiset(zip_forms(v1, f1), zip_forms(v2, f2));
    assert(tags_spec(v1, f1) =~= pair_tags(zip_forms(v1, f1)));
    assert(tags_spec(v2, f2) =~= pair_tags(zip_forms(v2, f2)));
    lemma_tally_multiset(tags_spec(v1, f1), tags_spec(v2, f2));
}

/// Folds one batch's per-column tallies into running per-column totals:
/// entry `i` of the result is the merge of entry `i` of each input.
pub fn merge_columns(totals: &Vec<TypeCounts>, batch: &Vec<TypeCounts>) -> (r: Vec<TypeCounts>)
    requires
        totals@.len() == batch@.len(),
        forall|i: int| 0 <= i < totals@.len() ==> (#[trigger] totals@[i]).wf(),
        forall|i: int| 0 <= i < batch@.len() ==> (#[trigger] batch@[i]).wf(),
    ensures
        r@.len() == totals@.len(),
        forall|i: int|
            0 <= i < r@.len() ==> (#[trigger] r@[i]).wf() && r@[i]@ == merge_spec(
                totals@[i]@,
                batch@[i]@,
            ),
{
    let mut out: Vec<TypeCounts> = Vec::new();
    let mut i: usize = 0;
    while i < totals.len()
        invariant
            totals@.len() == batch@.len(),
            forall|j: int| 0 <= j < totals@.len() ==> (#[trigger] totals@[j]).wf(),
            forall|j: int| 0 <= j < batch@.len() ==> (#[trigger] batch@[j]).wf(),
            i <= totals@.len(),
            out@.len() == i,
            forall|j: int|
                0 <= j < i ==> (#[trigger] out@[j]).wf() && out@[j]@ == merge_spec(
                    totals@[j]@,
                    batch@[j]@,
                ),
        decreases totals@.len() - i,
    {
        out.push(totals[i].merge(&batch[i]));
        i = i + 1;
    }
    out
}

/// Pairs each column with its name and resolved tag, in column order. There
/// is one entry per tally; a column past the end of `names` is named
/// `col<i+1>`.
pub fn assemble_schema(names: &Vec<String>, counts: &Vec<TypeCounts>, policy: Policy) -> (r: Vec<
    ColumnSchema,
>)
    requires
        forall|i: int| 0 <= i < counts@.len() ==> (#[trigger] counts@[i]).wf(),
    ensures
        r@.len() == counts@.len(),
        forall|i: int|
            0 <= i < r@.len() ==> (#[trigger] r@[i]).name@ == name_at(views(names@), i) && r@[i].tag
                == resolve_spec(counts@[i]@, policy),
{
    let mut out: Vec<ColumnSchema> = Vec::new();
    let mut i: usize = 0;
    while i < counts.len()
        invariant
            i <= counts@.len(),
            forall|j: int| 0 <= j < counts@.len() ==> (#[trigger] counts@[j]).wf(),
            out@.len() == i,
            forall|j: int|
                0 <= j < i ==> (#[trigger] out@[j]).name@ == name_at(views(names@), j) && out@[j].tag
                    == resolve_spec(counts@[j]@, policy),
        decreases counts@.len() - i,
    {
        let name = if i < names.len() {
            assert(views(names@)[i as int] == names@[i as int]@);
            names[i].clone()
        } else {
            synthesized_column_name(i)
        };
        let tag = counts[i].resolve(policy);
        out.push(ColumnSchema { name, tag });
        i = i + 1;
    }
    out
}

} // verus!
