use vstd::prelude::*;
use vstd::std_specs::iter::IteratorSpec;
use vstd::string::axiom_spec_iter;

verus! {

/// Whether `d` occurs in `s` starting at position `i`.
pub open spec fn occurs_at(s: Seq<char>, d: Seq<char>, i: int) -> bool {
    0 <= i && i + d.len() <= s.len() && s.subrange(i, i + d.len()) == d
}

/// Fields of `s` split on every non-overlapping occurrence of `d`, scanning
/// left to right; `start` is where the current field began and `pos` is the
/// next position examined.
pub open spec fn split_from(s: Seq<char>, d: Seq<char>, start: int, pos: int) -> Seq<Seq<char>>
    decreases s.len() - pos,
{
    if d.len() == 0 || pos < 0 || pos + d.len() > s.len() {
        seq![s.subrange(start, s.len() as int)]
    } else if occurs_at(s, d, pos) {
        seq![s.subrange(start, pos)] + split_from(s, d, pos + d.len(), pos + d.len())
    } else {
        split_from(s, d, start, pos + 1)
    }
}

/// The fields of a line split on a delimiter.
/// The fields of `s` split on an empty delimiter, which matches at every
/// character boundary: an empty field, each character alone, an empty field.
pub open spec fn split_empty(s: Seq<char>) -> Seq<Seq<char>> {
    Seq::new(
        s.len() + 2,
        |i: int|
            if i == 0 || i == s.len() + 1 {
                Seq::<char>::empty()
            } else {
                seq![s[i - 1]]
            },
    )
}

/// The fields of a line split on a delimiter.
pub open spec fn split_spec(s: Seq<char>, d: Seq<char>) -> Seq<Seq<char>> {
    if d.len() == 0 {
        split_empty(s)
    } else {
        split_from(s, d, 0, 0)
    }
}

/// The views of a sequence of strings.
pub open spec fn views(v: Seq<String>) -> Seq<Seq<char>> {
    v.map_values(|f: String| f@)
}

/// The decimal digit for `d < 10`.
pub open spec fn digit_char(d: nat) -> char {
    if d == 0 {
        '0'
    } else if d == 1 {
        '1'
    } else if d == 2 {
        '2'
    } else if d == 3 {
        '3'
    } else if d == 4 {
        '4'
    } else if d == 5 {
        '5'
    } else if d == 6 {
        '6'
    } else if d == 7 {
        '7'
    } else if d == 8 {
        '8'
    } else {
        '9'
    }
}

/// The decimal spelling of `n`, without leading zeros.
pub open spec fn decimal(n: nat) -> Seq<char>
    decreases n,
{
    if n < 10 {
        seq![digit_char(n)]
    } else {
        decimal(n / 10).push(digit_char(n % 10))
    }
}

/// The name given to the column at zero-based index `i` when no header
/// supplies one: `col` followed by `i + 1`.
pub open spec fn synthesized_name(i: nat) -> Seq<char> {
    seq!['c', 'o', 'l'] + decimal(i + 1)
}

/// The characters of `s`.
pub fn chars_of(s: &str) -> (r: Vec<char>)
    ensures
        r@ == s@,
{
    broadcast use axiom_spec_iter, vstd::string::next_postcondition;

    let n = s.unicode_len();
    let mut it = s.chars();
    let mut out: Vec<char> = Vec::new();
    while out.len() < n
        invariant
            n == s@.len(),
            out@ + it.remaining() == s@,
        ensures
            out@ == s@,
        decreases n - out@.len(),
    {
        match it.next() {
            Some(c) => {
                out.push(c);
            },
            None => {
                assert(out@ =~= out@ + it.remaining());
                break ;
            },
        }
    }
    out
}

/// Whether `d` occurs in `s` at position `pos`.
fn occurs_at_exec(s: &Vec<char>, d: &Vec<char>, pos: usize) -> (r: bool)
    ensures
        r == occurs_at(s@, d@, pos as int),
{
    if pos > s.len() || d.len() > s.len() - pos {
        return false;
    }
    let mut k: usize = 0;
    while k < d.len()
        invariant
            pos + d@.len() <= s@.len(),
            s@.len() <= usize::MAX,
            k <= d@.len(),
            forall|j: int| 0 <= j < k ==> s@[pos + j] == d@[j],
        decreases d@.len() - k,
    {
        if s[pos + k] != d[k] {
            assert(s@.subrange(pos as int, pos + d@.len())[k as int] != d@[k as int]);
            return false;
        }
        k = k + 1;
    }
    assert(s@.subrange(pos as int, pos + d@.len()) =~= d@);
    true
}

/// Splits a line into its fields on every occurrence of `delimiter`, left to
/// right. Quoting is not recognised. An empty delimiter matches at every
/// character boundary, so the line `ab` gives the fields ``, `a`, `b`, ``.
pub fn split_fields(line: &str, delimiter: &str) -> (r: Vec<String>)
    ensures
        views(r@) == split_spec(line@, delimiter@),
        r@.len() >= 1,
{
    let s = chars_of(line);
    let d = chars_of(delimiter);
    let mut out: Vec<String> = Vec::new();
    if d.len() == 0 {
        proof {
            reveal_strlit("");
        }
        let e = "".to_owned();
        assert(e@ =~= Seq::<char>::empty());
        out.push(e);
        assert(views(out@) =~= split_empty(s@).subrange(0, 1));
        let mut i: usize = 0;
        while i < s.len()
            invariant
                s@ == line@,
                i <= s@.len(),
                views(out@) == split_empty(s@).subrange(0, i + 1),
            decreases s@.len() - i,
        {
            let f = line.substring_char(i, i + 1).to_owned();
            assert(f@ =~= seq![s@[i as int]]);
            let ghost before = out@;
            out.push(f);
            assert(views(out@) =~= views(before).push(f@));
            i = i + 1;
            assert(views(out@) =~= split_empty(s@).subrange(0, i + 1));
        }
        let ghost before = out@;
        let e = "".to_owned();
        assert(e@ =~= Seq::<char>::empty());
        out.push(e);
        assert(views(out@) =~= views(before).push(Seq::<char>::empty()));
        assert(views(out@) =~= split_spec(line@, delimiter@));
        return out;
    }
    let mut start: usize = 0;
    let mut pos: usize = 0;
    while pos <= s.len() && d.len() <= s.len() - pos
        invariant
            s@ == line@,
            d@ == delimiter@,
            d@.len() > 0,
            start <= pos <= s@.len(),
            views(out@) + split_from(s@, d@, start as int, pos as int) == split_spec(
                s@,
                d@,
            ),
        decreases s@.len() - pos,
    {
        if occurs_at_exec(&s, &d, pos) {
            let f = line.substring_char(start, pos).to_owned();
            let ghost before = out@;
            out.push(f);
            assert(views(out@) =~= views(before).push(f@));
            assert(views(out@) + split_from(s@, d@, (pos + d.len()) as int, (pos + d.len()) as int)
                =~= views(before) + split_from(s@, d@, start as int, pos as int));
            pos = pos + d.len();
            start = pos;
        } else {
            pos = pos + 1;
        }
    }
    let f = line.substring_char(start, s.len()).to_owned();
    let ghost before = out@;
    out.push(f);
    assert(views(out@) =~= views(before).push(f@));
    assert(views(out@) =~= split_spec(line@, delimiter@));
    out
}

/// A string holding the single digit `d`.
fn digit_str(d: u128) -> (r: &'static str)
    requires
        d < 10,
    ensures
        r@ == seq![digit_char(d as nat)],
{
    proof {
        reveal_strlit("0");
        reveal_strlit("1");
        reveal_strlit("2");
        reveal_strlit("3");
        reveal_strlit("4");
        reveal_strlit("5");
        reveal_strlit("6");
        reveal_strlit("7");
        reveal_strlit("8");
        reveal_strlit("9");
    }
    let r = if d == 0 {
        "0"
    } else if d == 1 {
        "1"
    } else if d == 2 {
        "2"
    } else if d == 3 {
        "3"
    } else if d == 4 {
        "4"
    } else if d == 5 {
        "5"
    } else if d == 6 {
        "6"
    } else if d == 7 {
        "7"
    } else if d == 8 {
        "8"
    } else {
        "9"
    };
    assert(r@ =~= seq![digit_char(d as nat)]);
    r
}

/// The decimal spelling of `n`.
pub fn decimal_string(n: u128) -> (r: String)
    ensures
        r@ == decimal(n as nat),
    decreases n,
{
    if n < 10 {
        digit_str(n).to_owned()
    } else {
        let mut s = decimal_string(n / 10);
        s.append(digit_str(n % 10));
        s
    }
}

/// The name of the column at zero-based index `i` when no header names it.
pub fn synthesized_column_name(i: usize) -> (r: String)
    ensures
        r@ == synthesized_name(i as nat),
{
    proof {
        reveal_strlit("col");
    }
    let mut r = "col".to_owned();
    let num = decimal_string(i as u128 + 1);
    r.append(num.as_str());
    assert(r@ =~= synthesized_name(i as nat));
    r
}

} // verus!
