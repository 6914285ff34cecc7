use vstd::prelude::*;

verus! {

/// The storage-type vocabulary, listed in its precedence order.
#[derive(Clone, Copy, Debug, PartialEq, Eq, Structural, Hash)]
pub enum TypeTag {
    Bit,
    TinyInt,
    SmallInt,
    Int,
    BigInt,
    Real,
    Float,
    Date,
    Time,
    DateTime,
    DateTime2,
    UniqueIdentifier,
    Char,
    NVarCharMax,
}

/// Number of tags in the vocabulary.
pub const TAG_COUNT: usize = 14;

/// Position of a tag in the precedence order (0 is the narrowest).
pub open spec fn rank(t: TypeTag) -> nat {
    match t {
        TypeTag::Bit => 0,
        TypeTag::TinyInt => 1,
        TypeTag::SmallInt => 2,
        TypeTag::Int => 3,
        TypeTag::BigInt => 4,
        TypeTag::Real => 5,
        TypeTag::Float => 6,
        TypeTag::Date => 7,
        TypeTag::Time => 8,
        TypeTag::DateTime => 9,
        TypeTag::DateTime2 => 10,
        TypeTag::UniqueIdentifier => 11,
        TypeTag::Char => 12,
        TypeTag::NVarCharMax => 13,
    }
}

/// The tag at a position of the precedence order.
pub open spec fn tag_at(i: int) -> TypeTag {
    if i <= 0 {
        TypeTag::Bit
    } else if i == 1 {
        TypeTag::TinyInt
    } else if i == 2 {
        TypeTag::SmallInt
    } else if i == 3 {
        TypeTag::Int
    } else if i == 4 {
        TypeTag::BigInt
    } else if i == 5 {
        TypeTag::Real
    } else if i == 6 {
        TypeTag::Float
    } else if i == 7 {
        TypeTag::Date
    } else if i == 8 {
        TypeTag::Time
    } else if i == 9 {
        TypeTag::DateTime
    } else if i == 10 {
        TypeTag::DateTime2
    } else if i == 11 {
        TypeTag::UniqueIdentifier
    } else if i == 12 {
        TypeTag::Char
    } else {
        TypeTag::NVarCharMax
    }
}

/// `rank` and `tag_at` are inverse to each other.
pub proof fn lemma_rank_tag_at(t: TypeTag, i: int)
    ensures
        rank(t) < TAG_COUNT,
        tag_at(rank(t) as int) == t,
        0 <= i < TAG_COUNT ==> rank(tag_at(i)) == i,
{
}

/// The SQL spelling of a tag.
pub open spec fn tag_name(t: TypeTag) -> Seq<char> {
    match t {
        TypeTag::Bit => seq!['B', 'I', 'T'],
        TypeTag::TinyInt => seq!['T', 'I', 'N', 'Y', 'I', 'N', 'T'],
        TypeTag::SmallInt => seq!['S', 'M', 'A', 'L', 'L', 'I', 'N', 'T'],
        TypeTag::Int => seq!['I', 'N', 'T'],
        TypeTag::BigInt => seq!['B', 'I', 'G', 'I', 'N', 'T'],
        TypeTag::Real => seq!['R', 'E', 'A', 'L'],
        TypeTag::Float => seq!['F', 'L', 'O', 'A', 'T'],
        TypeTag::Date => seq!['D', 'A', 'T', 'E'],
        TypeTag::Time => seq!['T', 'I', 'M', 'E'],
        TypeTag::DateTime => seq!['D', 'A', 'T', 'E', 'T', 'I', 'M', 'E'],
        TypeTag::DateTime2 => seq!['D', 'A', 'T', 'E', 'T', 'I', 'M', 'E', '2'],
        TypeTag::UniqueIdentifier => seq![
            'U', 'N', 'I', 'Q', 'U', 'E', 'I', 'D', 'E', 'N', 'T', 'I', 'F', 'I', 'E', 'R',
        ],
        TypeTag::Char => seq!['C', 'H', 'A', 'R'],
        TypeTag::NVarCharMax => seq![
            'N', 'V', 'A', 'R', 'C', 'H', 'A', 'R', '(', 'M', 'A', 'X', ')',
        ],
    }
}

impl TypeTag {
    /// Position of this tag in the precedence order.
    pub fn precedence(&self) -> (r: usize)
        ensures
            r == rank(*self),
            r < TAG_COUNT,
    {
        match self {
            TypeTag::Bit => 0,
            TypeTag::TinyInt => 1,
            TypeTag::SmallInt => 2,
            TypeTag::Int => 3,
            TypeTag::BigInt => 4,
            TypeTag::Real => 5,
            TypeTag::Float => 6,
            TypeTag::Date => 7,
            TypeTag::Time => 8,
            TypeTag::DateTime => 9,
            TypeTag::DateTime2 => 10,
            TypeTag::UniqueIdentifier => 11,
            TypeTag::Char => 12,
            TypeTag::NVarCharMax => 13,
        }
    }

    /// The tag at position `i` of the precedence order.
    pub fn from_precedence(i: usize) -> (r: TypeTag)
        requires
            i < TAG_COUNT,
        ensures
            r == tag_at(i as int),
            rank(r) == i,
    {
        if i == 0 {
            TypeTag::Bit
        } else if i == 1 {
            TypeTag::TinyInt
        } else if i == 2 {
            TypeTag::SmallInt
        } else if i == 3 {
            TypeTag::Int
        } else if i == 4 {
            TypeTag::BigInt
        } else if i == 5 {
            TypeTag::Real
        } else if i == 6 {
            TypeTag::Float
        } else if i == 7 {
            TypeTag::Date
        } else if i == 8 {
            TypeTag::Time
        } else if i == 9 {
            TypeTag::DateTime
        } else if i == 10 {
            TypeTag::DateTime2
        } else if i == 11 {
            TypeTag::UniqueIdentifier
        } else if i == 12 {
            TypeTag::Char
        } else {
            TypeTag::NVarCharMax
        }
    }

    /// The SQL spelling of this tag, such as `NVARCHAR(MAX)`.
    pub fn name(&self) -> (r: String)
        ensures
            r@ == tag_name(*self),
    {
        let s: &str = match self {
            TypeTag::Bit => "BIT",
            TypeTag::TinyInt => "TINYINT",
            TypeTag::SmallInt => "SMALLINT",
            TypeTag::Int => "INT",
            TypeTag::BigInt => "BIGINT",
            TypeTag::Real => "REAL",
            TypeTag::Float => "FLOAT",
            TypeTag::Date => "DATE",
            TypeTag::Time => "TIME",
            TypeTag::DateTime => "DATETIME",
            TypeTag::DateTime2 => "DATETIME2",
            TypeTag::UniqueIdentifier => "UNIQUEIDENTIFIER",
            TypeTag::Char => "CHAR",
            TypeTag::NVarCharMax => "NVARCHAR(MAX)",
        };
        proof {
            reveal_strlit("BIT");
            reveal_strlit("TINYINT");
            reveal_strlit("SMALLINT");
            reveal_strlit("INT");
            reveal_strlit("BIGINT");
            reveal_strlit("REAL");
            reveal_strlit("FLOAT");
            reveal_strlit("DATE");
            reveal_strlit("TIME");
            reveal_strlit("DATETIME");
            reveal_strlit("DATETIME2");
            reveal_strlit("UNIQUEIDENTIFIER");
            reveal_strlit("CHAR");
            reveal_strlit("NVARCHAR(MAX)");
        }
        let r = s.to_owned();
        assert(r@ =~= tag_name(*self));
        r
    }
}

/// How a column's set of observed tags is reduced to one tag.
#[derive(Clone, Copy, Debug, PartialEq, Eq, Structural)]
pub enum Policy {
    /// The narrowest observed tag in precedence order; `NVARCHAR(MAX)` when
    /// nothing was observed.
    NarrowestFirst,
    /// `NVARCHAR(MAX)` as soon as two different tags were observed; otherwise
    /// the single observed tag, or `NVARCHAR(MAX)` when nothing was observed.
    StrictMismatch,
}

} // verus!
