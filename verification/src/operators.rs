//! The operators that the discrete holes of the sketch choose between.
//!
//! A discrete hole holds a category index. The guard's hole picks one of three
//! comparisons, each branch's hole one of four arithmetic operators. An index
//! past the named ones falls to the last operator of its family.

use vstd::prelude::*;

verus! {

/// How an input stands to the guard's threshold.
#[derive(Clone, Copy, Debug, PartialEq, Eq, Structural)]
pub enum Side {
    /// The input is smaller than the threshold.
    Below,
    /// The input equals the threshold.
    Level,
    /// The input is larger than the threshold.
    Above,
    /// The two cannot be ordered (one of them is not a number).
    Unordered,
}

/// Comparison in the guard of the sketch.
#[derive(Clone, Copy, Debug, PartialEq, Eq, Structural)]
pub enum CompareOp {
    Greater,
    Less,
    Equal,
}

/// Arithmetic operator in a branch of the sketch.
#[derive(Clone, Copy, Debug, PartialEq, Eq, Structural)]
pub enum ArithOp {
    Add,
    Sub,
    Mul,
    Div,
}

impl CompareOp {
    /// The comparison a category index stands for: 0 is `>`, 1 is `<`, every
    /// other index is `==`.
    pub open spec fn of_index(index: int) -> CompareOp {
        if index == 0 {
            CompareOp::Greater
        } else if index == 1 {
            CompareOp::Less
        } else {
            CompareOp::Equal
        }
    }

    /// Whether `input op threshold` is true for an input on the given side of
    /// the threshold. Nothing holds of an unordered pair.
    pub open spec fn accepts(self, side: Side) -> bool {
        match self {
            CompareOp::Greater => side == Side::Above,
            CompareOp::Less => side == Side::Below,
            CompareOp::Equal => side == Side::Level,
        }
    }

    /// The operator as it is written in a program.
    pub open spec fn text(self) -> Seq<char> {
        match self {
            CompareOp::Greater => seq!['>'],
            CompareOp::Less => seq!['<'],
            CompareOp::Equal => seq!['=', '='],
        }
    }

    /// Decodes the category index drawn for the guard's hole.
    pub fn from_index(index: usize) -> (op: CompareOp)
        ensures
            op == Self::of_index(index as int),
    {
        if index == 0 {
            CompareOp::Greater
        } else if index == 1 {
            CompareOp::Less
        } else {
            CompareOp::Equal
        }
    }

    /// Decides the guard for an input that stands on `side` of the threshold.
    pub fn holds(self, side: Side) -> (taken: bool)
        ensures
            taken == self.accepts(side),
    {
        match self {
            CompareOp::Greater => side == Side::Above,
            CompareOp::Less => side == Side::Below,
            CompareOp::Equal => side == Side::Level,
        }
    }

    /// The operator's spelling.
    pub fn symbol(self) -> (s: &'static str)
        ensures
            s@ == self.text(),
    {
        proof {
            reveal_strlit(">");
            reveal_strlit("<");
            reveal_strlit("==");
        }
        match self {
            CompareOp::Greater => {
                assert(">"@ =~= seq!['>']);
                ">"
            },
            CompareOp::Less => {
                assert("<"@ =~= seq!['<']);
                "<"
            },
            CompareOp::Equal => {
                assert("=="@ =~= seq!['=', '=']);
                "=="
            },
        }
    }
}

impl ArithOp {
    /// The operator a category index stands for: 0 is `+`, 1 is `-`, 2 is
    /// `*`, every other index is `/`.
    pub open spec fn of_index(index: int) -> ArithOp {
        if index == 0 {
            ArithOp::Add
        } else if index == 1 {
            ArithOp::Sub
        } else if index == 2 {
            ArithOp::Mul
        } else {
            ArithOp::Div
        }
    }

    /// The operator as it is written in a program.
    pub open spec fn text(self) -> Seq<char> {
        match self {
            ArithOp::Add => seq!['+'],
            ArithOp::Sub => seq!['-'],
            ArithOp::Mul => seq!['*'],
            ArithOp::Div => seq!['/'],
        }
    }

    /// Decodes the category index drawn for a branch's operator hole.
    pub fn from_index(index: usize) -> (op: ArithOp)
        ensures
            op == Self::of_index(index as int),
    {
        if index == 0 {
            ArithOp::Add
        } else if index == 1 {
            ArithOp::Sub
        } else if index == 2 {
            ArithOp::Mul
        } else {
            ArithOp::Div
        }
    }

    /// The operator's spelling.
    pub fn symbol(self) -> (s: &'static str)
        ensures
            s@ == self.text(),
    {
        proof {
            reveal_strlit("+");
            reveal_strlit("-");
            reveal_strlit("*");
            reveal_strlit("/");
        }
        match self {
            ArithOp::Add => {
                assert("+"@ =~= seq!['+']);
                "+"
            },
            ArithOp::Sub => {
                assert("-"@ =~= seq!['-']);
                "-"
            },
            ArithOp::Mul => {
                assert("*"@ =~= seq!['*']);
                "*"
            },
            ArithOp::Div => {
                assert("/"@ =~= seq!['/']);
                "/"
            },
        }
    }
}

} // verus!
