//! The vocabulary of control and redirection operators.

use vstd::prelude::*;
use vstd::string::*;

verus! {

/// The operators that end a command or join two of them.
#[derive(Clone, Copy, Debug, PartialEq, Eq, Structural)]
pub enum ControlOperator {
    /// `||`
    Or,
    /// `&&`
    And,
    /// `&`
    BgAnd,
    /// `;`
    Semicolon,
    /// `;;`
    DoubleSemicolon,
    /// `;&`
    SemiAnd,
    /// `;;&`
    SemiSemiAnd,
    /// `|`
    Pipe,
    /// `|&`
    PipeAnd,
    /// a line break
    NewLine,
    /// `(`
    LeftParen,
    /// `)`
    RightParen,
    /// no operator at all
    NoChar,
}

/// How a control operator is written.
pub open spec fn control_text(op: ControlOperator) -> Seq<char> {
    match op {
        ControlOperator::Or => "||"@,
        ControlOperator::And => "&&"@,
        ControlOperator::BgAnd => "&"@,
        ControlOperator::Semicolon => ";"@,
        ControlOperator::DoubleSemicolon => ";;"@,
        ControlOperator::SemiAnd => ";&"@,
        ControlOperator::SemiSemiAnd => ";;&"@,
        ControlOperator::Pipe => "|"@,
        ControlOperator::PipeAnd => "|&"@,
        ControlOperator::NewLine => "\n"@,
        ControlOperator::LeftParen => "("@,
        ControlOperator::RightParen => ")"@,
        ControlOperator::NoChar => ""@,
    }
}

impl ControlOperator {
    /// The operator as it is written; the empty string for `NoChar`.
    pub fn text(&self) -> (t: String)
        ensures
            t@ == control_text(*self),
    {
        match self {
            ControlOperator::Or => String::from_str("||"),
            ControlOperator::And => String::from_str("&&"),
            ControlOperator::BgAnd => String::from_str("&"),
            ControlOperator::Semicolon => String::from_str(";"),
            ControlOperator::DoubleSemicolon => String::from_str(";;"),
            ControlOperator::SemiAnd => String::from_str(";&"),
            ControlOperator::SemiSemiAnd => String::from_str(";;&"),
            ControlOperator::Pipe => String::from_str("|"),
            ControlOperator::PipeAnd => String::from_str("|&"),
            ControlOperator::NewLine => String::from_str("\n"),
            ControlOperator::LeftParen => String::from_str("("),
            ControlOperator::RightParen => String::from_str(")"),
            ControlOperator::NoChar => String::from_str(""),
        }
    }
}

/// The operators that open a redirection.
#[derive(Clone, Copy, Debug, PartialEq, Eq, Structural)]
pub enum RedirectOp {
    /// `>`
    Output,
    /// `<`
    Input,
    /// `<>`
    InOut,
    /// `&>`
    AndOutput,
    /// `>&`
    OutputAnd,
    /// `>>`
    Append,
    /// `<<`
    HereDoc,
    /// `&>>`
    AndAppend,
    /// `<<<`
    HereStr,
    /// no redirection at all
    NoRedirect,
}

} // verus!
