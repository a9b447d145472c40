//! The ways in which reading a schedule page can fail.

use vstd::prelude::*;
use vstd::string::StringExecFns;

verus! {

/// Why a page, or a word of it, could not be read.
#[derive(Debug, Clone, PartialEq, Eq)]
pub enum ParsingError {
    /// A word that names no month; holds a short form of the word.
    MonthName(String),
    /// A word that names no day of the week; holds a short form of the word.
    DIAWName(String),
    /// The marker `expr` was not found while looking for `item`.
    HTMLParsing { item: &'static str, expr: &'static str },
    /// `item` was needed and had not been established.
    Generic { item: &'static str },
}

/// A `ParsingError` with its texts as sequences of characters.
pub enum ParsingErrorView {
    MonthName(Seq<char>),
    DIAWName(Seq<char>),
    HTMLParsing { item: Seq<char>, expr: Seq<char> },
    Generic { item: Seq<char> },
}

impl View for ParsingError {
    type V = ParsingErrorView;

    open spec fn view(&self) -> ParsingErrorView {
        match self {
            ParsingError::MonthName(s) => ParsingErrorView::MonthName(s@),
            ParsingError::DIAWName(s) => ParsingErrorView::DIAWName(s@),
            ParsingError::HTMLParsing { item, expr } => ParsingErrorView::HTMLParsing {
                item: item@,
                expr: expr@,
            },
            ParsingError::Generic { item } => ParsingErrorView::Generic { item: item@ },
        }
    }
}

impl ParsingErrorView {
    /// The sentence that reports this error.
    pub open spec fn message(self) -> Seq<char> {
        match self {
            ParsingErrorView::MonthName(s) => "Month parsing failed! Found string: '"@ + s + "'"@,
            ParsingErrorView::DIAWName(s) => "Day of the week parsing failed! Found string: '"@
                + s + "'"@,
            ParsingErrorView::HTMLParsing { item, expr } => "Failed to parse "@ + item
                + ". Dind't find '"@ + expr + "'."@,
            ParsingErrorView::Generic { item } => "Failed to parse "@ + item + "."@,
        }
    }
}

impl ParsingError {
    /// The sentence that reports this error.
    pub fn message(&self) -> (r: String)
        ensures
            r@ == self@.message(),
    {
        match self {
            ParsingError::MonthName(s) => {
                let mut r = String::from_str("Month parsing failed! Found string: '");
                r.append(s.as_str());
                r.append("'");
                r
            },
            ParsingError::DIAWName(s) => {
                let mut r = String::from_str("Day of the week parsing failed! Found string: '");
                r.append(s.as_str());
                r.append("'");
                r
            },
            ParsingError::HTMLParsing { item, expr } => {
                let mut r = String::from_str("Failed to parse ");
                r.append(item);
                r.append(". Dind't find '");
                r.append(expr);
                r.append("'.");
                r
            },
            ParsingError::Generic { item } => {
                let mut r = String::from_str("Failed to parse ");
                r.append(item);
                r.append(".");
                r
            },
        }
    }
}

} // verus!
