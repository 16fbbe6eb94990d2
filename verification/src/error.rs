//! The ways in which locating symbols and files can fail.

use vstd::prelude::*;
use vstd::std_specs::cmp::PartialEqSpecImpl;

verus! {

/// `std::io::Error`, which is carried along and not looked into.
#[verifier::external_type_specification]
#[verifier::external_body]
pub struct ExIoError(std::io::Error);

/// Why the symbols of a module could not be had.
///
/// Symbols may come from several sources, and a source that reports
/// `NotFound` leaves the question to the next one. A `LoadError` or a
/// `ParseError` ends the search: a file that one source could not read or
/// make sense of is taken to be no better elsewhere.
#[derive(Debug)]
pub enum SymbolError {
    /// The symbol file could not be found. Another source may still have it.
    NotFound,
    /// The module lacks the debug file's name or the debug identifier, so no
    /// path could be formed at which to look.
    MissingDebugFileOrId,
    /// The symbol file was found and could not be read.
    LoadError(std::io::Error),
    /// The symbol file was read and is too corrupt to be of any use. Holds
    /// what was wrong and the number of the line, counted from one.
    ParseError(&'static str, u64),
}

impl SymbolError {
    /// Whether a search through several sources goes on after this error.
    pub open spec fn lets_search_continue(&self) -> bool {
        self is NotFound || self is MissingDebugFileOrId
    }

    /// Whether a search through several sources goes on after this error:
    /// it does where the source had nothing to offer, and stops where it had
    /// a file that could not be read or parsed.
    pub fn continues_search(&self) -> (r: bool)
        ensures
            r == self.lets_search_continue(),
    {
        match self {
            SymbolError::NotFound => true,
            SymbolError::MissingDebugFileOrId => true,
            SymbolError::LoadError(_) => false,
            SymbolError::ParseError(_, _) => false,
        }
    }
}

impl PartialEq for SymbolError {
    /// Errors are compared by their kind alone, and of the kinds only
    /// `NotFound`, `LoadError` and `ParseError` are equal to themselves.
    fn eq(&self, other: &SymbolError) -> (r: bool) {
        match (self, other) {
            (SymbolError::NotFound, SymbolError::NotFound) => true,
            (SymbolError::LoadError(_), SymbolError::LoadError(_)) => true,
            (SymbolError::ParseError(_, _), SymbolError::ParseError(_, _)) => true,
            _ => false,
        }
    }
}

impl PartialEqSpecImpl for SymbolError {
    open spec fn obeys_eq_spec() -> bool {
        true
    }

    open spec fn eq_spec(&self, other: &SymbolError) -> bool {
        (self is NotFound && other is NotFound) || (self is LoadError && other is LoadError) || (
        self is ParseError && other is ParseError)
    }
}

/// Why a file of a module could not be had.
#[derive(Clone, Copy, Debug, PartialEq, Eq, Structural)]
pub enum FileError {
    /// The file could not be found.
    NotFound,
}

/// Symbols were asked for an address and none was found for it.
#[derive(Clone, Copy, Debug, PartialEq, Eq, Structural)]
pub struct FillSymbolError {}

/// The character for a digit below ten.
pub open spec fn digit_char(d: nat) -> char {
    (0x30 + d) as u8 as char
}

/// A number in decimal digits.
pub open spec fn decimal(n: nat) -> Seq<char>
    decreases n,
{
    if n < 10 {
        seq![digit_char(n)]
    } else {
        decimal(n / 10).push(digit_char(n % 10))
    }
}

/// The character for a digit below ten.
fn digit(d: u64) -> (c: char)
    requires
        d < 10,
    ensures
        c == digit_char(d as nat),
{
    (0x30u8 + d as u8) as char
}

/// A number in decimal digits.
pub fn decimal_text(n: u64) -> (s: String)
    ensures
        s@ == decimal(n as nat),
{
    let mut low: Vec<char> = Vec::new();
    let mut rest = n;
    while rest >= 10
        invariant
            decimal(n as nat) == decimal(rest as nat) + low@.reverse(),
        decreases rest,
    {
        let c = digit(rest % 10);
        proof {
            assert(decimal((rest / 10) as nat).push(c) + low@.reverse() =~= decimal(
                (rest / 10) as nat,
            ) + (seq![c] + low@.reverse()));
        }
        low.push(c);
        rest = rest / 10;
    }
    let mut s = String::new();
    s.push(digit(rest));
    let mut i = low.len();
    while i > 0
        invariant
            i <= low.len(),
            s@ == decimal(rest as nat) + low@.reverse().take(low.len() - i),
        decreases i,
    {
        let c = low[i - 1];
        proof {
            let done = low.len() - i;
            assert((decimal(rest as nat) + low@.reverse().take(done)).push(c) =~= decimal(
                rest as nat,
            ) + low@.reverse().take(done + 1));
        }
        s.push(c);
        i = i - 1;
    }
    s
}

impl SymbolError {
    /// The words that tell of the error.
    pub open spec fn message_text(&self) -> Seq<char> {
        match self {
            SymbolError::NotFound => "symbol file not found"@,
            SymbolError::MissingDebugFileOrId => "the debug file or id were missing"@,
            SymbolError::LoadError(_) => "couldn't read input stream"@,
            SymbolError::ParseError(tag, line) => "parse error: "@ + tag@ + " at line "@ + decimal(
                *line as nat,
            ),
        }
    }

    /// The words that tell of the error.
    pub fn message(&self) -> (s: String)
        ensures
            s@ == self.message_text(),
    {
        match self {
            SymbolError::NotFound => "symbol file not found".to_owned(),
            SymbolError::MissingDebugFileOrId => "the debug file or id were missing".to_owned(),
            SymbolError::LoadError(_) => "couldn't read input stream".to_owned(),
            SymbolError::ParseError(tag, line) => {
                let mut s = "parse error: ".to_owned();
                s.append(tag);
                s.append(" at line ");
                s.append(decimal_text(*line).as_str());
                s
            },
        }
    }
}

impl FileError {
    /// The words that tell of the error.
    pub fn message(&self) -> (s: String)
        ensures
            s@ == "file not found"@,
    {
        "file not found".to_owned()
    }
}

} // verus!
