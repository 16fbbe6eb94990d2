//! Identifiers of object files: the debug identifier of a debug information
//! file and the code identifier of a binary, with their textual forms.

use vstd::prelude::*;

verus! {

/// The hexadecimal digit for `d`, a value below sixteen.
pub open spec fn hex_digit(d: nat, upper: bool) -> char {
    if d < 10 {
        (('0' as u8) + d) as u8 as char
    } else if upper {
        (('A' as u8) + d - 10) as u8 as char
    } else {
        (('a' as u8) + d - 10) as u8 as char
    }
}

/// The last `width` hexadecimal digits of `n`, most significant first.
pub open spec fn hex_fixed(n: nat, width: nat, upper: bool) -> Seq<char>
    decreases width,
{
    if width == 0 {
        Seq::empty()
    } else {
        hex_fixed(n / 16, (width - 1) as nat, upper).push(hex_digit(n % 16, upper))
    }
}

/// The hexadecimal digits of `n` without leading zeros; one zero for zero.
pub open spec fn hex_min(n: nat, upper: bool) -> Seq<char>
    decreases n,
{
    if n < 16 {
        seq![hex_digit(n, upper)]
    } else {
        hex_min(n / 16, upper).push(hex_digit(n % 16, upper))
    }
}

/// The thirty-two lower-case digits of a UUID in five groups, with a hyphen
/// between one group and the next.
pub open spec fn hyphenated(uuid: nat) -> Seq<char> {
    hex_fixed(uuid / 0x1_0000_0000_0000_0000_0000_0000, 8, false) + seq!['-'] + hex_fixed(
        uuid / 0x1_0000_0000_0000_0000_0000,
        4,
        false,
    ) + seq!['-'] + hex_fixed(uuid / 0x1_0000_0000_0000_0000, 4, false) + seq!['-'] + hex_fixed(
        uuid / 0x1_0000_0000_0000,
        4,
        false,
    ) + seq!['-'] + hex_fixed(uuid, 12, false)
}

/// What follows the identifier proper in its plain textual form: nothing for
/// an appendix of zero, else a hyphen and the appendix in lower-case digits.
pub open spec fn appendix_suffix(appendix: u32) -> Seq<char> {
    if appendix > 0 {
        seq!['-'] + hex_min(appendix as nat, false)
    } else {
        Seq::empty()
    }
}

/// Identifies a debug information file.
#[derive(Clone, Copy, Debug, PartialEq, Eq, Structural, Hash)]
pub enum DebugId {
    /// A UUID, here as the number whose big-endian bytes are the UUID's, and
    /// an appendix (on Windows the age of the build).
    Uuid { uuid: u128, appendix: u32 },
    /// The identifier of the PDB 2.0 format: a timestamp and an age.
    Pdb20 { timestamp: u32, appendix: u32 },
}

impl DebugId {
    /// The Breakpad form: the digits of the identifier in upper case, then
    /// those of the appendix in lower case, nothing between them.
    pub open spec fn breakpad_text(self) -> Seq<char> {
        match self {
            DebugId::Uuid { uuid, appendix } => hex_fixed(uuid as nat, 32, true) + hex_min(
                appendix as nat,
                false,
            ),
            DebugId::Pdb20 { timestamp, appendix } => hex_fixed(timestamp as nat, 8, true)
                + hex_min(appendix as nat, false),
        }
    }

    /// The plain form: a hyphenated lower-case UUID, or the eight upper-case
    /// digits of a PDB 2.0 timestamp, then the appendix where it is not zero.
    pub open spec fn text(self) -> Seq<char> {
        match self {
            DebugId::Uuid { uuid, appendix } => hyphenated(uuid as nat) + appendix_suffix(
                appendix,
            ),
            DebugId::Pdb20 { timestamp, appendix } => hex_fixed(timestamp as nat, 8, true)
                + appendix_suffix(appendix),
        }
    }

    /// The identifier as Breakpad writes it in symbol files and paths.
    pub fn breakpad(&self) -> (s: String)
        ensures
            s@ == self.breakpad_text(),
    {
        breakpad_string(self)
    }

    /// The identifier in its plain textual form.
    pub fn to_text(&self) -> (s: String)
        ensures
            s@ == self.text(),
    {
        debug_id_string(self)
    }
}

/// `debugid::DebugId::breakpad`, formatted: for a UUID its thirty-two digits
/// in upper case, for a PDB 2.0 identifier the eight digits of its timestamp
/// in upper case, each followed by the appendix in lower case without padding.
#[verifier::external_body]
fn breakpad_string(id: &DebugId) -> (s: String)
    ensures
        s@ == id.breakpad_text(),
{
    let outside = match *id {
        DebugId::Uuid { uuid, appendix } => debugid::DebugId::from_parts(
            uuid::Uuid::from_u128(uuid),
            appendix,
        ),
        DebugId::Pdb20 { timestamp, appendix } => debugid::DebugId::from_pdb20(timestamp, appendix),
    };
    outside.breakpad().to_string()
}

/// `debugid::DebugId`'s `Display`: the hyphenated lower-case UUID, or the
/// eight upper-case digits of a PDB 2.0 timestamp; then, for an appendix
/// other than zero, a hyphen and the appendix in lower case.
#[verifier::external_body]
fn debug_id_string(id: &DebugId) -> (s: String)
    ensures
        s@ == id.text(),
{
    let outside = match *id {
        DebugId::Uuid { uuid, appendix } => debugid::DebugId::from_parts(
            uuid::Uuid::from_u128(uuid),
            appendix,
        ),
        DebugId::Pdb20 { timestamp, appendix } => debugid::DebugId::from_pdb20(timestamp, appendix),
    };
    outside.to_string()
}

/// Whether `c` is one of the digits `0` to `9`, `a` to `f` or `A` to `F`.
pub open spec fn is_hex_char(c: char) -> bool {
    ('0' <= c && c <= '9') || ('a' <= c && c <= 'f') || ('A' <= c && c <= 'F')
}

/// The lower-case form of an ASCII letter; any other character unchanged.
pub open spec fn ascii_lower(c: char) -> char {
    if 'A' <= c && c <= 'Z' {
        ((c as u8) + 32) as u8 as char
    } else {
        c
    }
}

/// The canonical form of a code identifier: its hexadecimal digits alone,
/// in lower case.
pub open spec fn canonical_code_id(s: Seq<char>) -> Seq<char> {
    s.filter(|c: char| is_hex_char(c)).map_values(|c: char| ascii_lower(c))
}

/// Identifies a binary. The form depends on the platform; only the
/// hexadecimal digits are kept, in lower case.
#[derive(Debug)]
pub struct CodeId {
    inner: String,
}

impl View for CodeId {
    type V = Seq<char>;

    closed spec fn view(&self) -> Seq<char> {
        self.inner@
    }
}

impl Clone for CodeId {
    fn clone(&self) -> (r: Self)
        ensures
            r@ == self@,
    {
        CodeId { inner: self.inner.clone() }
    }
}

impl CodeId {
    /// A code identifier from its textual form.
    pub fn new(string: String) -> (id: CodeId)
        ensures
            id@ == canonical_code_id(string@),
    {
        CodeId { inner: canonical_code_id_string(string) }
    }

    /// The textual form.
    pub fn as_str(&self) -> (s: &str)
        ensures
            s@ == self@,
    {
        self.inner.as_str()
    }

    /// The textual form, owned.
    pub fn to_text(&self) -> (s: String)
        ensures
            s@ == self@,
    {
        self.inner.clone()
    }
}

/// `debugid::CodeId::new`, read back with `as_str`: the characters of the
/// argument that are hexadecimal digits, in their order, in lower case.
#[verifier::external_body]
fn canonical_code_id_string(string: String) -> (s: String)
    ensures
        s@ == canonical_code_id(string@),
{
    debugid::CodeId::new(string).as_str().to_owned()
}

} // verus!
