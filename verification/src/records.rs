//! The records of a Breakpad symbol file, and how each is read from its
//! line.
//!
//! A line holds fields with spaces between them. The first field names the
//! kind of record, except on the lines of a function's line table, which
//! begin with an address. The last field of most records is a text that may
//! itself hold spaces and runs to the end of the line. Numbers are
//! hexadecimal; only the numbers of lines and of files are decimal. Texts
//! are UTF-8 and not empty.

use crate::scan::{
    bytes_between, dec_u32, field, find_byte, hex_u32, hex_u64, next_field, number, parse_number,
    parse_text, rest, skip_byte, text_value, text_view, Radix, SPACE,
};
use crate::table::{insert_record, sorted, views, with_record, Addressed, Starts};
use vstd::array::array_as_slice;
use vstd::prelude::*;
use vstd::slice::slice_to_vec;

verus! {

/// `MODULE`
pub open spec fn word_module() -> Seq<u8> {
    seq![0x4du8, 0x4f, 0x44, 0x55, 0x4c, 0x45]
}

/// `FILE`
pub open spec fn word_file() -> Seq<u8> {
    seq![0x46u8, 0x49, 0x4c, 0x45]
}

/// `FUNC`
pub open spec fn word_func() -> Seq<u8> {
    seq![0x46u8, 0x55, 0x4e, 0x43]
}

/// `PUBLIC`
pub open spec fn word_public() -> Seq<u8> {
    seq![0x50u8, 0x55, 0x42, 0x4c, 0x49, 0x43]
}

/// `STACK`
pub open spec fn word_stack() -> Seq<u8> {
    seq![0x53u8, 0x54, 0x41, 0x43, 0x4b]
}

/// `CFI`
pub open spec fn word_cfi() -> Seq<u8> {
    seq![0x43u8, 0x46, 0x49]
}

/// `INIT`
pub open spec fn word_init() -> Seq<u8> {
    seq![0x49u8, 0x4e, 0x49, 0x54]
}

/// `WIN`
pub open spec fn word_win() -> Seq<u8> {
    seq![0x57u8, 0x49, 0x4e]
}

/// The kinds of line in a symbol file.
#[derive(Clone, Copy, Debug, PartialEq, Eq, Structural)]
pub enum LineKind {
    /// `MODULE <os> <cpu> <debug id> <debug file>`
    Module,
    /// `FILE <number> <path>`
    File,
    /// `FUNC <address> <size> <parameter size> <name>`
    Function,
    /// `<address> <size> <line> <file number>`, under a `FUNC` record
    SourceLine,
    /// `PUBLIC <address> <parameter size> <name>`
    Public,
    /// `STACK CFI INIT <address> <size> <rules>`
    CfiInit,
    /// `STACK CFI <address> <rules>`, under a `STACK CFI INIT` record
    CfiDelta,
    /// `STACK WIN <type> <address> <size> ...`
    Win,
    /// Any other line; such lines are passed over.
    Other,
}

/// The kind of a line, by the fields it begins with.
pub open spec fn kind_of(line: Seq<u8>) -> LineKind {
    let first = field(line, 0);
    let second = field(line, next_field(line, 0));
    let third = field(line, next_field(line, next_field(line, 0)));
    if first == word_module() {
        LineKind::Module
    } else if first == word_file() {
        LineKind::File
    } else if first == word_func() {
        LineKind::Function
    } else if first == word_public() {
        LineKind::Public
    } else if first == word_stack() {
        if second == word_cfi() {
            if third == word_init() {
                LineKind::CfiInit
            } else {
                LineKind::CfiDelta
            }
        } else if second == word_win() {
            LineKind::Win
        } else {
            LineKind::Other
        }
    } else if number(first, 16) is Some {
        LineKind::SourceLine
    } else {
        LineKind::Other
    }
}

/// The header of a symbol file: the module it describes.
#[derive(Debug, PartialEq, Eq)]
pub struct ModuleHeader {
    /// The operating system the module was built for.
    pub os: String,
    /// The processor architecture the module was built for.
    pub cpu: String,
    /// The debug identifier, in hexadecimal digits.
    pub debug_id: String,
    /// The name of the file that holds the module's debug information.
    pub debug_file: String,
}

/// A header, as a value.
pub ghost struct ModuleHeaderView {
    pub os: Seq<char>,
    pub cpu: Seq<char>,
    pub debug_id: Seq<char>,
    pub debug_file: Seq<char>,
}

impl View for ModuleHeader {
    type V = ModuleHeaderView;

    open spec fn view(&self) -> ModuleHeaderView {
        ModuleHeaderView {
            os: self.os@,
            cpu: self.cpu@,
            debug_id: self.debug_id@,
            debug_file: self.debug_file@,
        }
    }
}

/// A source file, under the number by which line records name it.
#[derive(Debug, PartialEq, Eq)]
pub struct SourceFile {
    /// The number of the file.
    pub number: u32,
    /// The path of the file.
    pub path: String,
}

/// A source file, as a value.
pub ghost struct SourceFileView {
    pub number: u32,
    pub path: Seq<char>,
}

impl View for SourceFile {
    type V = SourceFileView;

    open spec fn view(&self) -> SourceFileView {
        SourceFileView { number: self.number, path: self.path@ }
    }
}

/// A run of instructions that one line of a source file was compiled to.
#[derive(Clone, Copy, Debug, PartialEq, Eq, Structural)]
pub struct SourceLine {
    /// The address at which the run starts.
    pub address: u64,
    /// The size of the run in bytes.
    pub size: u64,
    /// The number of the source file.
    pub file: u32,
    /// The line in the source file, counted from one.
    pub line: u32,
}

impl Starts for SourceLine {
    open spec fn start(&self) -> u64 {
        self.address
    }
}

impl Addressed for SourceLine {
    type Record = SourceLine;

    open spec fn record(&self) -> SourceLine {
        *self
    }

    fn start_address(&self) -> (a: u64) {
        self.address
    }
}

/// A function, with its line table in the order of the addresses.
#[derive(Debug, PartialEq, Eq)]
pub struct Function {
    address: u64,
    size: u64,
    parameter_size: u32,
    name: String,
    lines: Vec<SourceLine>,
}

/// A function, as a value.
pub ghost struct FunctionView {
    pub address: u64,
    pub size: u64,
    pub parameter_size: u32,
    pub name: Seq<char>,
    pub lines: Seq<SourceLine>,
}

impl View for Function {
    type V = FunctionView;

    closed spec fn view(&self) -> FunctionView {
        FunctionView {
            address: self.address,
            size: self.size,
            parameter_size: self.parameter_size,
            name: self.name@,
            lines: self.lines@,
        }
    }
}

impl Function {
    #[verifier::type_invariant]
    spec fn lines_in_order(self) -> bool {
        sorted(self.lines@)
    }

    /// The function with `line` added to its line table, in its place.
    pub fn with_line(self, line: SourceLine) -> (r: Function)
        ensures
            r@ == (FunctionView { lines: with_record(self@.lines, line), ..self@ }),
            sorted(r@.lines),
    {
        proof {
            use_type_invariant(&self);
        }
        let Function { address, size, parameter_size, name, mut lines } = self;
        assert(views(lines@) =~= lines@);
        let _ = insert_record(&mut lines, line);
        Function { address, size, parameter_size, name, lines }
    }

    /// The address at which the function starts.
    pub fn address(&self) -> (r: u64)
        ensures
            r == self@.address,
    {
        self.address
    }

    /// The size of the function in bytes.
    pub fn size(&self) -> (r: u64)
        ensures
            r == self@.size,
    {
        self.size
    }

    /// The size of the function's parameters on the stack, in bytes.
    pub fn parameter_size(&self) -> (r: u32)
        ensures
            r == self@.parameter_size,
    {
        self.parameter_size
    }

    /// The name of the function.
    pub fn name(&self) -> (r: &str)
        ensures
            r@ == self@.name,
    {
        self.name.as_str()
    }

    /// The line table of the function, in the order of the addresses.
    pub fn lines(&self) -> (r: &Vec<SourceLine>)
        ensures
            r@ == self@.lines,
            sorted(r@),
    {
        proof {
            use_type_invariant(self);
        }
        &self.lines
    }
}

impl Starts for FunctionView {
    open spec fn start(&self) -> u64 {
        self.address
    }
}

impl Addressed for Function {
    type Record = FunctionView;

    open spec fn record(&self) -> FunctionView {
        self@
    }

    fn start_address(&self) -> (a: u64) {
        self.address
    }
}

/// A symbol that the module exports: an address with a name, and no size.
#[derive(Debug, PartialEq, Eq)]
pub struct PublicSymbol {
    /// The address of the symbol.
    pub address: u64,
    /// The size of the parameters on the stack, in bytes.
    pub parameter_size: u32,
    /// The name of the symbol.
    pub name: String,
}

/// A public symbol, as a value.
pub ghost struct PublicSymbolView {
    pub address: u64,
    pub parameter_size: u32,
    pub name: Seq<char>,
}

impl View for PublicSymbol {
    type V = PublicSymbolView;

    open spec fn view(&self) -> PublicSymbolView {
        PublicSymbolView {
            address: self.address,
            parameter_size: self.parameter_size,
            name: self.name@,
        }
    }
}

impl Starts for PublicSymbolView {
    open spec fn start(&self) -> u64 {
        self.address
    }
}

impl Addressed for PublicSymbol {
    type Record = PublicSymbolView;

    open spec fn record(&self) -> PublicSymbolView {
        self@
    }

    fn start_address(&self) -> (a: u64) {
        self.address
    }
}

/// Unwinding rules that hold from an address on: for each of some
/// registers of the caller, a program that computes it.
#[derive(Debug, PartialEq, Eq)]
pub struct CfiRules {
    /// The address from which the rules hold.
    pub address: u64,
    /// The rules as the symbol file writes them.
    pub rules: Vec<u8>,
}

/// Unwinding rules, as a value.
pub ghost struct CfiRulesView {
    pub address: u64,
    pub rules: Seq<u8>,
}

impl View for CfiRules {
    type V = CfiRulesView;

    open spec fn view(&self) -> CfiRulesView {
        CfiRulesView { address: self.address, rules: self.rules@ }
    }
}

impl Starts for CfiRulesView {
    open spec fn start(&self) -> u64 {
        self.address
    }
}

impl Addressed for CfiRules {
    type Record = CfiRulesView;

    open spec fn record(&self) -> CfiRulesView {
        self@
    }

    fn start_address(&self) -> (a: u64) {
        self.address
    }
}

/// The unwinding rules of a range of addresses: those that hold at its
/// start, and those that replace or add to them further on, in the order of
/// the addresses.
#[derive(Debug, PartialEq, Eq)]
pub struct StackInfoCfi {
    init: CfiRules,
    size: u64,
    add_rules: Vec<CfiRules>,
}

/// The unwinding rules of a range, as a value.
pub ghost struct StackInfoCfiView {
    pub init: CfiRulesView,
    pub size: u64,
    pub add_rules: Seq<CfiRulesView>,
}

impl View for StackInfoCfi {
    type V = StackInfoCfiView;

    closed spec fn view(&self) -> StackInfoCfiView {
        StackInfoCfiView {
            init: self.init@,
            size: self.size,
            add_rules: views(self.add_rules@),
        }
    }
}

impl StackInfoCfi {
    #[verifier::type_invariant]
    spec fn rules_in_order(self) -> bool {
        sorted(views(self.add_rules@))
    }

    /// The range with `rules` added to those that come into force inside
    /// it, in their place.
    pub fn with_rules(self, rules: CfiRules) -> (r: StackInfoCfi)
        ensures
            r@ == (StackInfoCfiView { add_rules: with_record(self@.add_rules, rules@), ..self@ }),
            sorted(r@.add_rules),
    {
        proof {
            use_type_invariant(&self);
        }
        let StackInfoCfi { init, size, mut add_rules } = self;
        let _ = insert_record(&mut add_rules, rules);
        StackInfoCfi { init, size, add_rules }
    }

    /// The rules at the start of the range.
    pub fn init(&self) -> (r: &CfiRules)
        ensures
            r@ == self@.init,
    {
        &self.init
    }

    /// The size of the range in bytes.
    pub fn size(&self) -> (r: u64)
        ensures
            r == self@.size,
    {
        self.size
    }

    /// The rules that come into force inside the range, in the order of
    /// their addresses.
    pub fn add_rules(&self) -> (r: &Vec<CfiRules>)
        ensures
            views(r@) == self@.add_rules,
            sorted(views(r@)),
    {
        proof {
            use_type_invariant(self);
        }
        &self.add_rules
    }
}

impl Starts for StackInfoCfiView {
    open spec fn start(&self) -> u64 {
        self.init.address
    }
}

impl Addressed for StackInfoCfi {
    type Record = StackInfoCfiView;

    open spec fn record(&self) -> StackInfoCfiView {
        self@
    }

    fn start_address(&self) -> (a: u64) {
        self.init.address
    }
}

/// The two forms of Windows unwinding data.
#[derive(Clone, Copy, Debug, PartialEq, Eq, Structural)]
pub enum WinFrameType {
    /// Frame pointer omission data, type `0`.
    Fpo,
    /// Frame data, type `4`.
    FrameData,
}

/// What ends a `STACK WIN` record.
#[derive(Debug, PartialEq, Eq)]
pub enum WinStackThing {
    /// A program that computes the caller's registers.
    ProgramString(Vec<u8>),
    /// Whether the function uses the base pointer as a general register.
    AllocatesBasePointer(bool),
}

/// What ends a `STACK WIN` record, as a value.
pub ghost enum WinStackThingView {
    ProgramString(Seq<u8>),
    AllocatesBasePointer(bool),
}

impl View for WinStackThing {
    type V = WinStackThingView;

    open spec fn view(&self) -> WinStackThingView {
        match self {
            WinStackThing::ProgramString(s) => WinStackThingView::ProgramString(s@),
            WinStackThing::AllocatesBasePointer(b) => WinStackThingView::AllocatesBasePointer(*b),
        }
    }
}

/// Windows unwinding data for a range of addresses.
#[derive(Debug, PartialEq, Eq)]
pub struct StackInfoWin {
    /// The form of the data.
    pub frame_type: WinFrameType,
    /// The address at which the range starts.
    pub address: u64,
    /// The size of the range in bytes.
    pub size: u64,
    /// The size of the function's prologue.
    pub prologue_size: u32,
    /// The size of the function's epilogue.
    pub epilogue_size: u32,
    /// The size of the function's parameters on the stack.
    pub parameter_size: u32,
    /// The size of the registers that the function saves on the stack.
    pub saved_register_size: u32,
    /// The size of the function's local variables.
    pub local_size: u32,
    /// The most that the function may push on the stack.
    pub max_stack_size: u32,
    /// A program, or whether the base pointer is a general register.
    pub program_string_or_base_pointer: WinStackThing,
}

/// Windows unwinding data, as a value.
pub ghost struct StackInfoWinView {
    pub frame_type: WinFrameType,
    pub address: u64,
    pub size: u64,
    pub prologue_size: u32,
    pub epilogue_size: u32,
    pub parameter_size: u32,
    pub saved_register_size: u32,
    pub local_size: u32,
    pub max_stack_size: u32,
    pub program_string_or_base_pointer: WinStackThingView,
}

impl View for StackInfoWin {
    type V = StackInfoWinView;

    open spec fn view(&self) -> StackInfoWinView {
        StackInfoWinView {
            frame_type: self.frame_type,
            address: self.address,
            size: self.size,
            prologue_size: self.prologue_size,
            epilogue_size: self.epilogue_size,
            parameter_size: self.parameter_size,
            saved_register_size: self.saved_register_size,
            local_size: self.local_size,
            max_stack_size: self.max_stack_size,
            program_string_or_base_pointer: self.program_string_or_base_pointer@,
        }
    }
}

impl Starts for StackInfoWinView {
    open spec fn start(&self) -> u64 {
        self.address
    }
}

impl Addressed for StackInfoWin {
    type Record = StackInfoWinView;

    open spec fn record(&self) -> StackInfoWinView {
        self@
    }

    fn start_address(&self) -> (a: u64) {
        self.address
    }
}

/// The view of a record that may be missing.
pub open spec fn record_view<T: View>(r: Option<T>) -> Option<T::V> {
    match r {
        Some(t) => Some(t@),
        None => None,
    }
}

/// What the `MODULE` line `line` says; none where it is malformed.
pub open spec fn module_record(line: Seq<u8>) -> Option<ModuleHeaderView> {
    let s1 = next_field(line, 0);
    let s2 = next_field(line, s1);
    let s3 = next_field(line, s2);
    let s4 = next_field(line, s3);
    match (
        text_value(field(line, s1)),
        text_value(field(line, s2)),
        text_value(field(line, s3)),
        text_value(rest(line, s4)),
    ) {
        (Some(os), Some(cpu), Some(debug_id), Some(debug_file)) => if number(field(line, s3), 16)
            is Some {
            Some(ModuleHeaderView { os, cpu, debug_id, debug_file })
        } else {
            None
        },
        _ => None,
    }
}

/// What the `FILE` line `line` says; none where it is malformed.
pub open spec fn file_record(line: Seq<u8>) -> Option<SourceFileView> {
    let s1 = next_field(line, 0);
    let s2 = next_field(line, s1);
    match (dec_u32(field(line, s1)), text_value(rest(line, s2))) {
        (Some(number), Some(path)) => Some(SourceFileView { number, path }),
        _ => None,
    }
}

/// What the `FUNC` line `line` says, the line table still empty; none
/// where it is malformed.
pub open spec fn function_record(line: Seq<u8>) -> Option<FunctionView> {
    let s1 = next_field(line, 0);
    let s2 = next_field(line, s1);
    let s3 = next_field(line, s2);
    let s4 = next_field(line, s3);
    match (
        hex_u64(field(line, s1)),
        hex_u64(field(line, s2)),
        hex_u32(field(line, s3)),
        text_value(rest(line, s4)),
    ) {
        (Some(address), Some(size), Some(parameter_size), Some(name)) => Some(
            FunctionView { address, size, parameter_size, name, lines: Seq::empty() },
        ),
        _ => None,
    }
}

/// What the line `line` of a line table says; none where it is malformed,
/// or holds more than its four fields.
pub open spec fn source_line_record(line: Seq<u8>) -> Option<SourceLine> {
    let s1 = next_field(line, 0);
    let s2 = next_field(line, s1);
    let s3 = next_field(line, s2);
    let s4 = next_field(line, s3);
    match (
        hex_u64(field(line, 0)),
        hex_u64(field(line, s1)),
        dec_u32(field(line, s2)),
        dec_u32(field(line, s3)),
    ) {
        (Some(address), Some(size), Some(number), Some(file)) => if s4 == line.len() {
            Some(SourceLine { address, size, file, line: number })
        } else {
            None
        },
        _ => None,
    }
}

/// What the `PUBLIC` line `line` says; none where it is malformed.
pub open spec fn public_record(line: Seq<u8>) -> Option<PublicSymbolView> {
    let s1 = next_field(line, 0);
    let s2 = next_field(line, s1);
    let s3 = next_field(line, s2);
    match (hex_u64(field(line, s1)), hex_u32(field(line, s2)), text_value(rest(line, s3))) {
        (Some(address), Some(parameter_size), Some(name)) => Some(
            PublicSymbolView { address, parameter_size, name },
        ),
        _ => None,
    }
}

/// The program that `bytes` hold: the bytes themselves, unless they are
/// none.
pub open spec fn program_value(bytes: Seq<u8>) -> Option<Seq<u8>> {
    if bytes.len() > 0 {
        Some(bytes)
    } else {
        None
    }
}

/// What the `STACK CFI INIT` line `line` says, with no further rules yet;
/// none where it is malformed.
pub open spec fn cfi_init_record(line: Seq<u8>) -> Option<StackInfoCfiView> {
    let s3 = next_field(line, next_field(line, next_field(line, 0)));
    let s4 = next_field(line, s3);
    let s5 = next_field(line, s4);
    match (hex_u64(field(line, s3)), hex_u64(field(line, s4)), program_value(rest(line, s5))) {
        (Some(address), Some(size), Some(rules)) => Some(
            StackInfoCfiView {
                init: CfiRulesView { address, rules },
                size,
                add_rules: Seq::empty(),
            },
        ),
        _ => None,
    }
}

/// What the `STACK CFI` line `line` says; none where it is malformed.
pub open spec fn cfi_delta_record(line: Seq<u8>) -> Option<CfiRulesView> {
    let s2 = next_field(line, next_field(line, 0));
    let s3 = next_field(line, s2);
    match (hex_u64(field(line, s2)), program_value(rest(line, s3))) {
        (Some(address), Some(rules)) => Some(CfiRulesView { address, rules }),
        _ => None,
    }
}

/// The form of Windows unwinding data that a type number stands for.
pub open spec fn win_frame_type(number: u32) -> Option<WinFrameType> {
    if number == 0 {
        Some(WinFrameType::Fpo)
    } else if number == 4 {
        Some(WinFrameType::FrameData)
    } else {
        None
    }
}

/// What ends a `STACK WIN` record: a program where the field before it is
/// one, and where that is zero a number that says whether the base pointer
/// is a general register.
pub open spec fn win_stack_thing(line: Seq<u8>, has_program: u32, at: int) -> Option<
    WinStackThingView,
> {
    if has_program == 1 {
        match program_value(rest(line, at)) {
            Some(program) => Some(WinStackThingView::ProgramString(program)),
            None => None,
        }
    } else if has_program == 0 {
        match hex_u32(field(line, at)) {
            Some(allocates) => Some(WinStackThingView::AllocatesBasePointer(allocates != 0)),
            None => None,
        }
    } else {
        None
    }
}

/// What the `STACK WIN` line `line` says; none where it is malformed or of
/// a type other than `0` and `4`.
pub open spec fn win_record(line: Seq<u8>) -> Option<StackInfoWinView> {
    let s2 = next_field(line, next_field(line, 0));
    let s3 = next_field(line, s2);
    let s4 = next_field(line, s3);
    let s5 = next_field(line, s4);
    let s6 = next_field(line, s5);
    let s7 = next_field(line, s6);
    let s8 = next_field(line, s7);
    let s9 = next_field(line, s8);
    let s10 = next_field(line, s9);
    let s11 = next_field(line, s10);
    let s12 = next_field(line, s11);
    match (
        hex_u32(field(line, s2)),
        hex_u64(field(line, s3)),
        hex_u64(field(line, s4)),
        hex_u32(field(line, s5)),
        hex_u32(field(line, s6)),
        hex_u32(field(line, s7)),
        hex_u32(field(line, s8)),
        hex_u32(field(line, s9)),
        hex_u32(field(line, s10)),
        hex_u32(field(line, s11)),
    ) {
        (
            Some(type_number),
            Some(address),
            Some(size),
            Some(prologue_size),
            Some(epilogue_size),
            Some(parameter_size),
            Some(saved_register_size),
            Some(local_size),
            Some(max_stack_size),
            Some(has_program),
        ) => match (win_frame_type(type_number), win_stack_thing(line, has_program, s12)) {
            (Some(frame_type), Some(program_string_or_base_pointer)) => Some(
                StackInfoWinView {
                    frame_type,
                    address,
                    size,
                    prologue_size,
                    epilogue_size,
                    parameter_size,
                    saved_register_size,
                    local_size,
                    max_stack_size,
                    program_string_or_base_pointer,
                },
            ),
            _ => None,
        },
        _ => None,
    }
}

/// Whether two runs of bytes hold the same bytes.
pub fn same_bytes(a: &[u8], b: &[u8]) -> (r: bool)
    ensures
        r == (a@ == b@),
{
    if a.len() != b.len() {
        return false;
    }
    let mut i: usize = 0;
    while i < a.len()
        invariant
            i <= a.len(),
            a.len() == b.len(),
            forall|j: int| 0 <= j < i ==> a@[j] == b@[j],
        decreases a.len() - i,
    {
        if a[i] != b[i] {
            return false;
        }
        i = i + 1;
    }
    assert(a@ =~= b@);
    true
}

/// Whether `digits` is a run of hexadecimal digits, and not empty.
pub fn is_hex_run(digits: &[u8]) -> (r: bool)
    ensures
        r == (number(digits@, 16) is Some),
{
    if digits.len() == 0 {
        return false;
    }
    let mut i: usize = 0;
    while i < digits.len()
        invariant
            i <= digits.len(),
            digits.len() > 0,
            i > 0 ==> number(digits@.take(i as int), 16) is Some,
        decreases digits.len() - i,
    {
        let b = digits[i];
        proof {
            assert(digits@.take(i + 1).drop_last() =~= digits@.take(i as int));
            crate::scan::lemma_number_of_prefix(digits@, 16, i + 1);
        }
        if !((b >= 0x30 && b <= 0x39) || (b >= 0x61 && b <= 0x66) || (b >= 0x41 && b <= 0x46)) {
            return false;
        }
        i = i + 1;
    }
    assert(digits@.take(digits.len() as int) =~= digits@);
    true
}

/// The end of the field that begins at `start`, and the start of the next.
fn field_bounds(line: &[u8], start: usize) -> (r: (usize, usize))
    requires
        start <= line.len(),
    ensures
        r.0 == crate::scan::field_end(line@, start as int),
        r.1 == next_field(line@, start as int),
        start <= r.0 <= r.1 <= line.len(),
{
    let end = find_byte(line, start, SPACE);
    let next = skip_byte(line, end, SPACE);
    (end, next)
}

/// Reads the field at `start` as a hexadecimal number of 64 bits; gives the
/// start of the next field with it.
fn hex64_field(line: &[u8], start: usize) -> (r: (Option<u64>, usize))
    requires
        start <= line.len(),
    ensures
        r.0 == hex_u64(field(line@, start as int)),
        r.1 == next_field(line@, start as int),
        r.1 <= line.len(),
{
    let (end, next) = field_bounds(line, start);
    (parse_number(bytes_between(line, start, end), Radix::Hexadecimal, u64::MAX), next)
}

/// Reads the field at `start` as a number of 32 bits in the given radix;
/// gives the start of the next field with it.
fn u32_field(line: &[u8], start: usize, radix: Radix) -> (r: (Option<u32>, usize))
    requires
        start <= line.len(),
    ensures
        radix == Radix::Hexadecimal ==> r.0 == hex_u32(field(line@, start as int)),
        radix == Radix::Decimal ==> r.0 == dec_u32(field(line@, start as int)),
        r.1 == next_field(line@, start as int),
        r.1 <= line.len(),
{
    let (end, next) = field_bounds(line, start);
    let value = match parse_number(bytes_between(line, start, end), radix, 0xffff_ffff) {
        Some(n) => Some(n as u32),
        None => None,
    };
    (value, next)
}

/// Reads the field at `start` as a text; gives the start of the next field
/// with it.
fn text_field(line: &[u8], start: usize) -> (r: (Option<String>, usize))
    requires
        start <= line.len(),
    ensures
        text_view(r.0) == text_value(field(line@, start as int)),
        r.1 == next_field(line@, start as int),
        r.1 <= line.len(),
{
    let (end, next) = field_bounds(line, start);
    (parse_text(bytes_between(line, start, end)), next)
}

/// Reads what is left of the line from `start` on as a text.
fn rest_text(line: &[u8], start: usize) -> (r: Option<String>)
    requires
        start <= line.len(),
    ensures
        text_view(r) == text_value(rest(line@, start as int)),
{
    parse_text(bytes_between(line, start, line.len()))
}

/// Reads what is left of the line from `start` on as a program.
fn rest_program(line: &[u8], start: usize) -> (r: Option<Vec<u8>>)
    requires
        start <= line.len(),
    ensures
        record_view(r) == program_value(rest(line@, start as int)),
{
    if start < line.len() {
        Some(slice_to_vec(bytes_between(line, start, line.len())))
    } else {
        None
    }
}

/// The kind of the line `line`.
pub fn classify(line: &[u8]) -> (kind: LineKind)
    ensures
        kind == kind_of(line@),
{
    let (e0, s1) = field_bounds(line, 0);
    let first = bytes_between(line, 0, e0);
    let module: [u8; 6] = [0x4d, 0x4f, 0x44, 0x55, 0x4c, 0x45];
    let file: [u8; 4] = [0x46, 0x49, 0x4c, 0x45];
    let func: [u8; 4] = [0x46, 0x55, 0x4e, 0x43];
    let public: [u8; 6] = [0x50, 0x55, 0x42, 0x4c, 0x49, 0x43];
    let stack: [u8; 5] = [0x53, 0x54, 0x41, 0x43, 0x4b];
    let cfi: [u8; 3] = [0x43, 0x46, 0x49];
    let init: [u8; 4] = [0x49, 0x4e, 0x49, 0x54];
    let win: [u8; 3] = [0x57, 0x49, 0x4e];
    if same_bytes(first, array_as_slice(&module)) {
        LineKind::Module
    } else if same_bytes(first, array_as_slice(&file)) {
        LineKind::File
    } else if same_bytes(first, array_as_slice(&func)) {
        LineKind::Function
    } else if same_bytes(first, array_as_slice(&public)) {
        LineKind::Public
    } else if same_bytes(first, array_as_slice(&stack)) {
        let (e1, s2) = field_bounds(line, s1);
        let second = bytes_between(line, s1, e1);
        if same_bytes(second, array_as_slice(&cfi)) {
            let (e2, _s3) = field_bounds(line, s2);
            if same_bytes(bytes_between(line, s2, e2), array_as_slice(&init)) {
                LineKind::CfiInit
            } else {
                LineKind::CfiDelta
            }
        } else if same_bytes(second, array_as_slice(&win)) {
            LineKind::Win
        } else {
            LineKind::Other
        }
    } else if is_hex_run(first) {
        LineKind::SourceLine
    } else {
        LineKind::Other
    }
}

/// Reads a `MODULE` line.
pub fn parse_module(line: &[u8]) -> (r: Option<ModuleHeader>)
    ensures
        record_view(r) == module_record(line@),
{
    let (_e0, s1) = field_bounds(line, 0);
    let (os, s2) = text_field(line, s1);
    let (cpu, s3) = text_field(line, s2);
    let (e3, _) = field_bounds(line, s3);
    let is_hex = is_hex_run(bytes_between(line, s3, e3));
    let (debug_id, s4) = text_field(line, s3);
    let debug_file = rest_text(line, s4);
    match (os, cpu, debug_id, debug_file) {
        (Some(os), Some(cpu), Some(debug_id), Some(debug_file)) => if is_hex {
            Some(ModuleHeader { os, cpu, debug_id, debug_file })
        } else {
            None
        },
        _ => None,
    }
}

/// Reads a `FILE` line.
pub fn parse_file(line: &[u8]) -> (r: Option<SourceFile>)
    ensures
        record_view(r) == file_record(line@),
{
    let (_e0, s1) = field_bounds(line, 0);
    let (number, s2) = u32_field(line, s1, Radix::Decimal);
    let path = rest_text(line, s2);
    match (number, path) {
        (Some(number), Some(path)) => Some(SourceFile { number, path }),
        _ => None,
    }
}

/// Reads a `FUNC` line.
pub fn parse_function(line: &[u8]) -> (r: Option<Function>)
    ensures
        record_view(r) == function_record(line@),
        r matches Some(f) ==> sorted(f@.lines),
{
    let (_e0, s1) = field_bounds(line, 0);
    let (address, s2) = hex64_field(line, s1);
    let (size, s3) = hex64_field(line, s2);
    let (parameter_size, s4) = u32_field(line, s3, Radix::Hexadecimal);
    let name = rest_text(line, s4);
    match (address, size, parameter_size, name) {
        (Some(address), Some(size), Some(parameter_size), Some(name)) => Some(
            Function { address, size, parameter_size, name, lines: Vec::new() },
        ),
        _ => None,
    }
}

/// Reads a line of a line table.
pub fn parse_source_line(line: &[u8]) -> (r: Option<SourceLine>)
    ensures
        r == source_line_record(line@),
{
    let (address, s1) = hex64_field(line, 0);
    let (size, s2) = hex64_field(line, s1);
    let (number, s3) = u32_field(line, s2, Radix::Decimal);
    let (file, s4) = u32_field(line, s3, Radix::Decimal);
    match (address, size, number, file) {
        (Some(address), Some(size), Some(number), Some(file)) => if s4 == line.len() {
            Some(SourceLine { address, size, file, line: number })
        } else {
            None
        },
        _ => None,
    }
}

/// Reads a `PUBLIC` line.
pub fn parse_public(line: &[u8]) -> (r: Option<PublicSymbol>)
    ensures
        record_view(r) == public_record(line@),
{
    let (_e0, s1) = field_bounds(line, 0);
    let (address, s2) = hex64_field(line, s1);
    let (parameter_size, s3) = u32_field(line, s2, Radix::Hexadecimal);
    let name = rest_text(line, s3);
    match (address, parameter_size, name) {
        (Some(address), Some(parameter_size), Some(name)) => Some(
            PublicSymbol { address, parameter_size, name },
        ),
        _ => None,
    }
}

/// Reads a `STACK CFI INIT` line.
pub fn parse_cfi_init(line: &[u8]) -> (r: Option<StackInfoCfi>)
    ensures
        record_view(r) == cfi_init_record(line@),
        r matches Some(c) ==> sorted(c@.add_rules),
{
    let (_e0, s1) = field_bounds(line, 0);
    let (_e1, s2) = field_bounds(line, s1);
    let (_e2, s3) = field_bounds(line, s2);
    let (address, s4) = hex64_field(line, s3);
    let (size, s5) = hex64_field(line, s4);
    let rules = rest_program(line, s5);
    match (address, size, rules) {
        (Some(address), Some(size), Some(rules)) => {
            let add_rules: Vec<CfiRules> = Vec::new();
            assert(views(add_rules@) =~= Seq::<CfiRulesView>::empty());
            Some(StackInfoCfi { init: CfiRules { address, rules }, size, add_rules })
        },
        _ => None,
    }
}

/// Reads a `STACK CFI` line.
pub fn parse_cfi_delta(line: &[u8]) -> (r: Option<CfiRules>)
    ensures
        record_view(r) == cfi_delta_record(line@),
{
    let (_e0, s1) = field_bounds(line, 0);
    let (_e1, s2) = field_bounds(line, s1);
    let (address, s3) = hex64_field(line, s2);
    let rules = rest_program(line, s3);
    match (address, rules) {
        (Some(address), Some(rules)) => Some(CfiRules { address, rules }),
        _ => None,
    }
}

/// Reads what ends a `STACK WIN` line, from `at` on.
fn parse_win_stack_thing(line: &[u8], has_program: u32, at: usize) -> (r: Option<WinStackThing>)
    requires
        at <= line.len(),
    ensures
        record_view(r) == win_stack_thing(line@, has_program, at as int),
{
    if has_program == 1 {
        match rest_program(line, at) {
            Some(program) => Some(WinStackThing::ProgramString(program)),
            None => None,
        }
    } else if has_program == 0 {
        let (allocates, _) = u32_field(line, at, Radix::Hexadecimal);
        match allocates {
            Some(allocates) => Some(WinStackThing::AllocatesBasePointer(allocates != 0)),
            None => None,
        }
    } else {
        None
    }
}

/// Reads a `STACK WIN` line.
pub fn parse_win(line: &[u8]) -> (r: Option<StackInfoWin>)
    ensures
        record_view(r) == win_record(line@),
{
    let (_e0, s1) = field_bounds(line, 0);
    let (_e1, s2) = field_bounds(line, s1);
    let (type_number, s3) = u32_field(line, s2, Radix::Hexadecimal);
    let (address, s4) = hex64_field(line, s3);
    let (size, s5) = hex64_field(line, s4);
    let (prologue_size, s6) = u32_field(line, s5, Radix::Hexadecimal);
    let (epilogue_size, s7) = u32_field(line, s6, Radix::Hexadecimal);
    let (parameter_size, s8) = u32_field(line, s7, Radix::Hexadecimal);
    let (saved_register_size, s9) = u32_field(line, s8, Radix::Hexadecimal);
    let (local_size, s10) = u32_field(line, s9, Radix::Hexadecimal);
    let (max_stack_size, s11) = u32_field(line, s10, Radix::Hexadecimal);
    let (has_program, s12) = u32_field(line, s11, Radix::Hexadecimal);
    match (
        type_number,
        address,
        size,
        prologue_size,
        epilogue_size,
        parameter_size,
        saved_register_size,
        local_size,
        max_stack_size,
        has_program,
    ) {
        (
            Some(type_number),
            Some(address),
            Some(size),
            Some(prologue_size),
            Some(epilogue_size),
            Some(parameter_size),
            Some(saved_register_size),
            Some(local_size),
            Some(max_stack_size),
            Some(has_program),
        ) => {
            let frame_type = if type_number == 0 {
                Some(WinFrameType::Fpo)
            } else if type_number == 4 {
                Some(WinFrameType::FrameData)
            } else {
                None
            };
            match (frame_type, parse_win_stack_thing(line, has_program, s12)) {
                (Some(frame_type), Some(program_string_or_base_pointer)) => Some(
                    StackInfoWin {
                        frame_type,
                        address,
                        size,
                        prologue_size,
                        epilogue_size,
                        parameter_size,
                        saved_register_size,
                        local_size,
                        max_stack_size,
                        program_string_or_base_pointer,
                    },
                ),
                _ => None,
            }
        },
        _ => None,
    }
}

} // verus!
