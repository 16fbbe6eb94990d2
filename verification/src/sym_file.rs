//! What a symbol file says of a module, and the questions it answers: the
//! function and the source line at an address, the public symbol nearest
//! below it, and the unwinding data in force at it.

use crate::error::FillSymbolError;
use crate::frame::{frame_state, FrameState, FrameSymbolizer, FunctionInfo, SourceInfo};
use crate::module::SimpleModule;
use crate::records::{
    Function, FunctionView, ModuleHeader, ModuleHeaderView, PublicSymbol, PublicSymbolView,
    SourceLine, StackInfoCfi, StackInfoCfiView, StackInfoWin, StackInfoWinView, record_view,
};
use crate::table::{find_rank, lemma_rank_bounds, nearest_below, sorted, views};
use std::collections::HashMap;
use vstd::prelude::*;

verus! {

broadcast use vstd::std_specs::hash::group_hash_axioms;

/// Something wrong with a symbol file.
#[derive(Clone, Copy, Debug, PartialEq, Eq, Structural)]
pub enum Defect {
    /// A `MODULE` record lacks a field, or its identifier is not in
    /// hexadecimal digits.
    MalformedModule,
    /// The file holds no `MODULE`, `FUNC` or `PUBLIC` record at all.
    NothingRecognized,
    /// A `MODULE` record follows another.
    RepeatedModule,
    /// A `FILE` record lacks a field, or its number is not one.
    MalformedFile,
    /// A `FUNC` record lacks a field, or a number in it is not one.
    MalformedFunction,
    /// The line of a line table has not four numbers.
    MalformedSourceLine,
    /// The line of a line table stands under no `FUNC` record.
    OrphanSourceLine,
    /// A `PUBLIC` record lacks a field, or a number in it is not one.
    MalformedPublic,
    /// A `STACK CFI INIT` record lacks a field, or a number in it is not one.
    MalformedCfiInit,
    /// A `STACK CFI` record lacks a field, or its address is not a number.
    MalformedCfi,
    /// A `STACK CFI` record stands under no `STACK CFI INIT` record, or its
    /// address lies outside the range of the one it stands under.
    OrphanCfi,
    /// A `STACK WIN` record lacks a field, a number in it is not one, or it
    /// is of a type other than `0` and `4`.
    MalformedWin,
    /// A record starts at an address beyond the module.
    OutsideModule,
}

impl Defect {
    /// The words that describe the defect.
    pub open spec fn tag_text(self) -> Seq<char> {
        match self {
            Defect::MalformedModule => "malformed MODULE record"@,
            Defect::NothingRecognized => "no MODULE, FUNC or PUBLIC record"@,
            Defect::RepeatedModule => "repeated MODULE record"@,
            Defect::MalformedFile => "malformed FILE record"@,
            Defect::MalformedFunction => "malformed FUNC record"@,
            Defect::MalformedSourceLine => "malformed line record"@,
            Defect::OrphanSourceLine => "line record outside a function"@,
            Defect::MalformedPublic => "malformed PUBLIC record"@,
            Defect::MalformedCfiInit => "malformed STACK CFI INIT record"@,
            Defect::MalformedCfi => "malformed STACK CFI record"@,
            Defect::OrphanCfi => "STACK CFI record outside a STACK CFI INIT range"@,
            Defect::MalformedWin => "malformed STACK WIN record"@,
            Defect::OutsideModule => "record outside the module"@,
        }
    }

    /// The words that describe the defect.
    pub fn tag(self) -> (r: &'static str)
        ensures
            r@ == self.tag_text(),
    {
        match self {
            Defect::MalformedModule => "malformed MODULE record",
            Defect::NothingRecognized => "no MODULE, FUNC or PUBLIC record",
            Defect::RepeatedModule => "repeated MODULE record",
            Defect::MalformedFile => "malformed FILE record",
            Defect::MalformedFunction => "malformed FUNC record",
            Defect::MalformedSourceLine => "malformed line record",
            Defect::OrphanSourceLine => "line record outside a function",
            Defect::MalformedPublic => "malformed PUBLIC record",
            Defect::MalformedCfiInit => "malformed STACK CFI INIT record",
            Defect::MalformedCfi => "malformed STACK CFI record",
            Defect::OrphanCfi => "STACK CFI record outside a STACK CFI INIT range",
            Defect::MalformedWin => "malformed STACK WIN record",
            Defect::OutsideModule => "record outside the module",
        }
    }
}

/// A record that was passed over, and why.
#[derive(Clone, Copy, Debug, PartialEq, Eq, Structural)]
pub struct Diagnostic {
    /// What was wrong with the record.
    pub defect: Defect,
    /// The number of the record's line, counted from one.
    pub line: u64,
}

/// The texts of a file table.
pub open spec fn file_paths(files: Map<u32, String>) -> Map<u32, Seq<char>> {
    files.map_values(|s: String| s@)
}

/// What a symbol file says, as a value.
pub ghost struct SymbolFileView {
    /// The header.
    pub module: Option<ModuleHeaderView>,
    /// The paths of the source files, by their numbers.
    pub files: Map<u32, Seq<char>>,
    /// The functions, in the order of their addresses.
    pub functions: Seq<FunctionView>,
    /// The public symbols, in the order of their addresses.
    pub publics: Seq<PublicSymbolView>,
    /// The unwinding rules, in the order of the addresses at which their
    /// ranges start.
    pub cfi: Seq<StackInfoCfiView>,
    /// The Windows unwinding data, in the order of the addresses at which
    /// their ranges start.
    pub win: Seq<StackInfoWinView>,
    /// The records that were passed over, in the order of their lines.
    pub diagnostics: Seq<Diagnostic>,
}

impl SymbolFileView {
    /// Whether every table stands in the order of its addresses.
    pub open spec fn ordered(self) -> bool {
        &&& sorted(self.functions)
        &&& forall|i: int| 0 <= i < self.functions.len() ==> sorted(#[trigger] self.functions[i].lines)
        &&& sorted(self.publics)
        &&& sorted(self.cfi)
        &&& forall|i: int| 0 <= i < self.cfi.len() ==> sorted(#[trigger] self.cfi[i].add_rules)
        &&& sorted(self.win)
    }
}

impl FunctionView {
    /// Whether `address` lies in the function.
    pub open spec fn contains(self, address: u64) -> bool {
        self.address <= address && address - self.address < self.size
    }
}

impl StackInfoCfiView {
    /// Whether `address` lies in the range of the rules.
    pub open spec fn covers(self, address: u64) -> bool {
        self.init.address <= address && address - self.init.address < self.size
    }
}

impl StackInfoWinView {
    /// Whether `address` lies in the range of the data.
    pub open spec fn covers(self, address: u64) -> bool {
        self.address <= address && address - self.address < self.size
    }
}

/// The source line found for an address, with the path of its file.
pub ghost struct LineMatch {
    pub line: SourceLine,
    pub path: Seq<char>,
}

/// The symbol found for an address.
pub ghost struct SymbolMatch {
    /// The name of the function or of the public symbol.
    pub name: Seq<char>,
    /// The address at which it starts.
    pub address: u64,
    /// The size of its parameters on the stack.
    pub parameter_size: u32,
    /// The source line, where the symbol is a function whose line table has
    /// a line at or below the address, of a file that the file table names.
    pub source: Option<LineMatch>,
}

/// The source line in force at `address` in `function`: the one that
/// starts nearest below, where the file table knows its file.
pub open spec fn line_at_spec(
    files: Map<u32, Seq<char>>,
    function: FunctionView,
    address: u64,
) -> Option<LineMatch> {
    match nearest_below(function.lines, address) {
        Some(line) => if files.contains_key(line.file) {
            Some(LineMatch { line, path: files[line.file] })
        } else {
            None
        },
        None => None,
    }
}

/// The symbol for `address`: the function that starts nearest below, where
/// it contains the address; else the public symbol that starts nearest
/// below, unless a function starts between it and the address.
pub open spec fn symbol_at_spec(file: SymbolFileView, address: u64) -> Option<SymbolMatch> {
    let function = nearest_below(file.functions, address);
    let public = nearest_below(file.publics, address);
    if function is Some && function->0.contains(address) {
        Some(
            SymbolMatch {
                name: function->0.name,
                address: function->0.address,
                parameter_size: function->0.parameter_size,
                source: line_at_spec(file.files, function->0, address),
            },
        )
    } else if public is Some && (function is None || function->0.address <= public->0.address) {
        Some(
            SymbolMatch {
                name: public->0.name,
                address: public->0.address,
                parameter_size: public->0.parameter_size,
                source: None,
            },
        )
    } else {
        None
    }
}

/// The symbol for the instruction of a frame in a module loaded at `base`:
/// the symbol for the address of the instruction relative to the module.
pub open spec fn symbol_for_frame(file: SymbolFileView, base: u64, instruction: u64) -> Option<
    SymbolMatch,
> {
    if instruction < base {
        None
    } else {
        symbol_at_spec(file, (instruction - base) as u64)
    }
}

/// The function that a frame is told of when the symbol `m` was found for
/// it in a module loaded at `base`.
pub open spec fn function_info_of(m: SymbolMatch, base: u64) -> FunctionInfo {
    FunctionInfo {
        name: m.name,
        base: (m.address + base) as u64,
        parameter_size: m.parameter_size,
    }
}

/// The source line that a frame is told of when the line `l` was found for
/// it in a module loaded at `base`.
pub open spec fn source_info_of(l: LineMatch, base: u64) -> SourceInfo {
    SourceInfo { file: l.path, line: l.line.line, base: (l.line.address + base) as u64 }
}

/// Whether what can be seen of a frame shows that it was told of the
/// symbol that was found for it, in a module loaded at `base`: its function,
/// and its source line where there is one. Where no symbol was found,
/// nothing has changed and `r` is a failure.
pub open spec fn state_filled_by(
    symbol: Option<SymbolMatch>,
    base: u64,
    before: FrameState,
    after: FrameState,
    r: Result<(), FillSymbolError>,
) -> bool {
    match symbol {
        Some(m) => {
            &&& r is Ok
            &&& after.instruction == before.instruction
            &&& after.function_info == Some(function_info_of(m, base))
            &&& after.source_info == match m.source {
                Some(l) => Some(source_info_of(l, base)),
                None => before.source_info,
            }
        },
        None => r is Err && after == before,
    }
}

/// Whether a frame was told of the symbol that was found for it, in a
/// module loaded at `base`: its function, and its source line where there
/// is one. Where no symbol was found, the frame is as it was and `r` is a
/// failure.
pub open spec fn filled_by<F: FrameSymbolizer>(
    symbol: Option<SymbolMatch>,
    base: u64,
    before: F,
    after: F,
    r: Result<(), FillSymbolError>,
) -> bool {
    &&& state_filled_by(symbol, base, frame_state(before), frame_state(after), r)
    &&& symbol is None ==> after == before
}

/// A symbol found for an address.
#[derive(Clone, Copy, Debug)]
pub struct Symbol<'a> {
    /// The name of the function or of the public symbol.
    pub name: &'a str,
    /// The address at which it starts.
    pub address: u64,
    /// The size of its parameters on the stack.
    pub parameter_size: u32,
    /// The source line and the path of its file, where they are known.
    pub source: Option<(SourceLine, &'a str)>,
}

impl<'a> View for Symbol<'a> {
    type V = SymbolMatch;

    open spec fn view(&self) -> SymbolMatch {
        SymbolMatch {
            name: self.name@,
            address: self.address,
            parameter_size: self.parameter_size,
            source: match self.source {
                Some((line, path)) => Some(LineMatch { line, path: path@ }),
                None => None,
            },
        }
    }
}

/// The symbol found for an address starts at or below it, and so does the
/// source line found with it.
pub proof fn lemma_symbol_at_or_below(file: SymbolFileView, address: u64)
    ensures
        symbol_at_spec(file, address) matches Some(m) ==> m.address <= address && (
        m.source matches Some(l) ==> l.line.address <= address),
{
    lemma_rank_bounds(file.functions, address);
    lemma_rank_bounds(file.publics, address);
    let function = nearest_below(file.functions, address);
    if function is Some {
        lemma_rank_bounds(function->0.lines, address);
    }
}

/// What a symbol file says of a module. It is built once and not changed
/// after; every table in it stands in the order of its addresses.
#[derive(Debug, PartialEq, Eq)]
pub struct SymbolFile {
    module: Option<ModuleHeader>,
    files: HashMap<u32, String>,
    functions: Vec<Function>,
    publics: Vec<PublicSymbol>,
    cfi: Vec<StackInfoCfi>,
    win: Vec<StackInfoWin>,
    diagnostics: Vec<Diagnostic>,
}

impl View for SymbolFile {
    type V = SymbolFileView;

    closed spec fn view(&self) -> SymbolFileView {
        SymbolFileView {
            module: record_view(self.module),
            files: file_paths(self.files@),
            functions: views(self.functions@),
            publics: views(self.publics@),
            cfi: views(self.cfi@),
            win: views(self.win@),
            diagnostics: self.diagnostics@,
        }
    }
}

impl Function {
    /// Whether `address` lies in the function.
    pub fn contains(&self, address: u64) -> (r: bool)
        ensures
            r == self@.contains(address),
    {
        self.address() <= address && address - self.address() < self.size()
    }
}

impl StackInfoCfi {
    /// Whether `address` lies in the range of the rules.
    pub fn covers(&self, address: u64) -> (r: bool)
        ensures
            r == self@.covers(address),
    {
        self.init().address <= address && address - self.init().address < self.size()
    }
}

impl StackInfoWin {
    /// Whether `address` lies in the range of the data.
    pub fn covers(&self, address: u64) -> (r: bool)
        ensures
            r == self@.covers(address),
    {
        self.address <= address && address - self.address < self.size
    }
}

impl SymbolFile {
    #[verifier::type_invariant]
    spec fn well_formed(self) -> bool {
        self@.ordered()
    }

    /// A symbol file of the given tables.
    pub(crate) fn from_tables(
        module: Option<ModuleHeader>,
        files: HashMap<u32, String>,
        functions: Vec<Function>,
        publics: Vec<PublicSymbol>,
        cfi: Vec<StackInfoCfi>,
        win: Vec<StackInfoWin>,
        diagnostics: Vec<Diagnostic>,
    ) -> (file: SymbolFile)
        requires
            sorted(views(functions@)),
            forall|i: int| 0 <= i < functions@.len() ==> sorted(#[trigger] functions@[i]@.lines),
            sorted(views(publics@)),
            sorted(views(cfi@)),
            forall|i: int| 0 <= i < cfi@.len() ==> sorted(#[trigger] cfi@[i]@.add_rules),
            sorted(views(win@)),
        ensures
            file@ == (SymbolFileView {
                module: record_view(module),
                files: file_paths(files@),
                functions: views(functions@),
                publics: views(publics@),
                cfi: views(cfi@),
                win: views(win@),
                diagnostics: diagnostics@,
            }),
    {
        proof {
            assert forall|i: int| 0 <= i < views(functions@).len() implies sorted(
                #[trigger] views(functions@)[i].lines,
            ) by {
                assert(views(functions@)[i].lines == functions@[i]@.lines);
            }
            assert forall|i: int| 0 <= i < views(cfi@).len() implies sorted(
                #[trigger] views(cfi@)[i].add_rules,
            ) by {
                assert(views(cfi@)[i].add_rules == cfi@[i]@.add_rules);
            }
        }
        SymbolFile { module, files, functions, publics, cfi, win, diagnostics }
    }

    /// The header of the file.
    pub fn module(&self) -> (r: Option<&ModuleHeader>)
        ensures
            r is Some == self@.module is Some,
            r matches Some(m) ==> m@ == self@.module->0,
    {
        self.module.as_ref()
    }

    /// The records that were passed over when the file was read.
    pub fn diagnostics(&self) -> (r: &Vec<Diagnostic>)
        ensures
            r@ == self@.diagnostics,
    {
        &self.diagnostics
    }

    /// The number of functions in the file.
    pub fn function_count(&self) -> (n: usize)
        ensures
            n == self@.functions.len(),
    {
        self.functions.len()
    }

    /// The number of public symbols in the file.
    pub fn public_count(&self) -> (n: usize)
        ensures
            n == self@.publics.len(),
    {
        self.publics.len()
    }

    /// The path of the source file with the given number.
    pub fn file_path(&self, number: u32) -> (r: Option<&str>)
        ensures
            r is Some == self@.files.contains_key(number),
            r matches Some(path) ==> path@ == self@.files[number],
    {
        match self.files.get(&number) {
            Some(path) => Some(path.as_str()),
            None => None,
        }
    }

    /// The function that starts nearest at or below `address`. It contains
    /// the address only where the address lies before its end.
    pub fn function_at_or_containing(&self, address: u64) -> (r: Option<&Function>)
        ensures
            record_view(r) == nearest_below(self@.functions, address),
    {
        proof {
            use_type_invariant(self);
        }
        let at = find_rank(&self.functions, address);
        if at > 0 {
            Some(&self.functions[at - 1])
        } else {
            None
        }
    }

    /// The source line in force at `address` in `function`, with the path of
    /// its file: the line that starts nearest at or below the address. There
    /// is none where the line table has no such line, or names a file that
    /// the file table does not know.
    pub fn line_at<'a>(&'a self, function: &'a Function, address: u64) -> (r: Option<
        (SourceLine, &'a str),
    >)
        ensures
            match line_at_spec(self@.files, function@, address) {
                Some(m) => r matches Some((line, path)) && line == m.line && path@ == m.path,
                None => r is None,
            },
    {
        let lines = function.lines();
        assert(views(lines@) =~= lines@);
        let at = find_rank(lines, address);
        if at == 0 {
            return None;
        }
        let line = lines[at - 1];
        match self.file_path(line.file) {
            Some(path) => Some((line, path)),
            None => None,
        }
    }

    /// The symbol for `address`: the function that contains it, or else the
    /// public symbol nearest below it, unless a function starts between the
    /// two.
    pub fn symbol_at<'a>(&'a self, address: u64) -> (r: Option<Symbol<'a>>)
        ensures
            record_view(r) == symbol_at_spec(self@, address),
    {
        let function = self.function_at_or_containing(address);
        if let Some(f) = function {
            if f.contains(address) {
                return Some(
                    Symbol {
                        name: f.name(),
                        address: f.address(),
                        parameter_size: f.parameter_size(),
                        source: self.line_at(f, address),
                    },
                );
            }
        }
        match self.public_at_or_below(address) {
            Some(p) => {
                let hidden = match function {
                    Some(f) => f.address() > p.address,
                    None => false,
                };
                if hidden {
                    None
                } else {
                    Some(
                        Symbol {
                            name: p.name.as_str(),
                            address: p.address,
                            parameter_size: p.parameter_size,
                            source: None,
                        },
                    )
                }
            },
            None => None,
        }
    }

    /// Writes to `frame` what the file knows of its instruction, in a
    /// module loaded at the base address of `module`: the function, and the
    /// source line where there is one. Fails, and leaves the frame as it is,
    /// where the file has no symbol for the instruction.
    pub fn fill_symbol<F: FrameSymbolizer>(&self, module: &SimpleModule, frame: &mut F) -> (r:
        Result<(), FillSymbolError>)
        ensures
            filled_by(
                symbol_for_frame(
                    self@,
                    module.base_address.unwrap_or(0),
                    old(frame).instruction(),
                ),
                module.base_address.unwrap_or(0),
                *old(frame),
                *final(frame),
                r,
            ),
    {
        let base = module.base_address();
        let instruction = frame.get_instruction();
        if instruction < base {
            return Err(FillSymbolError {  });
        }
        let address = instruction - base;
        match self.symbol_at(address) {
            Some(symbol) => {
                proof {
                    lemma_symbol_at_or_below(self@, address);
                }
                frame.set_function(symbol.name, symbol.address + base, symbol.parameter_size);
                if let Some((line, path)) = symbol.source {
                    frame.set_source_file(path, line.line, line.address + base);
                }
                Ok(())
            },
            None => Err(FillSymbolError {  }),
        }
    }

    /// The public symbol that starts nearest at or below `address`.
    pub fn public_at_or_below(&self, address: u64) -> (r: Option<&PublicSymbol>)
        ensures
            record_view(r) == nearest_below(self@.publics, address),
    {
        proof {
            use_type_invariant(self);
        }
        let at = find_rank(&self.publics, address);
        if at > 0 {
            Some(&self.publics[at - 1])
        } else {
            None
        }
    }

    /// The unwinding rules whose range starts nearest at or below
    /// `address`.
    pub fn cfi_rules_for(&self, address: u64) -> (r: Option<&StackInfoCfi>)
        ensures
            record_view(r) == nearest_below(self@.cfi, address),
    {
        proof {
            use_type_invariant(self);
        }
        let at = find_rank(&self.cfi, address);
        if at > 0 {
            Some(&self.cfi[at - 1])
        } else {
            None
        }
    }

    /// The Windows unwinding data whose range starts nearest at or below
    /// `address`.
    pub fn win_frame_data_for(&self, address: u64) -> (r: Option<&StackInfoWin>)
        ensures
            record_view(r) == nearest_below(self@.win, address),
    {
        proof {
            use_type_invariant(self);
        }
        let at = find_rank(&self.win, address);
        if at > 0 {
            Some(&self.win[at - 1])
        } else {
            None
        }
    }
}

} // verus!
