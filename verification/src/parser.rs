//! Reading a symbol file line by line.
//!
//! Each line is taken by itself as it comes. A `FUNC` record opens a
//! function, and the lines of a line table that follow belong to it; a
//! `STACK CFI INIT` record opens a range of unwinding rules, and the
//! `STACK CFI` records that follow belong to it. Any other record closes
//! what was open. A record that cannot be read is passed over and noted;
//! only a `MODULE` record that cannot be read, or a file without any
//! `MODULE`, `FUNC` or `PUBLIC` record, makes the whole file fail.

use crate::error::SymbolError;
use crate::records::{
    cfi_delta_record, cfi_init_record, classify, file_record, function_record, kind_of,
    module_record, parse_cfi_delta, parse_cfi_init, parse_file, parse_function, parse_module,
    parse_public, parse_source_line, parse_win, public_record, record_view, source_line_record,
    win_record, Function, FunctionView, LineKind, ModuleHeader, ModuleHeaderView,
    PublicSymbol, PublicSymbolView, StackInfoCfi, StackInfoCfiView, StackInfoWin,
    StackInfoWinView,
};
use crate::scan::{
    bytes_between, find_byte, lemma_scan_to_bounds, scan_to, without_cr, CARRIAGE_RETURN, NEWLINE,
};
use crate::sym_file::{file_paths, Defect, Diagnostic, SymbolFile, SymbolFileView};
use crate::table::{
    insert_record, lemma_rank_bounds, lemma_with_record_sorted, rank, sorted, views, with_record,
};
use std::collections::HashMap;
use vstd::prelude::*;

verus! {

broadcast use vstd::std_specs::hash::group_hash_axioms;

/// Why a symbol file could not be read at all.
#[derive(Clone, Copy, Debug, PartialEq, Eq, Structural)]
pub struct ParseError {
    /// What was wrong.
    pub defect: Defect,
    /// The number of the line at which it was found, counted from one.
    pub line: u64,
}

/// The function or the range of unwinding rules to which the next lines may
/// add.
pub ghost enum OpenBlock {
    Nothing,
    Function(FunctionView),
    Cfi(StackInfoCfiView),
}

/// What has been read of a symbol file so far.
pub ghost struct ParserView {
    pub module: Option<ModuleHeaderView>,
    pub files: Map<u32, Seq<char>>,
    pub functions: Seq<FunctionView>,
    pub publics: Seq<PublicSymbolView>,
    pub cfi: Seq<StackInfoCfiView>,
    pub win: Seq<StackInfoWinView>,
    pub diagnostics: Seq<Diagnostic>,
    pub open: OpenBlock,
}

/// Nothing read yet.
pub open spec fn nothing_read() -> ParserView {
    ParserView {
        module: None,
        files: Map::empty(),
        functions: Seq::empty(),
        publics: Seq::empty(),
        cfi: Seq::empty(),
        win: Seq::empty(),
        diagnostics: Seq::empty(),
        open: OpenBlock::Nothing,
    }
}

/// Whether a record that starts at `address` lies in a module of the given
/// size. Without a size every record does.
pub open spec fn within(limit: Option<u64>, address: u64) -> bool {
    limit matches Some(size) ==> address < size
}

/// The state with what was open added to its table.
pub open spec fn closed(s: ParserView) -> ParserView {
    match s.open {
        OpenBlock::Nothing => s,
        OpenBlock::Function(f) => ParserView {
            functions: with_record(s.functions, f),
            open: OpenBlock::Nothing,
            ..s
        },
        OpenBlock::Cfi(c) => ParserView { cfi: with_record(s.cfi, c), open: OpenBlock::Nothing, ..s },
    }
}

/// The state with one more record noted as passed over.
pub open spec fn noted(s: ParserView, defect: Defect, line: u64) -> ParserView {
    ParserView { diagnostics: s.diagnostics.push(Diagnostic { defect, line }), ..s }
}

/// The state after a `MODULE` line. The first header stands; one that
/// cannot be read fails the file.
pub open spec fn after_module(s: ParserView, line: Seq<u8>, number: u64) -> Result<
    ParserView,
    ParseError,
> {
    match module_record(line) {
        None => Err(ParseError { defect: Defect::MalformedModule, line: number }),
        Some(m) => if s.module is Some {
            Ok(noted(closed(s), Defect::RepeatedModule, number))
        } else {
            Ok(ParserView { module: Some(m), ..closed(s) })
        },
    }
}

/// The state after a `FILE` line. A later record for a number replaces an
/// earlier one.
pub open spec fn after_file(s: ParserView, line: Seq<u8>, number: u64) -> ParserView {
    match file_record(line) {
        None => noted(closed(s), Defect::MalformedFile, number),
        Some(f) => ParserView { files: s.files.insert(f.number, f.path), ..closed(s) },
    }
}

/// The state after a `FUNC` line.
pub open spec fn after_function(
    s: ParserView,
    line: Seq<u8>,
    number: u64,
    limit: Option<u64>,
) -> ParserView {
    match function_record(line) {
        None => noted(closed(s), Defect::MalformedFunction, number),
        Some(f) => if within(limit, f.address) {
            ParserView { open: OpenBlock::Function(f), ..closed(s) }
        } else {
            noted(closed(s), Defect::OutsideModule, number)
        },
    }
}

/// The state after a line that begins like one of a line table.
pub open spec fn after_source_line(s: ParserView, line: Seq<u8>, number: u64) -> ParserView {
    match s.open {
        OpenBlock::Function(f) => match source_line_record(line) {
            None => noted(s, Defect::MalformedSourceLine, number),
            Some(l) => ParserView {
                open: OpenBlock::Function(FunctionView { lines: with_record(f.lines, l), ..f }),
                ..s
            },
        },
        _ => noted(closed(s), Defect::OrphanSourceLine, number),
    }
}

/// The state after a `PUBLIC` line.
pub open spec fn after_public(
    s: ParserView,
    line: Seq<u8>,
    number: u64,
    limit: Option<u64>,
) -> ParserView {
    match public_record(line) {
        None => noted(closed(s), Defect::MalformedPublic, number),
        Some(p) => if within(limit, p.address) {
            ParserView { publics: with_record(closed(s).publics, p), ..closed(s) }
        } else {
            noted(closed(s), Defect::OutsideModule, number)
        },
    }
}

/// The state after a `STACK CFI INIT` line.
pub open spec fn after_cfi_init(
    s: ParserView,
    line: Seq<u8>,
    number: u64,
    limit: Option<u64>,
) -> ParserView {
    match cfi_init_record(line) {
        None => noted(closed(s), Defect::MalformedCfiInit, number),
        Some(c) => if within(limit, c.init.address) {
            ParserView { open: OpenBlock::Cfi(c), ..closed(s) }
        } else {
            noted(closed(s), Defect::OutsideModule, number)
        },
    }
}

/// The state after a `STACK CFI` line.
pub open spec fn after_cfi_delta(s: ParserView, line: Seq<u8>, number: u64) -> ParserView {
    match s.open {
        OpenBlock::Cfi(c) => match cfi_delta_record(line) {
            None => noted(s, Defect::MalformedCfi, number),
            Some(r) => if c.covers(r.address) {
                ParserView {
                    open: OpenBlock::Cfi(
                        StackInfoCfiView { add_rules: with_record(c.add_rules, r), ..c },
                    ),
                    ..s
                }
            } else {
                noted(s, Defect::OrphanCfi, number)
            },
        },
        _ => noted(closed(s), Defect::OrphanCfi, number),
    }
}

/// The state after a `STACK WIN` line.
pub open spec fn after_win(
    s: ParserView,
    line: Seq<u8>,
    number: u64,
    limit: Option<u64>,
) -> ParserView {
    match win_record(line) {
        None => noted(closed(s), Defect::MalformedWin, number),
        Some(w) => if within(limit, w.address) {
            ParserView { win: with_record(closed(s).win, w), ..closed(s) }
        } else {
            noted(closed(s), Defect::OutsideModule, number)
        },
    }
}

/// The state after the line `line`, the `number`-th of the file, or why the
/// file fails at it.
pub open spec fn absorb(s: ParserView, line: Seq<u8>, number: u64, limit: Option<u64>) -> Result<
    ParserView,
    ParseError,
> {
    match kind_of(line) {
        LineKind::Module => after_module(s, line, number),
        LineKind::File => Ok(after_file(s, line, number)),
        LineKind::Function => Ok(after_function(s, line, number, limit)),
        LineKind::SourceLine => Ok(after_source_line(s, line, number)),
        LineKind::Public => Ok(after_public(s, line, number, limit)),
        LineKind::CfiInit => Ok(after_cfi_init(s, line, number, limit)),
        LineKind::CfiDelta => Ok(after_cfi_delta(s, line, number)),
        LineKind::Win => Ok(after_win(s, line, number, limit)),
        LineKind::Other => Ok(s),
    }
}

/// What the file says once its last line is read: it fails where it holds
/// no header, no function and no public symbol.
pub open spec fn finished(s: ParserView) -> Result<SymbolFileView, ParseError> {
    let t = closed(s);
    if t.module is None && t.functions.len() == 0 && t.publics.len() == 0 {
        Err(ParseError { defect: Defect::NothingRecognized, line: 1 })
    } else {
        Ok(
            SymbolFileView {
                module: t.module,
                files: t.files,
                functions: t.functions,
                publics: t.publics,
                cfi: t.cfi,
                win: t.win,
                diagnostics: t.diagnostics,
            },
        )
    }
}

/// The state after the lines of `bytes` from `pos` on, `count` lines having
/// been read into `s` before. A line ends at a newline or with the file,
/// and a carriage return before its end is no part of it.
pub open spec fn read_from(
    bytes: Seq<u8>,
    pos: int,
    count: nat,
    s: ParserView,
    limit: Option<u64>,
) -> Result<ParserView, ParseError>
    decreases bytes.len() - pos,
{
    if 0 <= pos < bytes.len() {
        let end = scan_to(bytes, pos, NEWLINE);
        proof {
            lemma_scan_to_bounds(bytes, pos, NEWLINE);
        }
        match absorb(s, without_cr(bytes.subrange(pos, end)), (count + 1) as u64, limit) {
            Err(e) => Err(e),
            Ok(t) => if end < bytes.len() {
                read_from(bytes, end + 1, count + 1, t, limit)
            } else {
                Ok(t)
            },
        }
    } else {
        Ok(s)
    }
}

/// What the symbol file `bytes` says of a module of the given size, or why
/// it cannot be read.
pub open spec fn parse_spec(bytes: Seq<u8>, limit: Option<u64>) -> Result<
    SymbolFileView,
    ParseError,
> {
    match read_from(bytes, 0, 0, nothing_read(), limit) {
        Err(e) => Err(e),
        Ok(s) => finished(s),
    }
}

/// The view of what reading a file gave.
pub open spec fn parsed_view(r: Result<SymbolFile, ParseError>) -> Result<
    SymbolFileView,
    ParseError,
> {
    match r {
        Ok(file) => Ok(file@),
        Err(e) => Err(e),
    }
}

enum Open {
    Nothing,
    Function(Function),
    Cfi(StackInfoCfi),
}

impl View for Open {
    type V = OpenBlock;

    closed spec fn view(&self) -> OpenBlock {
        match self {
            Open::Nothing => OpenBlock::Nothing,
            Open::Function(f) => OpenBlock::Function(f@),
            Open::Cfi(c) => OpenBlock::Cfi(c@),
        }
    }
}

struct Parser {
    module: Option<ModuleHeader>,
    files: HashMap<u32, String>,
    functions: Vec<Function>,
    publics: Vec<PublicSymbol>,
    cfi: Vec<StackInfoCfi>,
    win: Vec<StackInfoWin>,
    diagnostics: Vec<Diagnostic>,
    open: Open,
    limit: Option<u64>,
}

impl View for Parser {
    type V = ParserView;

    closed spec fn view(&self) -> ParserView {
        ParserView {
            module: record_view(self.module),
            files: file_paths(self.files@),
            functions: views(self.functions@),
            publics: views(self.publics@),
            cfi: views(self.cfi@),
            win: views(self.win@),
            diagnostics: self.diagnostics@,
            open: self.open@,
        }
    }
}

impl Parser {
    #[verifier::type_invariant]
    spec fn well_formed(self) -> bool {
        &&& sorted(views(self.functions@))
        &&& forall|i: int|
            0 <= i < self.functions@.len() ==> sorted(#[trigger] self.functions@[i]@.lines)
        &&& sorted(views(self.publics@))
        &&& sorted(views(self.cfi@))
        &&& forall|i: int| 0 <= i < self.cfi@.len() ==> sorted(#[trigger] self.cfi@[i]@.add_rules)
        &&& sorted(views(self.win@))
        &&& match self.open {
            Open::Nothing => true,
            Open::Function(f) => sorted(f@.lines),
            Open::Cfi(c) => sorted(c@.add_rules),
        }
    }

    fn new(limit: Option<u64>) -> (p: Parser)
        ensures
            p@ == nothing_read(),
            p.limit == limit,
    {
        let p = Parser {
            module: None,
            files: HashMap::new(),
            functions: Vec::new(),
            publics: Vec::new(),
            cfi: Vec::new(),
            win: Vec::new(),
            diagnostics: Vec::new(),
            open: Open::Nothing,
            limit,
        };
        assert(p@.files =~= Map::<u32, Seq<char>>::empty());
        assert(p@.functions =~= Seq::<FunctionView>::empty());
        assert(p@.publics =~= Seq::<PublicSymbolView>::empty());
        assert(p@.cfi =~= Seq::<StackInfoCfiView>::empty());
        assert(p@.win =~= Seq::<StackInfoWinView>::empty());
        p
    }

    /// Adds what is open to its table.
    fn close(self) -> (p: Parser)
        ensures
            p@ == closed(self@),
            p.limit == self.limit,
            p.open is Nothing,
    {
        proof {
            use_type_invariant(&self);
        }
        let Parser {
            module,
            files,
            mut functions,
            publics,
            mut cfi,
            win,
            diagnostics,
            open,
            limit,
        } = self;
        match open {
            Open::Nothing => {},
            Open::Function(f) => {
                let ghost before = functions@;
                let at = insert_record(&mut functions, f);
                assert forall|i: int| 0 <= i < functions@.len() implies sorted(
                    #[trigger] functions@[i]@.lines,
                ) by {
                    if i < at {
                        assert(functions@[i] == before[i]);
                    } else if i > at {
                        assert(functions@[i] == before[i - 1]);
                    }
                }
            },
            Open::Cfi(c) => {
                let ghost before = cfi@;
                let at = insert_record(&mut cfi, c);
                assert forall|i: int| 0 <= i < cfi@.len() implies sorted(
                    #[trigger] cfi@[i]@.add_rules,
                ) by {
                    if i < at {
                        assert(cfi@[i] == before[i]);
                    } else if i > at {
                        assert(cfi@[i] == before[i - 1]);
                    }
                }
            },
        }
        Parser { module, files, functions, publics, cfi, win, diagnostics, open: Open::Nothing, limit }
    }

    /// Notes a record as passed over.
    fn note(self, defect: Defect, line: u64) -> (p: Parser)
        ensures
            p@ == noted(self@, defect, line),
            p.limit == self.limit,
    {
        proof {
            use_type_invariant(&self);
        }
        let Parser { module, files, functions, publics, cfi, win, mut diagnostics, open, limit } =
            self;
        diagnostics.push(Diagnostic { defect, line });
        Parser { module, files, functions, publics, cfi, win, diagnostics, open, limit }
    }

    fn module_line(self, line: &[u8], number: u64) -> (r: Result<Parser, ParseError>)
        ensures
            match after_module(self@, line@, number) {
                Ok(v) => r matches Ok(p) && p@ == v && p.limit == self.limit,
                Err(e) => r matches Err(f) && f == e,
            },
    {
        match parse_module(line) {
            None => Err(ParseError { defect: Defect::MalformedModule, line: number }),
            Some(m) => {
                let p = self.close();
                if p.module.is_some() {
                    Ok(p.note(Defect::RepeatedModule, number))
                } else {
                    proof {
                        use_type_invariant(&p);
                    }
                    let Parser {
                        module: _,
                        files,
                        functions,
                        publics,
                        cfi,
                        win,
                        diagnostics,
                        open,
                        limit,
                    } = p;
                    Ok(
                        Parser {
                            module: Some(m),
                            files,
                            functions,
                            publics,
                            cfi,
                            win,
                            diagnostics,
                            open,
                            limit,
                        },
                    )
                }
            },
        }
    }

    fn file_line(self, line: &[u8], number: u64) -> (p: Parser)
        ensures
            p@ == after_file(self@, line@, number),
            p.limit == self.limit,
    {
        let p = self.close();
        match parse_file(line) {
            None => p.note(Defect::MalformedFile, number),
            Some(f) => {
                proof {
                    use_type_invariant(&p);
                }
                let Parser {
                    module,
                    mut files,
                    functions,
                    publics,
                    cfi,
                    win,
                    diagnostics,
                    open,
                    limit,
                } = p;
                let ghost before = files@;
                let ghost path = f.path@;
                let _ = files.insert(f.number, f.path);
                assert(file_paths(files@) =~= file_paths(before).insert(f.number, path));
                Parser { module, files, functions, publics, cfi, win, diagnostics, open, limit }
            },
        }
    }

    fn function_line(self, line: &[u8], number: u64) -> (p: Parser)
        ensures
            p@ == after_function(self@, line@, number, self.limit),
            p.limit == self.limit,
    {
        let p = self.close();
        match parse_function(line) {
            None => p.note(Defect::MalformedFunction, number),
            Some(f) => {
                if in_module(p.limit, f.address()) {
                    proof {
                        use_type_invariant(&p);
                    }
                    let Parser {
                        module,
                        files,
                        functions,
                        publics,
                        cfi,
                        win,
                        diagnostics,
                        open: _,
                        limit,
                    } = p;
                    Parser {
                        module,
                        files,
                        functions,
                        publics,
                        cfi,
                        win,
                        diagnostics,
                        open: Open::Function(f),
                        limit,
                    }
                } else {
                    p.note(Defect::OutsideModule, number)
                }
            },
        }
    }

    fn source_line(self, line: &[u8], number: u64) -> (p: Parser)
        ensures
            p@ == after_source_line(self@, line@, number),
            p.limit == self.limit,
    {
        proof {
            use_type_invariant(&self);
        }
        let Parser { module, files, functions, publics, cfi, win, diagnostics, open, limit } = self;
        match open {
            Open::Function(f) => match parse_source_line(line) {
                None => {
                    let p = Parser {
                        module,
                        files,
                        functions,
                        publics,
                        cfi,
                        win,
                        diagnostics,
                        open: Open::Function(f),
                        limit,
                    };
                    p.note(Defect::MalformedSourceLine, number)
                },
                Some(l) => Parser {
                    module,
                    files,
                    functions,
                    publics,
                    cfi,
                    win,
                    diagnostics,
                    open: Open::Function(f.with_line(l)),
                    limit,
                },
            },
            open => {
                let p = Parser { module, files, functions, publics, cfi, win, diagnostics, open, limit };
                p.close().note(Defect::OrphanSourceLine, number)
            },
        }
    }

    fn public_line(self, line: &[u8], number: u64) -> (p: Parser)
        ensures
            p@ == after_public(self@, line@, number, self.limit),
            p.limit == self.limit,
    {
        let p = self.close();
        match parse_public(line) {
            None => p.note(Defect::MalformedPublic, number),
            Some(symbol) => {
                if in_module(p.limit, symbol.address) {
                    proof {
                        use_type_invariant(&p);
                    }
                    let Parser {
                        module,
                        files,
                        functions,
                        mut publics,
                        cfi,
                        win,
                        diagnostics,
                        open,
                        limit,
                    } = p;
                    let _ = insert_record(&mut publics, symbol);
                    Parser { module, files, functions, publics, cfi, win, diagnostics, open, limit }
                } else {
                    p.note(Defect::OutsideModule, number)
                }
            },
        }
    }

    fn cfi_init_line(self, line: &[u8], number: u64) -> (p: Parser)
        ensures
            p@ == after_cfi_init(self@, line@, number, self.limit),
            p.limit == self.limit,
    {
        let p = self.close();
        match parse_cfi_init(line) {
            None => p.note(Defect::MalformedCfiInit, number),
            Some(c) => {
                if in_module(p.limit, c.init().address) {
                    proof {
                        use_type_invariant(&p);
                    }
                    let Parser {
                        module,
                        files,
                        functions,
                        publics,
                        cfi,
                        win,
                        diagnostics,
                        open: _,
                        limit,
                    } = p;
                    Parser {
                        module,
                        files,
                        functions,
                        publics,
                        cfi,
                        win,
                        diagnostics,
                        open: Open::Cfi(c),
                        limit,
                    }
                } else {
                    p.note(Defect::OutsideModule, number)
                }
            },
        }
    }

    fn cfi_delta_line(self, line: &[u8], number: u64) -> (p: Parser)
        ensures
            p@ == after_cfi_delta(self@, line@, number),
            p.limit == self.limit,
    {
        proof {
            use_type_invariant(&self);
        }
        let Parser { module, files, functions, publics, cfi, win, diagnostics, open, limit } = self;
        match open {
            Open::Cfi(c) => {
                let rules = parse_cfi_delta(line);
                let covered = match &rules {
                    Some(r) => c.covers(r.address),
                    None => false,
                };
                match rules {
                    Some(r) => if covered {
                        Parser {
                            module,
                            files,
                            functions,
                            publics,
                            cfi,
                            win,
                            diagnostics,
                            open: Open::Cfi(c.with_rules(r)),
                            limit,
                        }
                    } else {
                        let p = Parser {
                            module,
                            files,
                            functions,
                            publics,
                            cfi,
                            win,
                            diagnostics,
                            open: Open::Cfi(c),
                            limit,
                        };
                        p.note(Defect::OrphanCfi, number)
                    },
                    None => {
                        let p = Parser {
                            module,
                            files,
                            functions,
                            publics,
                            cfi,
                            win,
                            diagnostics,
                            open: Open::Cfi(c),
                            limit,
                        };
                        p.note(Defect::MalformedCfi, number)
                    },
                }
            },
            open => {
                let p = Parser { module, files, functions, publics, cfi, win, diagnostics, open, limit };
                p.close().note(Defect::OrphanCfi, number)
            },
        }
    }

    fn win_line(self, line: &[u8], number: u64) -> (p: Parser)
        ensures
            p@ == after_win(self@, line@, number, self.limit),
            p.limit == self.limit,
    {
        let p = self.close();
        match parse_win(line) {
            None => p.note(Defect::MalformedWin, number),
            Some(w) => {
                if in_module(p.limit, w.address) {
                    proof {
                        use_type_invariant(&p);
                    }
                    let Parser {
                        module,
                        files,
                        functions,
                        publics,
                        cfi,
                        mut win,
                        diagnostics,
                        open,
                        limit,
                    } = p;
                    let _ = insert_record(&mut win, w);
                    Parser { module, files, functions, publics, cfi, win, diagnostics, open, limit }
                } else {
                    p.note(Defect::OutsideModule, number)
                }
            },
        }
    }

    /// Takes the line `line`, the `number`-th of the file.
    fn feed(self, line: &[u8], number: u64) -> (r: Result<Parser, ParseError>)
        ensures
            match absorb(self@, line@, number, self.limit) {
                Ok(v) => r matches Ok(p) && p@ == v && p.limit == self.limit,
                Err(e) => r matches Err(f) && f == e,
            },
    {
        match classify(line) {
            LineKind::Module => self.module_line(line, number),
            LineKind::File => Ok(self.file_line(line, number)),
            LineKind::Function => Ok(self.function_line(line, number)),
            LineKind::SourceLine => Ok(self.source_line(line, number)),
            LineKind::Public => Ok(self.public_line(line, number)),
            LineKind::CfiInit => Ok(self.cfi_init_line(line, number)),
            LineKind::CfiDelta => Ok(self.cfi_delta_line(line, number)),
            LineKind::Win => Ok(self.win_line(line, number)),
            LineKind::Other => Ok(self),
        }
    }

    /// Ends the file.
    fn finish(self) -> (r: Result<SymbolFile, ParseError>)
        ensures
            parsed_view(r) == finished(self@),
    {
        let p = self.close();
        proof {
            use_type_invariant(&p);
        }
        if p.module.is_none() && p.functions.len() == 0 && p.publics.len() == 0 {
            return Err(ParseError { defect: Defect::NothingRecognized, line: 1 });
        }
        let Parser { module, files, functions, publics, cfi, win, diagnostics, open: _, limit: _ } = p;
        Ok(SymbolFile::from_tables(module, files, functions, publics, cfi, win, diagnostics))
    }
}

/// Whether a record that starts at `address` lies in a module of the given
/// size.
fn in_module(limit: Option<u64>, address: u64) -> (r: bool)
    ensures
        r == within(limit, address),
{
    match limit {
        Some(size) => address < size,
        None => true,
    }
}

/// The line without the carriage return that may end it.
fn trim_cr(line: &[u8]) -> (r: &[u8])
    ensures
        r@ == without_cr(line@),
{
    if line.len() > 0 && line[line.len() - 1] == CARRIAGE_RETURN {
        let r = bytes_between(line, 0, line.len() - 1);
        r
    } else {
        line
    }
}

/// Reads the symbol file `bytes` for a module of the given size. Without a
/// size, records at every address are kept.
pub fn parse(bytes: &[u8], limit: Option<u64>) -> (r: Result<SymbolFile, ParseError>)
    ensures
        parsed_view(r) == parse_spec(bytes@, limit),
{
    let mut parser = Parser::new(limit);
    let mut pos: usize = 0;
    let mut count: u64 = 0;
    while pos < bytes.len()
        invariant
            pos <= bytes.len(),
            count <= pos,
            parser.limit == limit,
            read_from(bytes@, 0, 0, nothing_read(), limit) == read_from(
                bytes@,
                pos as int,
                count as nat,
                parser@,
                limit,
            ),
        decreases bytes.len() - pos,
    {
        let end = find_byte(bytes, pos, NEWLINE);
        let line = trim_cr(bytes_between(bytes, pos, end));
        count = count + 1;
        match parser.feed(line, count) {
            Err(e) => {
                return Err(e);
            },
            Ok(p) => {
                parser = p;
            },
        }
        if end < bytes.len() {
            pos = end + 1;
        } else {
            pos = end;
        }
    }
    parser.finish()
}

/// Whether the error `e` reports the failure `failure` to read a file.
pub open spec fn reports(e: SymbolError, failure: ParseError) -> bool {
    e matches SymbolError::ParseError(tag, line) && tag@ == failure.defect.tag_text() && line
        == failure.line
}

/// Whether `r` is what reading a file gave, with a failure reported as an
/// error of the symbol search.
pub open spec fn is_outcome_of(
    r: Result<SymbolFile, SymbolError>,
    parsed: Result<SymbolFileView, ParseError>,
) -> bool {
    match parsed {
        Ok(v) => r matches Ok(file) && file@ == v,
        Err(failure) => r matches Err(e) && reports(e, failure),
    }
}

impl SymbolFile {
    /// Reads a symbol file, keeping the records at every address.
    pub fn from_bytes(bytes: &[u8]) -> (r: Result<SymbolFile, SymbolError>)
        ensures
            is_outcome_of(r, parse_spec(bytes@, None)),
    {
        SymbolFile::from_bytes_within(bytes, None)
    }

    /// Reads a symbol file for a module of the given size: a record that
    /// starts at or beyond that size is left out. Without a size, records at
    /// every address are kept.
    pub fn from_bytes_within(bytes: &[u8], size: Option<u64>) -> (r: Result<
        SymbolFile,
        SymbolError,
    >)
        ensures
            is_outcome_of(r, parse_spec(bytes@, size)),
    {
        match parse(bytes, size) {
            Ok(file) => Ok(file),
            Err(failure) => Err(SymbolError::ParseError(failure.defect.tag(), failure.line)),
        }
    }

    /// What reading a symbol file from a store gave: an error of the store
    /// is a `LoadError`, and what was read is taken as `from_bytes_within`
    /// takes it.
    pub fn from_read(read: Result<Vec<u8>, std::io::Error>, size: Option<u64>) -> (r: Result<
        SymbolFile,
        SymbolError,
    >)
        ensures
            match read {
                Ok(bytes) => is_outcome_of(r, parse_spec(bytes@, size)),
                Err(cause) => r matches Err(SymbolError::LoadError(e)) && e == cause,
            },
    {
        match read {
            Ok(bytes) => SymbolFile::from_bytes_within(bytes.as_slice(), size),
            Err(cause) => Err(SymbolError::LoadError(cause)),
        }
    }
}

/// Whether every table read so far stands in the order of its addresses,
/// and so does what is open.
pub open spec fn orderly(s: ParserView) -> bool {
    &&& sorted(s.functions)
    &&& forall|i: int| 0 <= i < s.functions.len() ==> sorted(#[trigger] s.functions[i].lines)
    &&& sorted(s.publics)
    &&& sorted(s.cfi)
    &&& forall|i: int| 0 <= i < s.cfi.len() ==> sorted(#[trigger] s.cfi[i].add_rules)
    &&& sorted(s.win)
    &&& match s.open {
        OpenBlock::Nothing => true,
        OpenBlock::Function(f) => sorted(f.lines),
        OpenBlock::Cfi(c) => sorted(c.add_rules),
    }
}

proof fn lemma_closed_orderly(s: ParserView)
    requires
        orderly(s),
    ensures
        orderly(closed(s)),
        closed(s).open is Nothing,
{
    let t = closed(s);
    match s.open {
        OpenBlock::Nothing => {},
        OpenBlock::Function(f) => {
            lemma_with_record_sorted(s.functions, f);
            lemma_rank_bounds(s.functions, f.address);
            let at = rank(s.functions, f.address);
            assert forall|i: int| 0 <= i < t.functions.len() implies sorted(
                #[trigger] t.functions[i].lines,
            ) by {
                if i < at {
                    assert(t.functions[i] == s.functions[i]);
                } else if i > at {
                    assert(t.functions[i] == s.functions[i - 1]);
                }
            }
        },
        OpenBlock::Cfi(c) => {
            lemma_with_record_sorted(s.cfi, c);
            lemma_rank_bounds(s.cfi, c.init.address);
            let at = rank(s.cfi, c.init.address);
            assert forall|i: int| 0 <= i < t.cfi.len() implies sorted(
                #[trigger] t.cfi[i].add_rules,
            ) by {
                if i < at {
                    assert(t.cfi[i] == s.cfi[i]);
                } else if i > at {
                    assert(t.cfi[i] == s.cfi[i - 1]);
                }
            }
        },
    }
}

proof fn lemma_absorb_orderly(s: ParserView, line: Seq<u8>, number: u64, limit: Option<u64>)
    requires
        orderly(s),
    ensures
        absorb(s, line, number, limit) matches Ok(t) ==> orderly(t),
{
    lemma_closed_orderly(s);
    let c = closed(s);
    match kind_of(line) {
        LineKind::SourceLine => {
            if let OpenBlock::Function(f) = s.open {
                if let Some(l) = source_line_record(line) {
                    lemma_with_record_sorted(f.lines, l);
                }
            }
        },
        LineKind::CfiDelta => {
            if let OpenBlock::Cfi(info) = s.open {
                if let Some(r) = cfi_delta_record(line) {
                    lemma_with_record_sorted(info.add_rules, r);
                }
            }
        },
        LineKind::Public => {
            if let Some(p) = public_record(line) {
                lemma_with_record_sorted(c.publics, p);
            }
        },
        LineKind::Win => {
            if let Some(w) = win_record(line) {
                lemma_with_record_sorted(c.win, w);
            }
        },
        _ => {},
    }
}

proof fn lemma_read_from_orderly(
    bytes: Seq<u8>,
    pos: int,
    count: nat,
    s: ParserView,
    limit: Option<u64>,
)
    requires
        orderly(s),
    ensures
        read_from(bytes, pos, count, s, limit) matches Ok(t) ==> orderly(t),
    decreases bytes.len() - pos,
{
    if 0 <= pos < bytes.len() {
        let end = scan_to(bytes, pos, NEWLINE);
        lemma_scan_to_bounds(bytes, pos, NEWLINE);
        let line = without_cr(bytes.subrange(pos, end));
        lemma_absorb_orderly(s, line, (count + 1) as u64, limit);
        if let Ok(t) = absorb(s, line, (count + 1) as u64, limit) {
            if end < bytes.len() {
                lemma_read_from_orderly(bytes, end + 1, count + 1, t, limit);
            }
        }
    }
}

/// Every table of a symbol file that was read stands in the order of its
/// addresses: the functions, the line table of each function, the public
/// symbols, the ranges of unwinding rules, the rules that come into force
/// inside each range, and the Windows unwinding data.
pub proof fn lemma_parsed_tables_are_ordered(bytes: Seq<u8>, limit: Option<u64>)
    ensures
        parse_spec(bytes, limit) matches Ok(file) ==> file.ordered(),
{
    lemma_read_from_orderly(bytes, 0, 0, nothing_read(), limit);
    if let Ok(s) = read_from(bytes, 0, 0, nothing_read(), limit) {
        lemma_closed_orderly(s);
    }
}

proof fn lemma_read_from_failure(
    bytes: Seq<u8>,
    pos: int,
    count: nat,
    s: ParserView,
    limit: Option<u64>,
)
    requires
        0 <= count <= pos,
        bytes.len() <= u64::MAX,
    ensures
        read_from(bytes, pos, count, s, limit) matches Err(e) ==> e.defect
            == Defect::MalformedModule && count < e.line <= bytes.len(),
    decreases bytes.len() - pos,
{
    if 0 <= pos < bytes.len() {
        let end = scan_to(bytes, pos, NEWLINE);
        lemma_scan_to_bounds(bytes, pos, NEWLINE);
        let line = without_cr(bytes.subrange(pos, end));
        if let Ok(t) = absorb(s, line, (count + 1) as u64, limit) {
            if end < bytes.len() {
                lemma_read_from_failure(bytes, end + 1, count + 1, t, limit);
            }
        }
    }
}

/// A symbol file that cannot be read fails for one of two reasons, and
/// names a line: a `MODULE` record that cannot be read, at the line of the
/// record; or the want of any `MODULE`, `FUNC` or `PUBLIC` record, at the
/// first line.
pub proof fn lemma_failure_names_a_line(bytes: Seq<u8>, limit: Option<u64>)
    requires
        bytes.len() <= u64::MAX,
    ensures
        parse_spec(bytes, limit) matches Err(e) ==> {
            ||| e.defect == Defect::MalformedModule && 1 <= e.line <= bytes.len()
            ||| e.defect == Defect::NothingRecognized && e.line == 1
        },
{
    lemma_read_from_failure(bytes, 0, 0, nothing_read(), limit);
}

} // verus!
