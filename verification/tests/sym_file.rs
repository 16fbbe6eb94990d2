use breakpad_symbols::error::SymbolError;
use breakpad_symbols::frame::SimpleFrame;
use breakpad_symbols::module::SimpleModule;
use breakpad_symbols::parser::{parse, ParseError};
use breakpad_symbols::records::{classify, LineKind, WinFrameType, WinStackThing};
use breakpad_symbols::scan::{parse_number, Radix};
use breakpad_symbols::sym_file::{Defect, Diagnostic, SymbolFile};

const SMALL: &[u8] = b"MODULE Linux x86 ABCD1234ABCD1234ABCDABCD12345678a foo
FILE 1 foo.c
FUNC 1000 30 10 some func
1000 30 100 1
";

#[test]
fn minimal_file_resolves_an_address() {
    let file = SymbolFile::from_bytes(SMALL).unwrap();
    let header = file.module().unwrap();
    assert_eq!(header.os, "Linux");
    assert_eq!(header.cpu, "x86");
    assert_eq!(header.debug_id, "ABCD1234ABCD1234ABCDABCD12345678a");
    assert_eq!(header.debug_file, "foo");
    assert!(file.diagnostics().is_empty());

    let symbol = file.symbol_at(0x1010).unwrap();
    assert_eq!(symbol.name, "some func");
    assert_eq!(symbol.address, 0x1000);
    assert_eq!(symbol.parameter_size, 0x10);
    let (line, path) = symbol.source.unwrap();
    assert_eq!(path, "foo.c");
    assert_eq!(line.line, 100);
    assert_eq!(line.address, 0x1000);
    assert_eq!(line.size, 0x30);

    let mut frame = SimpleFrame::with_instruction(0x1010);
    file.fill_symbol(&SimpleModule::default(), &mut frame).unwrap();
    assert_eq!(frame.function.unwrap(), "some func");
    assert_eq!(frame.function_base.unwrap(), 0x1000);
    assert_eq!(frame.parameter_size.unwrap(), 0x10);
    assert_eq!(frame.source_file.unwrap(), "foo.c");
    assert_eq!(frame.source_line.unwrap(), 100);
    assert_eq!(frame.source_line_base.unwrap(), 0x1000);
}

#[test]
fn address_past_the_last_function_has_no_symbol() {
    let file = SymbolFile::from_bytes(SMALL).unwrap();
    assert!(file.symbol_at(0x0fff).is_none());
    assert!(file.symbol_at(0x1000).is_some());
    assert!(file.symbol_at(0x102f).is_some());
    assert!(file.symbol_at(0x1030).is_none());
    // The nearest function below is still reported by the plain search.
    let below = file.function_at_or_containing(0x5000).unwrap();
    assert_eq!(below.name(), "some func");
    assert!(!below.contains(0x5000));
    assert!(file.function_at_or_containing(0xfff).is_none());

    let mut frame = SimpleFrame::with_instruction(0x1030);
    assert!(file.fill_symbol(&SimpleModule::default(), &mut frame).is_err());
    assert!(frame.function.is_none());
    assert!(frame.source_file.is_none());
}

#[test]
fn frame_addresses_are_relative_to_the_module_base() {
    let file = SymbolFile::from_bytes(SMALL).unwrap();
    let module = SimpleModule { base_address: Some(0x40_0000), ..SimpleModule::default() };
    let mut frame = SimpleFrame::with_instruction(0x40_1010);
    file.fill_symbol(&module, &mut frame).unwrap();
    assert_eq!(frame.function_base, Some(0x40_1000));
    assert_eq!(frame.source_line_base, Some(0x40_1000));
    let mut below = SimpleFrame::with_instruction(0x1010);
    assert!(file.fill_symbol(&module, &mut below).is_err());
}

#[test]
fn text_that_is_no_symbol_file_fails_with_a_line() {
    match SymbolFile::from_bytes(b"this is not a symbol file\n") {
        Err(SymbolError::ParseError(tag, line)) => {
            assert_eq!(tag, "no MODULE, FUNC or PUBLIC record");
            assert_eq!(line, 1);
        }
        other => panic!("unexpected: {:?}", other.map(|_| ())),
    }
    assert_eq!(
        parse(b"", None).err(),
        Some(ParseError { defect: Defect::NothingRecognized, line: 1 })
    );
    assert_eq!(
        parse(b"FILE 1 a.c\nSTACK WIN 4 1000 10 0 0 0 0 0 0 1 $eip\n", None).err(),
        Some(ParseError { defect: Defect::NothingRecognized, line: 1 })
    );
}

#[test]
fn malformed_header_fails_at_its_line() {
    assert_eq!(
        parse(b"MODULE Linux x86 abcd1234\n", None).err(),
        Some(ParseError { defect: Defect::MalformedModule, line: 1 })
    );
    assert_eq!(
        parse(b"FUNC 10 1 0 f\n\nMODULE Linux x86 wxyz foo\n", None).err(),
        Some(ParseError { defect: Defect::MalformedModule, line: 3 })
    );
    match SymbolFile::from_bytes(b"PUBLIC 1 0 p\nMODULE\n") {
        Err(SymbolError::ParseError(tag, line)) => {
            assert_eq!(tag, "malformed MODULE record");
            assert_eq!(line, 2);
        }
        other => panic!("unexpected: {:?}", other.map(|_| ())),
    }
}

#[test]
fn header_alone_is_a_file() {
    let file = SymbolFile::from_bytes(b"MODULE Linux x86 abcd1234 foo\n").unwrap();
    assert_eq!(file.function_count(), 0);
    assert_eq!(file.public_count(), 0);
    assert!(file.symbol_at(0).is_none());
    assert_eq!(file.module().unwrap().debug_file, "foo");
    // Neither the last newline nor a carriage return matters.
    let file = SymbolFile::from_bytes(b"MODULE Linux x86 abcd1234 foo bar\r").unwrap();
    assert_eq!(file.module().unwrap().debug_file, "foo bar");
}

#[test]
fn records_without_a_header_are_a_file() {
    let file = SymbolFile::from_bytes(b"PUBLIC 20 4 entry\n").unwrap();
    assert!(file.module().is_none());
    assert_eq!(file.symbol_at(0x25).unwrap().name, "entry");
}

#[test]
fn malformed_records_are_noted_and_passed_over() {
    let text = b"MODULE Linux x86 abcd1234 foo
MODULE Linux x86_64 ffff bar
FILE x foo.c
FILE 2
FUNC zz 10 0 bad
10 1 1 1
FUNC 2000 10 0 good
2000 8 7 2 extra
2000 g 7 2
2008 8 8 2
PUBLIC 3000 0
PUBLIC 3000 1ffffffff name
STACK CFI INIT 2000 10
STACK CFI 2004 .cfa: $esp 8 +
STACK CFI INIT 2000 10 .cfa: $esp 4 + .ra: .cfa 4 - deref
STACK CFI 2010 .cfa: $esp 8 +
STACK CFI x
STACK WIN 4 2000 10 0 0 0 0 0 0 2 x
STACK WIN 9 2000 10 0 0 0 0 0 0 1 x
STACK WEIRD 1 2 3
INFO CODE_ID ABCDEF
 FUNC 1 1 1 indented

FUNC 18446744073709551616 1 0 wide
";
    let file = SymbolFile::from_bytes(text).unwrap();
    let expected = vec![
        Diagnostic { defect: Defect::RepeatedModule, line: 2 },
        Diagnostic { defect: Defect::MalformedFile, line: 3 },
        Diagnostic { defect: Defect::MalformedFile, line: 4 },
        Diagnostic { defect: Defect::MalformedFunction, line: 5 },
        Diagnostic { defect: Defect::OrphanSourceLine, line: 6 },
        Diagnostic { defect: Defect::MalformedSourceLine, line: 8 },
        Diagnostic { defect: Defect::MalformedSourceLine, line: 9 },
        Diagnostic { defect: Defect::MalformedPublic, line: 11 },
        Diagnostic { defect: Defect::MalformedPublic, line: 12 },
        Diagnostic { defect: Defect::MalformedCfiInit, line: 13 },
        Diagnostic { defect: Defect::OrphanCfi, line: 14 },
        Diagnostic { defect: Defect::OrphanCfi, line: 16 },
        Diagnostic { defect: Defect::MalformedCfi, line: 17 },
        Diagnostic { defect: Defect::MalformedWin, line: 18 },
        Diagnostic { defect: Defect::MalformedWin, line: 19 },
        Diagnostic { defect: Defect::MalformedFunction, line: 24 },
    ];
    assert_eq!(file.diagnostics(), &expected);
    assert_eq!(file.module().unwrap().cpu, "x86");
    assert_eq!(file.function_count(), 1);
    let good = file.function_at_or_containing(0x2009).unwrap();
    assert_eq!(good.name(), "good");
    assert_eq!(good.lines().len(), 1);
    assert_eq!(good.lines()[0].line, 8);
    assert!(file.file_path(2).is_none());
    // The function is found, its file is not known: no source line.
    let symbol = file.symbol_at(0x2009).unwrap();
    assert_eq!(symbol.name, "good");
    assert!(symbol.source.is_none());
    let cfi = file.cfi_rules_for(0x2005).unwrap();
    assert_eq!(cfi.init().rules, b".cfa: $esp 4 + .ra: .cfa 4 - deref");
    assert!(cfi.add_rules().is_empty());
    assert!(file.win_frame_data_for(0x2005).is_none());
}

#[test]
fn tables_are_kept_in_the_order_of_their_addresses() {
    let text = b"MODULE Linux x86 abcd1234 foo
FILE 7 b.c
FILE 7 a.c
FUNC 3000 10 0 third
3008 8 2 7
3000 8 1 7
FUNC 1000 10 4 first
FUNC 2000 10 8 second
FUNC 2000 20 8 second again
PUBLIC 5000 0 pub five
PUBLIC 4000 0 pub four
STACK CFI INIT 3000 10 .cfa: $esp 4 +
STACK CFI 3008 .cfa: $esp 12 +
STACK CFI 3004 .cfa: $esp 8 +
STACK CFI INIT 1000 10 .cfa: $esp 4 +
STACK WIN 4 3000 10 1 2 3 4 5 6 1 $T0 $ebp =
STACK WIN 0 1000 10 1 2 3 4 5 6 0 1
";
    let file = SymbolFile::from_bytes(text).unwrap();
    assert!(file.diagnostics().is_empty());
    assert_eq!(file.function_count(), 4);
    assert_eq!(file.public_count(), 2);
    assert_eq!(file.file_path(7), Some("a.c"));
    assert_eq!(file.function_at_or_containing(0x1fff).unwrap().name(), "first");
    // Of two functions at one address the later stands nearest.
    assert_eq!(file.function_at_or_containing(0x2000).unwrap().name(), "second again");
    assert_eq!(file.function_at_or_containing(0x2fff).unwrap().name(), "second again");
    assert_eq!(file.function_at_or_containing(0xffff_ffff_ffff_ffff).unwrap().name(), "third");

    let third = file.function_at_or_containing(0x3000).unwrap();
    assert_eq!(third.address(), 0x3000);
    assert_eq!(third.size(), 0x10);
    assert_eq!(third.parameter_size(), 0);
    let lines: Vec<u32> = third.lines().iter().map(|l| l.line).collect();
    assert_eq!(lines, vec![1, 2]);
    assert_eq!(file.line_at(third, 0x3007).unwrap().0.line, 1);
    assert_eq!(file.line_at(third, 0x3008).unwrap().0.line, 2);
    assert_eq!(file.line_at(third, 0x3008).unwrap().1, "a.c");
    assert!(file.line_at(third, 0x2fff).is_none());

    assert_eq!(file.public_at_or_below(0x4fff).unwrap().name, "pub four");
    assert_eq!(file.public_at_or_below(0x5000).unwrap().name, "pub five");
    assert!(file.public_at_or_below(0x3fff).is_none());

    let cfi = file.cfi_rules_for(0x3005).unwrap();
    assert_eq!(cfi.init().address, 0x3000);
    assert_eq!(cfi.size(), 0x10);
    assert!(cfi.covers(0x300f));
    assert!(!cfi.covers(0x3010));
    let deltas: Vec<u64> = cfi.add_rules().iter().map(|r| r.address).collect();
    assert_eq!(deltas, vec![0x3004, 0x3008]);
    assert_eq!(cfi.add_rules()[0].rules, b".cfa: $esp 8 +");
    assert_eq!(file.cfi_rules_for(0x2000).unwrap().init().address, 0x1000);
    assert!(file.cfi_rules_for(0xfff).is_none());

    let win = file.win_frame_data_for(0x3001).unwrap();
    assert_eq!(win.frame_type, WinFrameType::FrameData);
    assert_eq!(
        (win.address, win.size, win.prologue_size, win.epilogue_size),
        (0x3000, 0x10, 1, 2)
    );
    assert_eq!(
        (win.parameter_size, win.saved_register_size, win.local_size, win.max_stack_size),
        (3, 4, 5, 6)
    );
    assert!(win.covers(0x3001));
    match &win.program_string_or_base_pointer {
        WinStackThing::ProgramString(p) => assert_eq!(p, b"$T0 $ebp ="),
        other => panic!("unexpected: {:?}", other),
    }
    let fpo = file.win_frame_data_for(0x1001).unwrap();
    assert_eq!(fpo.frame_type, WinFrameType::Fpo);
    match &fpo.program_string_or_base_pointer {
        WinStackThing::AllocatesBasePointer(b) => assert!(*b),
        other => panic!("unexpected: {:?}", other),
    }
}

#[test]
fn public_symbol_stands_in_where_no_function_covers() {
    let text = b"MODULE Linux x86 abcd1234 foo
PUBLIC 900 0 early
FUNC 1000 10 0 f
PUBLIC 1008 4 inside
PUBLIC 2000 8 late
";
    let file = SymbolFile::from_bytes(text).unwrap();
    assert_eq!(file.symbol_at(0x950).unwrap().name, "early");
    assert_eq!(file.symbol_at(0x1009).unwrap().name, "f");
    // Past the end of `f` the symbol inside it is the nearest below.
    let inside = file.symbol_at(0x1010).unwrap();
    assert_eq!(inside.name, "inside");
    assert_eq!(inside.address, 0x1008);
    assert_eq!(inside.parameter_size, 4);
    assert!(inside.source.is_none());
    assert_eq!(file.symbol_at(0x2000).unwrap().name, "late");
    assert!(file.symbol_at(0x8ff).is_none());

    // A function that starts after a public symbol ends its reach.
    let text = b"PUBLIC 900 0 early\nFUNC 1000 10 0 f\n";
    let file = SymbolFile::from_bytes(text).unwrap();
    assert_eq!(file.symbol_at(0xfff).unwrap().name, "early");
    assert!(file.symbol_at(0x1010).is_none());
}

#[test]
fn records_beyond_the_module_are_left_out() {
    let text = b"MODULE Linux x86 abcd1234 foo
FUNC 1000 10 0 inside
1000 10 1 1
FUNC 2000 10 0 outside
2000 10 2 1
PUBLIC 1fff 0 last inside
PUBLIC 2000 0 first outside
STACK CFI INIT 2000 10 .cfa: $esp
STACK WIN 4 2000 10 0 0 0 0 0 0 1 x
";
    let file = SymbolFile::from_bytes_within(text, Some(0x2000)).unwrap();
    assert_eq!(file.function_count(), 1);
    assert_eq!(file.public_count(), 1);
    assert!(file.cfi_rules_for(0x2000).is_none());
    assert!(file.win_frame_data_for(0x2000).is_none());
    let expected = vec![
        Diagnostic { defect: Defect::OutsideModule, line: 4 },
        Diagnostic { defect: Defect::OrphanSourceLine, line: 5 },
        Diagnostic { defect: Defect::OutsideModule, line: 7 },
        Diagnostic { defect: Defect::OutsideModule, line: 8 },
        Diagnostic { defect: Defect::OutsideModule, line: 9 },
    ];
    assert_eq!(file.diagnostics(), &expected);
    let all = SymbolFile::from_bytes(text).unwrap();
    assert_eq!(all.function_count(), 2);
    assert!(all.diagnostics().is_empty());
    let none = SymbolFile::from_bytes_within(text, Some(0)).unwrap();
    assert_eq!(none.function_count(), 0);
}

#[test]
fn names_must_be_utf8() {
    let file = SymbolFile::from_bytes(b"MODULE Linux x86 abcd1234 foo\nFUNC 1 1 0 na\xc3\xafve\nPUBLIC 9 0 \xff\n").unwrap();
    assert_eq!(file.function_at_or_containing(1).unwrap().name(), "na\u{ef}ve");
    assert_eq!(file.public_count(), 0);
    assert_eq!(file.diagnostics(), &vec![Diagnostic { defect: Defect::MalformedPublic, line: 3 }]);
}

#[test]
fn what_was_read_from_a_store() {
    let read = SymbolFile::from_read(Ok(SMALL.to_vec()), None).unwrap();
    assert_eq!(read.function_count(), 1);
    let failed = SymbolFile::from_read(
        Err(std::io::Error::new(std::io::ErrorKind::PermissionDenied, "no")),
        None,
    );
    match failed {
        Err(SymbolError::LoadError(e)) => assert_eq!(e.kind(), std::io::ErrorKind::PermissionDenied),
        other => panic!("unexpected: {:?}", other.map(|_| ())),
    }
    let corrupt = SymbolFile::from_read(Ok(b"garbage".to_vec()), None);
    assert!(matches!(corrupt, Err(SymbolError::ParseError(_, 1))));
}

#[test]
fn lines_are_told_apart_by_their_first_fields() {
    assert_eq!(classify(b"MODULE a b c d"), LineKind::Module);
    assert_eq!(classify(b"FILE 1 x"), LineKind::File);
    assert_eq!(classify(b"FUNC"), LineKind::Function);
    assert_eq!(classify(b"PUBLIC 1 2 x"), LineKind::Public);
    assert_eq!(classify(b"STACK CFI INIT 1 2 x"), LineKind::CfiInit);
    assert_eq!(classify(b"STACK  CFI   INIT 1 2 x"), LineKind::CfiInit);
    assert_eq!(classify(b"STACK CFI 1 x"), LineKind::CfiDelta);
    assert_eq!(classify(b"STACK CFI"), LineKind::CfiDelta);
    assert_eq!(classify(b"STACK WIN 4"), LineKind::Win);
    assert_eq!(classify(b"STACK"), LineKind::Other);
    assert_eq!(classify(b"1f 2 3 4"), LineKind::SourceLine);
    assert_eq!(classify(b"FACE"), LineKind::SourceLine);
    assert_eq!(classify(b"FUNCTION 1"), LineKind::Other);
    assert_eq!(classify(b"func 1"), LineKind::Other);
    assert_eq!(classify(b""), LineKind::Other);
    assert_eq!(classify(b" 1f"), LineKind::Other);
    assert_eq!(classify(b"INLINE 0 1 2 3"), LineKind::Other);
}

#[test]
fn numbers_are_read_to_their_limit() {
    assert_eq!(parse_number(b"ff", Radix::Hexadecimal, u64::MAX), Some(0xff));
    assert_eq!(parse_number(b"FfFf", Radix::Hexadecimal, u64::MAX), Some(0xffff));
    assert_eq!(parse_number(b"ffffffffffffffff", Radix::Hexadecimal, u64::MAX), Some(u64::MAX));
    assert_eq!(parse_number(b"10000000000000000", Radix::Hexadecimal, u64::MAX), None);
    assert_eq!(parse_number(b"000000000000000000001", Radix::Hexadecimal, u64::MAX), Some(1));
    assert_eq!(parse_number(b"4294967295", Radix::Decimal, 0xffff_ffff), Some(4294967295));
    assert_eq!(parse_number(b"4294967296", Radix::Decimal, 0xffff_ffff), None);
    assert_eq!(parse_number(b"12a", Radix::Decimal, u64::MAX), None);
    assert_eq!(parse_number(b"", Radix::Decimal, u64::MAX), None);
    assert_eq!(parse_number(b"-1", Radix::Decimal, u64::MAX), None);
    assert_eq!(parse_number(b"0x10", Radix::Hexadecimal, u64::MAX), None);
    assert_eq!(parse_number(b"0", Radix::Decimal, 0), Some(0));
    assert_eq!(parse_number(b"1", Radix::Decimal, 0), None);
}

#[test]
fn line_ends_and_spacing_do_not_matter() {
    let unix = SymbolFile::from_bytes(SMALL).unwrap();
    let dos = SymbolFile::from_bytes(
        b"MODULE Linux x86 ABCD1234ABCD1234ABCDABCD12345678a foo\r\nFILE 1 foo.c\r\nFUNC 1000 30 10 some func\r\n1000 30 100 1\r\n",
    )
    .unwrap();
    assert_eq!(unix, dos);
    let open_ended = SymbolFile::from_bytes(
        b"MODULE Linux x86 ABCD1234ABCD1234ABCDABCD12345678a foo\nFILE 1 foo.c\nFUNC 1000 30 10 some func\n1000 30 100 1",
    )
    .unwrap();
    assert_eq!(unix, open_ended);
    let spaced = SymbolFile::from_bytes(
        b"MODULE  Linux   x86 ABCD1234ABCD1234ABCDABCD12345678a    foo\n\n\nFILE   1   foo.c\nFUNC  1000  30  10  some func\n1000   30  100  1  \n",
    )
    .unwrap();
    assert_eq!(unix.symbol_at(0x1010).map(|s| s.name), spaced.symbol_at(0x1010).map(|s| s.name));
    assert_eq!(spaced.function_at_or_containing(0x1000).unwrap().lines().len(), 1);
    // A name keeps the spaces inside it, and those that end it.
    let named = SymbolFile::from_bytes(b"FUNC 1 1 0 operator  new \n").unwrap();
    assert_eq!(named.function_at_or_containing(1).unwrap().name(), "operator  new ");
    // Lines are counted, blank ones too.
    assert_eq!(
        parse(b"\n\r\n\nMODULE x\n", None).err(),
        Some(ParseError { defect: Defect::MalformedModule, line: 4 })
    );
}

#[test]
fn defects_have_their_words() {
    assert_eq!(Defect::MalformedModule.tag(), "malformed MODULE record");
    assert_eq!(Defect::NothingRecognized.tag(), "no MODULE, FUNC or PUBLIC record");
    assert_eq!(Defect::RepeatedModule.tag(), "repeated MODULE record");
    assert_eq!(Defect::MalformedFile.tag(), "malformed FILE record");
    assert_eq!(Defect::MalformedFunction.tag(), "malformed FUNC record");
    assert_eq!(Defect::MalformedSourceLine.tag(), "malformed line record");
    assert_eq!(Defect::OrphanSourceLine.tag(), "line record outside a function");
    assert_eq!(Defect::MalformedPublic.tag(), "malformed PUBLIC record");
    assert_eq!(Defect::MalformedCfiInit.tag(), "malformed STACK CFI INIT record");
    assert_eq!(Defect::MalformedCfi.tag(), "malformed STACK CFI record");
    assert_eq!(Defect::OrphanCfi.tag(), "STACK CFI record outside a STACK CFI INIT range");
    assert_eq!(Defect::MalformedWin.tag(), "malformed STACK WIN record");
    assert_eq!(Defect::OutsideModule.tag(), "record outside the module");
}

#[test]
fn records_close_what_was_open() {
    // A line table ends at the next record of another kind, whether that
    // record can be read or not.
    let text = b"FUNC 1000 10 0 f
1000 8 1 1
PUBLIC zz 0 broken
1008 8 2 1
FUNC 2000 10 0 g
2000 8 3 1
STACK CFI 2000 .cfa: 1
2008 8 4 1
STACK CFI INIT 3000 10 .cfa: 1
3000 8 5 1
STACK CFI 3004 .cfa: 2
";
    let file = SymbolFile::from_bytes(text).unwrap();
    let expected = vec![
        Diagnostic { defect: Defect::MalformedPublic, line: 3 },
        Diagnostic { defect: Defect::OrphanSourceLine, line: 4 },
        Diagnostic { defect: Defect::OrphanCfi, line: 7 },
        Diagnostic { defect: Defect::OrphanSourceLine, line: 8 },
        Diagnostic { defect: Defect::OrphanSourceLine, line: 10 },
        Diagnostic { defect: Defect::OrphanCfi, line: 11 },
    ];
    assert_eq!(file.diagnostics(), &expected);
    assert_eq!(file.function_at_or_containing(0x1000).unwrap().lines().len(), 1);
    assert_eq!(file.function_at_or_containing(0x2000).unwrap().lines().len(), 1);
    assert!(file.cfi_rules_for(0x3000).unwrap().add_rules().is_empty());
}
