use breakpad_symbols::module::SimpleModule;
use breakpad_symbols::sym_file::SymbolFile;
use breakpad_symbols::walker::{
    apply_op, collect_rules, eval_expression, run_program, token_at, unwind_by_fpo,
    unwind_by_program, unwind_by_rules, walk_with_stack_cfi, walk_with_stack_win, BinaryOp,
    Binding, CalleeFrame, CallerFrame, FrameWalker, RegisterNames, Rule, SimpleWalker, StackItem,
    Token,
};
use std::collections::HashMap;

#[derive(Clone, Debug, Default, PartialEq)]
struct TestWalker {
    instruction: u64,
    callee: HashMap<String, u64>,
    memory: HashMap<u64, u64>,
    settable: Vec<String>,
    cfa: Option<u64>,
    ra: Option<u64>,
    caller: HashMap<String, u64>,
}

impl TestWalker {
    fn new(instruction: u64, callee: &[(&str, u64)], memory: &[(u64, u64)]) -> TestWalker {
        TestWalker {
            instruction,
            callee: callee.iter().map(|(n, v)| (n.to_string(), *v)).collect(),
            memory: memory.iter().cloned().collect(),
            settable: vec!["$ebp".to_string(), "$ebx".to_string(), "x19".to_string()],
            ..TestWalker::default()
        }
    }
}

impl FrameWalker for TestWalker {
    // The three that follow stand in contracts only and are never called.
    fn callee(&self) -> CalleeFrame {
        unreachable!()
    }
    fn caller(&self) -> CallerFrame {
        unreachable!()
    }
    fn settable(&self) -> RegisterNames {
        unreachable!()
    }
    fn get_instruction(&self) -> u64 {
        self.instruction
    }
    fn get_callee_register(&self, name: &str) -> Option<u64> {
        self.callee.get(name).cloned()
    }
    fn get_register_at_address(&self, address: u64) -> Option<u64> {
        self.memory.get(&address).cloned()
    }
    fn set_caller_register(&mut self, name: &str, val: u64) -> Option<()> {
        if self.settable.iter().any(|n| n == name) {
            self.caller.insert(name.to_string(), val);
            Some(())
        } else {
            None
        }
    }
    fn set_cfa(&mut self, val: u64) {
        self.cfa = Some(val);
    }
    fn set_ra(&mut self, val: u64) {
        self.ra = Some(val);
    }
}

fn eval(program: &str, walker: &TestWalker, cfa: Option<u64>) -> Option<u64> {
    eval_expression(program.as_bytes(), walker, cfa)
}

#[test]
fn words_of_a_program() {
    let program = b"12 -3 + - * / % & | ^ @ = deref dup $esp .cfa 18446744073709551615 18446744073709551616 1x -";
    let mut tokens = Vec::new();
    let mut start = 0;
    for word in program.split(|b| *b == b' ') {
        tokens.push(token_at(program, start, start + word.len()));
        start += word.len() + 1;
    }
    assert_eq!(
        tokens,
        vec![
            Some(Token::Literal(12)),
            Some(Token::Literal(0u64.wrapping_sub(3))),
            Some(Token::Op(BinaryOp::Add)),
            Some(Token::Op(BinaryOp::Sub)),
            Some(Token::Op(BinaryOp::Mul)),
            Some(Token::Op(BinaryOp::Div)),
            Some(Token::Op(BinaryOp::Rem)),
            Some(Token::Op(BinaryOp::And)),
            Some(Token::Op(BinaryOp::Or)),
            Some(Token::Op(BinaryOp::Xor)),
            Some(Token::Op(BinaryOp::Align)),
            Some(Token::Assign),
            Some(Token::Deref),
            Some(Token::Dup),
            Some(Token::Name),
            Some(Token::Name),
            Some(Token::Literal(u64::MAX)),
            None,
            None,
            Some(Token::Op(BinaryOp::Sub)),
        ]
    );
}

#[test]
fn operators_on_two_values() {
    assert_eq!(apply_op(BinaryOp::Add, 5, 7), Some(12));
    assert_eq!(apply_op(BinaryOp::Add, u64::MAX, 2), Some(1));
    assert_eq!(apply_op(BinaryOp::Sub, 5, 7), Some(u64::MAX - 1));
    assert_eq!(apply_op(BinaryOp::Mul, 1 << 63, 2), Some(0));
    assert_eq!(apply_op(BinaryOp::Mul, 6, 7), Some(42));
    assert_eq!(apply_op(BinaryOp::Div, 42, 5), Some(8));
    assert_eq!(apply_op(BinaryOp::Div, 42, 0), None);
    assert_eq!(apply_op(BinaryOp::Rem, 42, 5), Some(2));
    assert_eq!(apply_op(BinaryOp::Rem, 42, 0), None);
    assert_eq!(apply_op(BinaryOp::And, 0b1100, 0b1010), Some(0b1000));
    assert_eq!(apply_op(BinaryOp::Or, 0b1100, 0b1010), Some(0b1110));
    assert_eq!(apply_op(BinaryOp::Xor, 0b1100, 0b1010), Some(0b0110));
    assert_eq!(apply_op(BinaryOp::Align, 0x1237, 16), Some(0x1230));
    assert_eq!(apply_op(BinaryOp::Align, 0x1237, 1), Some(0x1237));
    assert_eq!(apply_op(BinaryOp::Align, 0x1237, 0), None);
    assert_eq!(apply_op(BinaryOp::Align, 0x1237, 12), None);
    assert_eq!(apply_op(BinaryOp::Align, u64::MAX, 1 << 63), Some(1 << 63));
}

#[test]
fn expressions_are_evaluated_left_to_right() {
    let w = TestWalker::new(0, &[("$esp", 0x1000), ("$ebp", 0x2000)], &[(0x1004, 0xdead), (0xdead, 7)]);
    assert_eq!(eval("1 2 +", &w, None), Some(3));
    assert_eq!(eval("  10   4 -  ", &w, None), Some(6));
    assert_eq!(eval("4 10 -", &w, None), Some(0u64.wrapping_sub(6)));
    assert_eq!(eval("2 3 4 * +", &w, None), Some(14));
    assert_eq!(eval("$esp 4 +", &w, None), Some(0x1004));
    assert_eq!(eval("$esp 4 + deref", &w, None), Some(0xdead));
    assert_eq!(eval("$esp 4 + deref deref", &w, None), Some(7));
    assert_eq!(eval("$esp dup +", &w, None), Some(0x2000));
    assert_eq!(eval("$ebp 15 + 16 @", &w, None), Some(0x2000));
    assert_eq!(eval("$ebp -8 +", &w, None), Some(0x1ff8));
    assert_eq!(eval(".cfa 4 -", &w, Some(0x3000)), Some(0x2ffc));
    assert_eq!(eval("$esp", &w, None), Some(0x1000));
    assert_eq!(eval("7", &w, None), Some(7));
}

#[test]
fn expressions_that_have_no_value() {
    let w = TestWalker::new(0, &[("$esp", 0x1000)], &[]);
    // An unset register.
    assert_eq!(eval("$eax", &w, None), None);
    assert_eq!(eval("$eax 4 +", &w, None), None);
    assert_eq!(eval(".cfa 4 +", &w, None), None);
    // Too few operands.
    assert_eq!(eval("+", &w, None), None);
    assert_eq!(eval("1 +", &w, None), None);
    assert_eq!(eval("deref", &w, None), None);
    assert_eq!(eval("dup", &w, None), None);
    assert_eq!(eval("1 =", &w, None), None);
    // Memory that was not captured.
    assert_eq!(eval("$esp deref", &w, None), None);
    // More or less than one item left.
    assert_eq!(eval("", &w, None), None);
    assert_eq!(eval("1 2", &w, None), None);
    assert_eq!(eval("1 $x =", &w, None), None);
    // Words that are no words.
    assert_eq!(eval("1 2x +", &w, None), None);
    assert_eq!(eval("99999999999999999999", &w, None), None);
    assert_eq!(eval("1 0 /", &w, None), None);
    assert_eq!(eval("1 3 @", &w, None), None);
    // A number cannot be given a value.
    assert_eq!(eval("1 2 =", &w, None), None);
    // The walker is untouched and may be asked again.
    assert_eq!(eval("$esp", &w, None), Some(0x1000));
}

#[test]
fn evaluation_is_repeatable() {
    let w = TestWalker::new(0, &[("$esp", 0x1000)], &[(0x1000, 5)]);
    let v = w.clone();
    for program in ["$esp deref 3 *", "$esp $eax +", "1 2 3", "$esp 8 @"] {
        assert_eq!(eval(program, &w, Some(1)), eval(program, &w, Some(1)));
        assert_eq!(eval(program, &w, Some(1)), eval(program, &v, Some(1)));
    }
}

#[test]
fn programs_give_registers_values() {
    let w = TestWalker::new(0, &[("$ebp", 0x2000)], &[(0x2004, 0x4444), (0x2000, 0x3000)]);
    let program = b"$ebp $T0 = $T0 4 + deref $eip = $T0 deref $ebp = $T0 8 + $esp =";
    let (stack, assigned) = run_program(program, &w, None).unwrap();
    assert!(stack.is_empty());
    let names: Vec<(&[u8], u64)> =
        assigned.iter().map(|b| (&program[b.start..b.end], b.value)).collect();
    assert_eq!(
        names,
        vec![
            (&b"$T0"[..], 0x2000),
            (&b"$eip"[..], 0x4444),
            (&b"$ebp"[..], 0x3000),
            (&b"$esp"[..], 0x2008)
        ]
    );
    // What is left on the stack is given back as it stands.
    let (stack, assigned) = run_program(b"1 $ebp 2 $x =", &w, None).unwrap();
    assert_eq!(stack, vec![StackItem::Value(1), StackItem::Name { start: 2, end: 6 }]);
    assert_eq!(assigned, vec![Binding { start: 9, end: 11, value: 2 }]);
    // A register that the program gave a value is read from the program.
    let (_, assigned) = run_program(b"5 $ebp = $ebp 1 + $r =", &w, None).unwrap();
    assert_eq!(assigned[1].value, 6);
    let (_, assigned) = run_program(b"5 .cfa = .cfa $r =", &w, Some(9)).unwrap();
    assert_eq!(assigned[1].value, 5);
    assert!(run_program(b"$missing $x =", &w, None).is_none());
    assert_eq!(token_at(program, 3, 3), None);
    assert_eq!(token_at(program, 0, 1000), None);
}

fn rules(texts: &[&str]) -> Option<Vec<(String, String)>> {
    let mut rules: Vec<Rule> = Vec::new();
    for text in texts {
        if !collect_rules(text.as_bytes(), &mut rules) {
            return None;
        }
    }
    Some(
        rules
            .iter()
            .map(|r| {
                (
                    String::from_utf8(r.name.clone()).unwrap(),
                    String::from_utf8(r.program.clone()).unwrap().trim().to_string(),
                )
            })
            .collect(),
    )
}

#[test]
fn rules_are_read_from_their_text() {
    let pair = |a: &str, b: &str| (a.to_string(), b.to_string());
    assert_eq!(
        rules(&[".cfa: $esp 4 + .ra: .cfa 4 - deref"]),
        Some(vec![pair(".cfa", "$esp 4 +"), pair(".ra", ".cfa 4 - deref")])
    );
    assert_eq!(
        rules(&["  .cfa:   $esp  4 +  ", "$ebx: .cfa 8 - deref .cfa: $esp 8 +"]),
        Some(vec![
            pair(".cfa", "$esp  4 +"),
            pair("$ebx", ".cfa 8 - deref"),
            pair(".cfa", "$esp 8 +")
        ])
    );
    assert_eq!(rules(&["a: b: 1"]), Some(vec![pair("a", ""), pair("b", "1")]));
    assert_eq!(rules(&[""]), Some(vec![]));
    assert_eq!(rules(&["$esp 4 + .ra: 1"]), None);
    assert_eq!(rules(&[": 1"]), None);
    assert_eq!(rules(&[".cfa: 1", "2 .ra: 1"]), None);
}

fn rule_set(texts: &[&str]) -> Vec<Rule> {
    let mut rules: Vec<Rule> = Vec::new();
    for text in texts {
        assert!(collect_rules(text.as_bytes(), &mut rules));
    }
    rules
}

#[test]
fn rules_recover_the_caller() {
    let mut w = TestWalker::new(
        0x10,
        &[("$esp", 0x1000), ("$ebp", 0x1010)],
        &[(0x1000, 0x8000), (0x0ffc, 0x1234)],
    );
    let set = rule_set(&[".cfa: $esp 4 + .ra: .cfa 4 - deref $ebp: .cfa 8 - deref $eax: $nothing"]);
    assert_eq!(unwind_by_rules(&set, &mut w), Some(()));
    assert_eq!(w.cfa, Some(0x1004));
    assert_eq!(w.ra, Some(0x8000));
    assert_eq!(w.caller.get("$ebp"), Some(&0x1234));
    assert_eq!(w.caller.len(), 1);
}

#[test]
fn later_rules_replace_earlier_ones() {
    let mut w = TestWalker::new(0, &[("$esp", 0x1000)], &[(0x1004, 0x8000), (0x1000, 0x7000)]);
    let set = rule_set(&[
        ".cfa: $esp 4 + .ra: .cfa 4 - deref $ebx: 1",
        ".cfa: $esp 8 + $ebx: $nothing",
        "x19: 3 x19: 4",
    ]);
    assert_eq!(unwind_by_rules(&set, &mut w), Some(()));
    assert_eq!(w.cfa, Some(0x1008));
    assert_eq!(w.ra, Some(0x8000));
    // The rule in force for `$ebx` gives no value; the earlier one does not count.
    assert_eq!(w.caller.get("$ebx"), None);
    assert_eq!(w.caller.get("x19"), Some(&4));
}

#[test]
fn without_frame_or_return_address_there_is_no_caller() {
    let fresh = TestWalker::new(0, &[("$esp", 0x1000)], &[(0x1000, 0x8000)]);
    for text in [
        ".ra: 1 $ebp: 2",
        ".cfa: 1 $ebp: 2",
        ".cfa: $nothing .ra: 1",
        ".cfa: $esp .ra: .cfa 8 + deref $ebp: 2",
        ".cfa: 1 2 .ra: 1",
        "",
    ] {
        let mut w = fresh.clone();
        assert_eq!(unwind_by_rules(&rule_set(&[text]), &mut w), None, "{}", text);
        assert_eq!(w, fresh);
    }
    // A register that cannot be set is passed over.
    let mut w = fresh.clone();
    assert_eq!(unwind_by_rules(&rule_set(&[".cfa: 1 .ra: 2 $zzz: 3"]), &mut w), Some(()));
    assert!(w.caller.is_empty());
    assert_eq!((w.cfa, w.ra), (Some(1), Some(2)));
}

const UNWIND: &[u8] = b"MODULE Linux x86 abcd1234 foo
FUNC 1000 30 0 f
STACK CFI INIT 1000 30 .cfa: $esp 4 + .ra: .cfa 4 - deref
STACK CFI 1001 .cfa: $esp 8 + $ebp: .cfa 8 - deref
STACK CFI 1010 .cfa: $ebp 8 +
STACK WIN 4 2000 10 0 0 0 0 0 0 1 $ebp $T0 = $T0 4 + deref $eip = $T0 deref $ebp = $T0 8 + $esp =
STACK WIN 0 3000 10 0 0 0 8 10 0 0 1
STACK WIN 0 4000 10 0 0 0 8 10 0 0 0
";

#[test]
fn cfi_rules_in_force_depend_on_the_address() {
    let file = SymbolFile::from_bytes(UNWIND).unwrap();
    let info = file.cfi_rules_for(0x1000).unwrap();
    let fresh = TestWalker::new(
        0,
        &[("$esp", 0x5000), ("$ebp", 0x6000)],
        &[(0x5000, 0xaaaa), (0x5004, 0xbbbb), (0x6004, 0xcccc), (0x6000, 0x7000)],
    );

    let mut w = fresh.clone();
    assert_eq!(walk_with_stack_cfi(info, 0x1000, &mut w), Some(()));
    assert_eq!((w.cfa, w.ra), (Some(0x5004), Some(0xaaaa)));
    assert!(w.caller.is_empty());

    let mut w = fresh.clone();
    assert_eq!(walk_with_stack_cfi(info, 0x1005, &mut w), Some(()));
    assert_eq!((w.cfa, w.ra), (Some(0x5008), Some(0xbbbb)));
    assert_eq!(w.caller.get("$ebp"), Some(&0xaaaa));

    let mut w = fresh.clone();
    assert_eq!(walk_with_stack_cfi(info, 0x102f, &mut w), Some(()));
    assert_eq!((w.cfa, w.ra), (Some(0x6008), Some(0xcccc)));
    assert_eq!(w.caller.get("$ebp"), Some(&0x7000));

    // Outside the range nothing is recovered and nothing written.
    let mut w = fresh.clone();
    assert_eq!(walk_with_stack_cfi(info, 0x1030, &mut w), None);
    assert_eq!(w, fresh);
    let mut w = fresh.clone();
    assert_eq!(walk_with_stack_cfi(info, 0xfff, &mut w), None);
    assert_eq!(w, fresh);
}

#[test]
fn windows_program_recovers_the_caller() {
    let file = SymbolFile::from_bytes(UNWIND).unwrap();
    let info = file.win_frame_data_for(0x2004).unwrap();
    let fresh = TestWalker::new(0, &[("$ebp", 0x6000)], &[(0x6004, 0xcccc), (0x6000, 0x7000)]);
    let mut w = fresh.clone();
    assert_eq!(walk_with_stack_win(info, 0x2004, &mut w), Some(()));
    assert_eq!((w.cfa, w.ra), (Some(0x6008), Some(0xcccc)));
    assert_eq!(w.caller.get("$ebp"), Some(&0x7000));
    assert_eq!(w.caller.len(), 1);
    let mut w = fresh.clone();
    assert_eq!(walk_with_stack_win(info, 0x2010, &mut w), None);
    assert_eq!(w, fresh);

    let mut w = fresh.clone();
    assert_eq!(unwind_by_program(b"1 $eip = 2 $esp = 3 $ebp = 4 $ebp =", &mut w), Some(()));
    assert_eq!((w.cfa, w.ra), (Some(2), Some(1)));
    assert_eq!(w.caller.get("$ebp"), Some(&4));
    for program in ["1 $eip =", "2 $esp =", "1 $eip = 2 $esp = +", "$none $eip = 2 $esp ="] {
        let mut w = fresh.clone();
        assert_eq!(unwind_by_program(program.as_bytes(), &mut w), None, "{}", program);
        assert_eq!(w, fresh);
    }
}

#[test]
fn frame_pointer_omission_data_recover_the_caller() {
    let file = SymbolFile::from_bytes(UNWIND).unwrap();
    // The function saves 8 bytes of registers and has 0x10 bytes of locals.
    let fresh = TestWalker::new(
        0,
        &[("$esp", 0x5000), ("$ebp", 0x6000)],
        &[(0x5018, 0xaaaa), (0x5000, 0xbbbb)],
    );
    let saved = file.win_frame_data_for(0x3000).unwrap();
    let mut w = fresh.clone();
    assert_eq!(walk_with_stack_win(saved, 0x3000, &mut w), Some(()));
    assert_eq!((w.cfa, w.ra), (Some(0x501c), Some(0xaaaa)));
    assert_eq!(w.caller.get("$ebp"), Some(&0xbbbb));

    let kept = file.win_frame_data_for(0x4000).unwrap();
    let mut w = fresh.clone();
    assert_eq!(walk_with_stack_win(kept, 0x4000, &mut w), Some(()));
    assert_eq!((w.cfa, w.ra), (Some(0x501c), Some(0xaaaa)));
    assert_eq!(w.caller.get("$ebp"), Some(&0x6000));

    // A frame pointer that cannot be read is left out; the rest stands.
    let mut w = TestWalker::new(0, &[("$esp", 0x5000)], &[(0x5018, 0xaaaa)]);
    assert_eq!(unwind_by_fpo(saved, true, &mut w), Some(()));
    assert!(w.caller.is_empty());
    assert_eq!(w.ra, Some(0xaaaa));

    // Without the return address or the stack pointer there is no caller.
    let no_ra = TestWalker::new(0, &[("$esp", 0x5000)], &[(0x5000, 0xbbbb)]);
    let mut w = no_ra.clone();
    assert_eq!(unwind_by_fpo(saved, true, &mut w), None);
    assert_eq!(w, no_ra);
    let no_sp = TestWalker::new(0, &[("$ebp", 0x5000)], &[(0x5018, 0xaaaa)]);
    let mut w = no_sp.clone();
    assert_eq!(unwind_by_fpo(saved, false, &mut w), None);
    assert_eq!(w, no_sp);
    let high = TestWalker::new(0, &[("$esp", u64::MAX - 0x10)], &[]);
    let mut w = high.clone();
    assert_eq!(unwind_by_fpo(saved, false, &mut w), None);
    assert_eq!(w, high);
}

#[test]
fn a_file_walks_a_frame_by_its_unwinding_data() {
    let file = SymbolFile::from_bytes(UNWIND).unwrap();
    let module = SimpleModule { base_address: Some(0x40_0000), ..SimpleModule::default() };
    let fresh = TestWalker::new(
        0x40_1005,
        &[("$esp", 0x5000), ("$ebp", 0x6000)],
        &[(0x5004, 0xbbbb), (0x5000, 0xaaaa), (0x6004, 0xcccc), (0x6000, 0x7000)],
    );
    let mut w = fresh.clone();
    assert_eq!(file.walk_frame(&module, &mut w), Some(()));
    assert_eq!((w.cfa, w.ra), (Some(0x5008), Some(0xbbbb)));

    let mut w = TestWalker { instruction: 0x40_2001, ..fresh.clone() };
    assert_eq!(file.walk_frame(&module, &mut w), Some(()));
    assert_eq!((w.cfa, w.ra), (Some(0x6008), Some(0xcccc)));

    // Nothing covers the address; or the address lies below the module.
    for instruction in [0x40_2010, 0x40_0fff, 0x1005] {
        let before = TestWalker { instruction, ..fresh.clone() };
        let mut w = before.clone();
        assert_eq!(file.walk_frame(&module, &mut w), None);
        assert_eq!(w, before);
    }
}

#[test]
fn simple_walker_holds_what_was_captured_and_recovered() {
    let mut w = SimpleWalker::new(0x1005);
    assert_eq!(w.get_instruction(), 0x1005);
    assert_eq!(w.get_callee_register("$esp"), None);
    assert_eq!(w.get_register_at_address(0x5004), None);
    w.capture_register("$esp", 0x4000);
    w.capture_register("$esp", 0x5000);
    w.capture_memory(0x5004, 0xbbbb);
    w.capture_memory(0x5000, 0xaaaa);
    assert_eq!(w.get_callee_register("$esp"), Some(0x5000));
    assert_eq!(w.get_register_at_address(0x5004), Some(0xbbbb));
    assert_eq!((w.cfa(), w.ra()), (None, None));

    assert_eq!(w.set_caller_register("$ebp", 1), None);
    assert_eq!(w.caller_register("$ebp"), None);
    w.allow("$ebp");
    assert_eq!(w.set_caller_register("$ebp", 1), Some(()));
    assert_eq!(w.set_caller_register("$ebp", 2), Some(()));
    assert_eq!(w.set_caller_register("$ebx", 3), None);
    assert_eq!(w.caller_register("$ebp"), Some(2));
    assert_eq!(w.caller_register("$ebx"), None);

    let file = SymbolFile::from_bytes(UNWIND).unwrap();
    assert_eq!(file.walk_frame(&SimpleModule::default(), &mut w), Some(()));
    assert_eq!((w.cfa(), w.ra()), (Some(0x5008), Some(0xbbbb)));
    assert_eq!(w.caller_register("$ebp"), Some(0xaaaa));
    assert_eq!(w.get_callee_register("$esp"), Some(0x5000));
}
