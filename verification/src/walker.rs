//! Recovering the registers of a caller from the frame of its callee, by
//! the unwinding rules of a symbol file.
//!
//! The rules are programs in postfix notation, their words parted by
//! spaces. A number is pushed on a stack, and so is the name of a register;
//! an operator takes its operands from the stack and pushes what it
//! computes. A name stands for the value of its register wherever a value is
//! wanted, and for the register itself in front of `=`.

use crate::records::{
    same_bytes, StackInfoCfi, StackInfoCfiView, StackInfoWin, StackInfoWinView, WinStackThing,
    WinStackThingView,
};
use crate::module::SimpleModule;
use crate::sym_file::{SymbolFile, SymbolFileView};
use crate::table::{find_rank, nearest_below, rank, views};
use crate::scan::{
    bytes_between, find_byte, lemma_scan_to_bounds, lemma_skip_over_bounds, number_up_to,
    parse_number, scan_to, skip_byte, skip_over, text_value, Radix, SPACE,
};
use std::collections::HashMap;
use vstd::array::array_as_slice;
use vstd::hash_map::StringHashMap;
use vstd::prelude::*;
use vstd::slice::slice_to_vec;

verus! {

broadcast use vstd::std_specs::hash::group_hash_axioms;

/// What a frame knows of the callee: the instruction it executes, the
/// registers that were captured for it, and the memory that was captured,
/// word by word.
pub ghost struct CalleeFrame {
    pub instruction: u64,
    pub registers: Map<Seq<char>, u64>,
    pub memory: Map<u64, u64>,
}

/// What has been recovered of the caller: the address of its frame, the
/// address it returns to, and its registers.
pub ghost struct CallerFrame {
    pub cfa: Option<u64>,
    pub ra: Option<u64>,
    pub registers: Map<Seq<char>, u64>,
}

/// A set of names of registers.
pub type RegisterNames = Set<Seq<char>>;

/// The value under a key, where the map has the key.
pub open spec fn value_at<K, V>(m: Map<K, V>, k: K) -> Option<V> {
    if m.contains_key(k) {
        Some(m[k])
    } else {
        None
    }
}

/// Access to the frame of a callee, and to the frame of its caller as it
/// is being recovered. Reading leaves both as they are; writing changes the
/// caller's frame alone.
pub trait FrameWalker {
    /// What the frame knows of the callee.
    spec fn callee(&self) -> CalleeFrame;

    /// What has been recovered of the caller.
    spec fn caller(&self) -> CallerFrame;

    /// The names of the caller's registers that can be set.
    spec fn settable(&self) -> RegisterNames;

    /// The address of the instruction the callee executes.
    fn get_instruction(&self) -> (r: u64)
        ensures
            r == self.callee().instruction,
    ;

    /// The value of a register of the callee, where it was captured.
    fn get_callee_register(&self, name: &str) -> (r: Option<u64>)
        ensures
            r == value_at(self.callee().registers, name@),
    ;

    /// The word of memory at `address`, where it was captured.
    fn get_register_at_address(&self, address: u64) -> (r: Option<u64>)
        ensures
            r == value_at(self.callee().memory, address),
    ;

    /// Sets a register of the caller; does nothing, and says so, where the
    /// register is not one that can be set.
    fn set_caller_register(&mut self, name: &str, val: u64) -> (r: Option<()>)
        ensures
            final(self).callee() == old(self).callee(),
            final(self).settable() == old(self).settable(),
            r is Some <==> old(self).settable().contains(name@),
            final(self).caller() == if r is Some {
                CallerFrame {
                    registers: old(self).caller().registers.insert(name@, val),
                    ..old(self).caller()
                }
            } else {
                old(self).caller()
            },
    ;

    /// Sets the address of the caller's frame.
    fn set_cfa(&mut self, val: u64)
        ensures
            final(self).callee() == old(self).callee(),
            final(self).settable() == old(self).settable(),
            final(self).caller() == (CallerFrame { cfa: Some(val), ..old(self).caller() }),
    ;

    /// Sets the address the caller's frame was called from.
    fn set_ra(&mut self, val: u64)
        ensures
            final(self).callee() == old(self).callee(),
            final(self).settable() == old(self).settable(),
            final(self).caller() == (CallerFrame { ra: Some(val), ..old(self).caller() }),
    ;
}

/// A walker that holds what was captured of a callee, and what was
/// recovered of its caller, as plain data.
pub struct SimpleWalker {
    instruction: u64,
    registers: StringHashMap<u64>,
    memory: HashMap<u64, u64>,
    settable: StringHashMap<bool>,
    cfa: Option<u64>,
    ra: Option<u64>,
    caller: StringHashMap<u64>,
}

impl SimpleWalker {
    /// The frame of a callee that executes the instruction at
    /// `instruction`, with no register and no memory captured, and no
    /// register of the caller that can be set.
    pub fn new(instruction: u64) -> (walker: SimpleWalker)
        ensures
            walker.callee() == (CalleeFrame {
                instruction,
                registers: Map::empty(),
                memory: Map::empty(),
            }),
            walker.caller() == (CallerFrame { cfa: None, ra: None, registers: Map::empty() }),
            walker.settable() == Set::<Seq<char>>::empty(),
    {
        let walker = SimpleWalker {
            instruction,
            registers: StringHashMap::new(),
            memory: HashMap::new(),
            settable: StringHashMap::new(),
            cfa: None,
            ra: None,
            caller: StringHashMap::new(),
        };
        walker
    }

    /// Captures the value of a register of the callee.
    pub fn capture_register(&mut self, name: &str, value: u64)
        ensures
            final(self).callee() == (CalleeFrame {
                registers: old(self).callee().registers.insert(name@, value),
                ..old(self).callee()
            }),
            final(self).caller() == old(self).caller(),
            final(self).settable() == old(self).settable(),
    {
        self.registers.insert(name.to_owned(), value);
    }

    /// Captures the word of memory at `address`.
    pub fn capture_memory(&mut self, address: u64, value: u64)
        ensures
            final(self).callee() == (CalleeFrame {
                memory: old(self).callee().memory.insert(address, value),
                ..old(self).callee()
            }),
            final(self).caller() == old(self).caller(),
            final(self).settable() == old(self).settable(),
    {
        let _ = self.memory.insert(address, value);
    }

    /// Lets the register `name` of the caller be set.
    pub fn allow(&mut self, name: &str)
        ensures
            final(self).callee() == old(self).callee(),
            final(self).caller() == old(self).caller(),
            final(self).settable() == old(self).settable().insert(name@),
    {
        self.settable.insert(name.to_owned(), true);
    }

    /// The address of the caller's frame, where it was recovered.
    pub fn cfa(&self) -> (r: Option<u64>)
        ensures
            r == self.caller().cfa,
    {
        self.cfa
    }

    /// The address the caller's frame was called from, where it was
    /// recovered.
    pub fn ra(&self) -> (r: Option<u64>)
        ensures
            r == self.caller().ra,
    {
        self.ra
    }

    /// The value of a register of the caller, where it was recovered.
    pub fn caller_register(&self, name: &str) -> (r: Option<u64>)
        ensures
            r == value_at(self.caller().registers, name@),
    {
        match self.caller.get(name) {
            Some(value) => Some(*value),
            None => None,
        }
    }
}

impl FrameWalker for SimpleWalker {
    closed spec fn callee(&self) -> CalleeFrame {
        CalleeFrame {
            instruction: self.instruction,
            registers: self.registers@,
            memory: self.memory@,
        }
    }

    closed spec fn caller(&self) -> CallerFrame {
        CallerFrame { cfa: self.cfa, ra: self.ra, registers: self.caller@ }
    }

    closed spec fn settable(&self) -> RegisterNames {
        self.settable@.dom()
    }

    fn get_instruction(&self) -> (r: u64) {
        self.instruction
    }

    fn get_callee_register(&self, name: &str) -> (r: Option<u64>) {
        match self.registers.get(name) {
            Some(value) => Some(*value),
            None => None,
        }
    }

    fn get_register_at_address(&self, address: u64) -> (r: Option<u64>) {
        match self.memory.get(&address) {
            Some(value) => Some(*value),
            None => None,
        }
    }

    fn set_caller_register(&mut self, name: &str, val: u64) -> (r: Option<()>) {
        if self.settable.contains_key(name) {
            self.caller.insert(name.to_owned(), val);
            Some(())
        } else {
            None
        }
    }

    fn set_cfa(&mut self, val: u64) {
        self.cfa = Some(val);
    }

    fn set_ra(&mut self, val: u64) {
        self.ra = Some(val);
    }
}

/// The operators that take two values and give one.
#[derive(Clone, Copy, Debug, PartialEq, Eq, Structural)]
pub enum BinaryOp {
    /// `+`
    Add,
    /// `-`
    Sub,
    /// `*`
    Mul,
    /// `/`
    Div,
    /// `%`
    Rem,
    /// `&`
    And,
    /// `|`
    Or,
    /// `^`
    Xor,
    /// `@`: the first value, made a multiple of the second
    Align,
}

/// The words of a program.
#[derive(Clone, Copy, Debug, PartialEq, Eq, Structural)]
pub enum Token {
    /// A number in decimal digits, with `-` before it for its negative.
    Literal(u64),
    /// One of the operators on two values.
    Op(BinaryOp),
    /// `deref`: the word of memory at an address.
    Deref,
    /// `dup`: the top of the stack once more.
    Dup,
    /// `=`: gives the register named on top of the stack the value below.
    Assign,
    /// Any other word: the name of a register.
    Name,
}

/// What the stack of the machine holds: a value, or the name of a register,
/// which is the word of the program from `start` up to `end`.
#[derive(Clone, Copy, Debug, PartialEq, Eq, Structural)]
pub enum StackItem {
    Value(u64),
    Name { start: usize, end: usize },
}

/// A register that the program gave a value: its name is the word of the
/// program from `start` up to `end`.
#[derive(Clone, Copy, Debug, PartialEq, Eq, Structural)]
pub struct Binding {
    pub start: usize,
    pub end: usize,
    pub value: u64,
}

/// The state of the machine: its stack, the top last, and the registers
/// that the program gave values so far, the latest last.
pub ghost struct Machine {
    pub stack: Seq<StackItem>,
    pub assigned: Seq<Binding>,
}

/// What a program runs against: its own text, the frame of the callee, and
/// the address of the caller's frame where that is known already.
pub ghost struct Context {
    pub program: Seq<u8>,
    pub callee: CalleeFrame,
    pub cfa: Option<u64>,
}

/// `deref`
pub open spec fn word_deref() -> Seq<u8> {
    seq![0x64u8, 0x65, 0x72, 0x65, 0x66]
}

/// `dup`
pub open spec fn word_dup() -> Seq<u8> {
    seq![0x64u8, 0x75, 0x70]
}

/// `.cfa`
pub open spec fn word_cfa() -> Seq<u8> {
    seq![0x2eu8, 0x63, 0x66, 0x61]
}

/// `.ra`
pub open spec fn word_ra() -> Seq<u8> {
    seq![0x2eu8, 0x72, 0x61]
}

/// Whether `b` is one of the digits `0` to `9`.
pub open spec fn is_digit(b: u8) -> bool {
    0x30 <= b <= 0x39
}

/// The token that a word of one byte is.
pub open spec fn symbol_token(b: u8) -> Token {
    if b == 0x2b {
        Token::Op(BinaryOp::Add)
    } else if b == 0x2d {
        Token::Op(BinaryOp::Sub)
    } else if b == 0x2a {
        Token::Op(BinaryOp::Mul)
    } else if b == 0x2f {
        Token::Op(BinaryOp::Div)
    } else if b == 0x25 {
        Token::Op(BinaryOp::Rem)
    } else if b == 0x26 {
        Token::Op(BinaryOp::And)
    } else if b == 0x7c {
        Token::Op(BinaryOp::Or)
    } else if b == 0x5e {
        Token::Op(BinaryOp::Xor)
    } else if b == 0x40 {
        Token::Op(BinaryOp::Align)
    } else if b == 0x3d {
        Token::Assign
    } else {
        Token::Name
    }
}

/// The number that a literal writes: decimal digits, or `-` and decimal
/// digits for the number that added to them gives zero in 64 bits.
pub open spec fn literal_value(word: Seq<u8>) -> Option<u64> {
    if word.len() > 0 && word[0] == 0x2d {
        match number_up_to(word.subrange(1, word.len() as int), 10, u64::MAX) {
            Some(n) => Some(0u64.wrapping_sub(n)),
            None => None,
        }
    } else {
        number_up_to(word, 10, u64::MAX)
    }
}

/// Whether a word begins like a number.
pub open spec fn looks_like_number(word: Seq<u8>) -> bool {
    (word.len() >= 1 && is_digit(word[0])) || (word.len() >= 2 && word[0] == 0x2d && is_digit(
        word[1],
    ))
}

/// The token that a word is; none for a word that begins like a number and
/// is not one of 64 bits.
pub open spec fn token_of(word: Seq<u8>) -> Option<Token> {
    if looks_like_number(word) {
        match literal_value(word) {
            Some(n) => Some(Token::Literal(n)),
            None => None,
        }
    } else if word.len() == 1 {
        Some(symbol_token(word[0]))
    } else if word == word_deref() {
        Some(Token::Deref)
    } else if word == word_dup() {
        Some(Token::Dup)
    } else {
        Some(Token::Name)
    }
}

/// Whether `n` is a power of two.
pub open spec fn is_power_of_two(n: u64) -> bool {
    n != 0 && n & ((n - 1) as u64) == 0
}

/// What an operator makes of two values. Sums, differences and products
/// wrap round in 64 bits. There is no quotient and no remainder for a
/// divisor of zero, and a value is aligned to a power of two only.
pub open spec fn apply(op: BinaryOp, a: u64, b: u64) -> Option<u64> {
    match op {
        BinaryOp::Add => Some(a.wrapping_add(b)),
        BinaryOp::Sub => Some(a.wrapping_sub(b)),
        BinaryOp::Mul => Some(a.wrapping_mul(b)),
        BinaryOp::Div => if b != 0 {
            Some(a / b)
        } else {
            None
        },
        BinaryOp::Rem => if b != 0 {
            Some(a % b)
        } else {
            None
        },
        BinaryOp::And => Some(a & b),
        BinaryOp::Or => Some(a | b),
        BinaryOp::Xor => Some(a ^ b),
        BinaryOp::Align => if is_power_of_two(b) {
            Some((a - a % b) as u64)
        } else {
            None
        },
    }
}

/// The value that the program gave the register `name` last.
pub open spec fn assigned_value(program: Seq<u8>, assigned: Seq<Binding>, name: Seq<u8>) -> Option<
    u64,
>
    decreases assigned.len(),
{
    if assigned.len() == 0 {
        None
    } else if program.subrange(assigned.last().start as int, assigned.last().end as int) == name {
        Some(assigned.last().value)
    } else {
        assigned_value(program, assigned.drop_last(), name)
    }
}

/// The value of the register `name`: what the program gave it, or else the
/// address of the caller's frame for `.cfa`, or else what was captured of
/// the callee.
pub open spec fn register_value(ctx: Context, assigned: Seq<Binding>, name: Seq<u8>) -> Option<
    u64,
> {
    match assigned_value(ctx.program, assigned, name) {
        Some(v) => Some(v),
        None => if name == word_cfa() {
            ctx.cfa
        } else {
            match text_value(name) {
                Some(text) => value_at(ctx.callee.registers, text),
                None => None,
            }
        },
    }
}

/// The value that an item of the stack stands for.
pub open spec fn item_value(ctx: Context, assigned: Seq<Binding>, item: StackItem) -> Option<u64> {
    match item {
        StackItem::Value(v) => Some(v),
        StackItem::Name { start, end } => register_value(
            ctx,
            assigned,
            ctx.program.subrange(start as int, end as int),
        ),
    }
}

/// The machine after an operator on two values.
pub open spec fn after_op(ctx: Context, m: Machine, op: BinaryOp) -> Option<Machine> {
    if m.stack.len() < 2 {
        None
    } else {
        let n = m.stack.len() as int;
        match (
            item_value(ctx, m.assigned, m.stack[n - 2]),
            item_value(ctx, m.assigned, m.stack[n - 1]),
        ) {
            (Some(a), Some(b)) => match apply(op, a, b) {
                Some(v) => Some(
                    Machine { stack: m.stack.take(n - 2).push(StackItem::Value(v)), ..m },
                ),
                None => None,
            },
            _ => None,
        }
    }
}

/// The machine after `deref`.
pub open spec fn after_deref(ctx: Context, m: Machine) -> Option<Machine> {
    if m.stack.len() < 1 {
        None
    } else {
        match item_value(ctx, m.assigned, m.stack.last()) {
            Some(address) => match value_at(ctx.callee.memory, address) {
                Some(v) => Some(Machine { stack: m.stack.drop_last().push(StackItem::Value(v)), ..m }),
                None => None,
            },
            None => None,
        }
    }
}

/// The machine after `=`.
pub open spec fn after_assign(ctx: Context, m: Machine) -> Option<Machine> {
    if m.stack.len() < 2 {
        None
    } else {
        let n = m.stack.len() as int;
        match (m.stack[n - 1], item_value(ctx, m.assigned, m.stack[n - 2])) {
            (StackItem::Name { start, end }, Some(value)) => Some(
                Machine {
                    stack: m.stack.take(n - 2),
                    assigned: m.assigned.push(Binding { start, end, value }),
                },
            ),
            _ => None,
        }
    }
}

/// The machine after the word of the program from `start` up to `end`,
/// which is the token `token`; none where the word cannot be carried out.
pub open spec fn step(ctx: Context, m: Machine, token: Token, start: usize, end: usize) -> Option<
    Machine,
> {
    match token {
        Token::Literal(n) => Some(Machine { stack: m.stack.push(StackItem::Value(n)), ..m }),
        Token::Name => Some(Machine { stack: m.stack.push(StackItem::Name { start, end }), ..m }),
        Token::Op(op) => after_op(ctx, m, op),
        Token::Deref => after_deref(ctx, m),
        Token::Dup => if m.stack.len() < 1 {
            None
        } else {
            Some(Machine { stack: m.stack.push(m.stack.last()), ..m })
        },
        Token::Assign => after_assign(ctx, m),
    }
}

/// The machine after the words of the program from `pos` on, one after the
/// other; none where one of them cannot be carried out.
pub open spec fn run(ctx: Context, pos: int, m: Machine) -> Option<Machine>
    decreases ctx.program.len() - pos,
{
    let start = skip_over(ctx.program, pos, SPACE);
    let end = scan_to(ctx.program, start, SPACE);
    if 0 <= pos <= start < end <= ctx.program.len() {
        match token_of(ctx.program.subrange(start, end)) {
            Some(token) => match step(ctx, m, token, start as usize, end as usize) {
                Some(next) => run(ctx, end, next),
                None => None,
            },
            None => None,
        }
    } else {
        Some(m)
    }
}

/// The machine before the first word.
pub open spec fn idle() -> Machine {
    Machine { stack: Seq::empty(), assigned: Seq::empty() }
}

/// The value of an expression: what the one item stands for that the
/// program leaves on the stack.
pub open spec fn expression_value(ctx: Context) -> Option<u64> {
    match run(ctx, 0, idle()) {
        Some(m) => if m.stack.len() == 1 {
            item_value(ctx, m.assigned, m.stack[0])
        } else {
            None
        },
        None => None,
    }
}

/// What the program `program` runs against with the frame `walker`.
pub open spec fn context_of<W: FrameWalker>(program: Seq<u8>, walker: &W, cfa: Option<u64>) -> Context {
    Context { program, callee: walker.callee(), cfa }
}

/// Whether the name that an item holds is a part of a program of the given
/// length.
pub open spec fn item_in_program(item: StackItem, len: nat) -> bool {
    item matches StackItem::Name { start, end } ==> start <= end <= len
}

/// Whether the name that a binding holds is a part of a program of the
/// given length.
pub open spec fn binding_in_program(binding: Binding, len: nat) -> bool {
    binding.start <= binding.end <= len
}

/// Whether every name that the machine holds is a part of a program of the
/// given length.
pub open spec fn machine_in_program(m: Machine, len: nat) -> bool {
    &&& forall|i: int| 0 <= i < m.stack.len() ==> item_in_program(#[trigger] m.stack[i], len)
    &&& forall|i: int| 0 <= i < m.assigned.len() ==> binding_in_program(#[trigger] m.assigned[i], len)
}

/// What an operator makes of two values.
pub fn apply_op(op: BinaryOp, a: u64, b: u64) -> (r: Option<u64>)
    ensures
        r == apply(op, a, b),
{
    match op {
        BinaryOp::Add => Some(a.wrapping_add(b)),
        BinaryOp::Sub => Some(a.wrapping_sub(b)),
        BinaryOp::Mul => Some(a.wrapping_mul(b)),
        BinaryOp::Div => if b != 0 {
            Some(a / b)
        } else {
            None
        },
        BinaryOp::Rem => if b != 0 {
            Some(a % b)
        } else {
            None
        },
        BinaryOp::And => Some(a & b),
        BinaryOp::Or => Some(a | b),
        BinaryOp::Xor => Some(a ^ b),
        BinaryOp::Align => if b != 0 && b & (b - 1) == 0 {
            assert(a % b <= a) by (nonlinear_arith)
                requires
                    b > 0,
            ;
            Some(a - a % b)
        } else {
            None
        },
    }
}

/// The token that the word of `program` from `start` up to `end` is; none
/// where there is no such word.
pub fn token_at(program: &[u8], start: usize, end: usize) -> (r: Option<Token>)
    ensures
        start < end <= program.len() ==> r == token_of(
            program@.subrange(start as int, end as int),
        ),
        !(start < end <= program.len()) ==> r is None,
{
    if !(start < end && end <= program.len()) {
        return None;
    }
    let word = bytes_between(program, start, end);
    let first = word[0];
    if first >= 0x30 && first <= 0x39 {
        return match parse_number(word, Radix::Decimal, u64::MAX) {
            Some(n) => Some(Token::Literal(n)),
            None => None,
        };
    }
    if word.len() >= 2 && first == 0x2d && word[1] >= 0x30 && word[1] <= 0x39 {
        return match parse_number(bytes_between(word, 1, word.len()), Radix::Decimal, u64::MAX) {
            Some(n) => Some(Token::Literal(0u64.wrapping_sub(n))),
            None => None,
        };
    }
    if word.len() == 1 {
        let token = if first == 0x2b {
            Token::Op(BinaryOp::Add)
        } else if first == 0x2d {
            Token::Op(BinaryOp::Sub)
        } else if first == 0x2a {
            Token::Op(BinaryOp::Mul)
        } else if first == 0x2f {
            Token::Op(BinaryOp::Div)
        } else if first == 0x25 {
            Token::Op(BinaryOp::Rem)
        } else if first == 0x26 {
            Token::Op(BinaryOp::And)
        } else if first == 0x7c {
            Token::Op(BinaryOp::Or)
        } else if first == 0x5e {
            Token::Op(BinaryOp::Xor)
        } else if first == 0x40 {
            Token::Op(BinaryOp::Align)
        } else if first == 0x3d {
            Token::Assign
        } else {
            Token::Name
        };
        return Some(token);
    }
    let deref: [u8; 5] = [0x64, 0x65, 0x72, 0x65, 0x66];
    let dup: [u8; 3] = [0x64, 0x75, 0x70];
    if same_bytes(word, array_as_slice(&deref)) {
        Some(Token::Deref)
    } else if same_bytes(word, array_as_slice(&dup)) {
        Some(Token::Dup)
    } else {
        Some(Token::Name)
    }
}

/// The value that the program gave the register `name` last.
fn find_assigned(program: &[u8], assigned: &Vec<Binding>, name: &[u8]) -> (r: Option<u64>)
    requires
        forall|i: int|
            0 <= i < assigned@.len() ==> binding_in_program(#[trigger] assigned@[i], program@.len()),
    ensures
        r == assigned_value(program@, assigned@, name@),
{
    let mut i = assigned.len();
    assert(assigned@.take(i as int) =~= assigned@);
    while i > 0
        invariant
            i <= assigned.len(),
            forall|j: int|
                0 <= j < assigned@.len() ==> binding_in_program(
                    #[trigger] assigned@[j],
                    program@.len(),
                ),
            assigned_value(program@, assigned@, name@) == assigned_value(
                program@,
                assigned@.take(i as int),
                name@,
            ),
        decreases i,
    {
        let binding = assigned[i - 1];
        assert(assigned@.take(i as int).drop_last() =~= assigned@.take(i - 1));
        if same_bytes(bytes_between(program, binding.start, binding.end), name) {
            return Some(binding.value);
        }
        i = i - 1;
    }
    None
}

/// The value of the register `name`.
fn read_register<W: FrameWalker>(
    program: &[u8],
    assigned: &Vec<Binding>,
    walker: &W,
    cfa: Option<u64>,
    name: &[u8],
) -> (r: Option<u64>)
    requires
        forall|i: int|
            0 <= i < assigned@.len() ==> binding_in_program(#[trigger] assigned@[i], program@.len()),
    ensures
        r == register_value(context_of(program@, walker, cfa), assigned@, name@),
{
    if let Some(v) = find_assigned(program, assigned, name) {
        return Some(v);
    }
    let cfa_name: [u8; 4] = [0x2e, 0x63, 0x66, 0x61];
    if same_bytes(name, array_as_slice(&cfa_name)) {
        return cfa;
    }
    if name.len() == 0 {
        return None;
    }
    match core::str::from_utf8(name) {
        Ok(text) => walker.get_callee_register(text),
        Err(_) => None,
    }
}

/// The value that an item of the stack stands for.
fn resolve<W: FrameWalker>(
    program: &[u8],
    assigned: &Vec<Binding>,
    walker: &W,
    cfa: Option<u64>,
    item: StackItem,
) -> (r: Option<u64>)
    requires
        forall|i: int|
            0 <= i < assigned@.len() ==> binding_in_program(#[trigger] assigned@[i], program@.len()),
        item_in_program(item, program@.len()),
    ensures
        r == item_value(context_of(program@, walker, cfa), assigned@, item),
{
    match item {
        StackItem::Value(v) => Some(v),
        StackItem::Name { start, end } => read_register(
            program,
            assigned,
            walker,
            cfa,
            bytes_between(program, start, end),
        ),
    }
}

/// Carries out one word of the program.
fn step_machine<W: FrameWalker>(
    program: &[u8],
    walker: &W,
    cfa: Option<u64>,
    stack: &mut Vec<StackItem>,
    assigned: &mut Vec<Binding>,
    token: Token,
    start: usize,
    end: usize,
) -> (ok: bool)
    requires
        start <= end <= program.len(),
        machine_in_program(
            Machine { stack: old(stack)@, assigned: old(assigned)@ },
            program@.len(),
        ),
    ensures
        match step(
            context_of(program@, walker, cfa),
            Machine { stack: old(stack)@, assigned: old(assigned)@ },
            token,
            start,
            end,
        ) {
            Some(m) => ok && m == (Machine { stack: final(stack)@, assigned: final(assigned)@ }),
            None => !ok,
        },
        machine_in_program(
            Machine { stack: final(stack)@, assigned: final(assigned)@ },
            program@.len(),
        ),
{
    let n = stack.len();
    match token {
        Token::Literal(v) => {
            stack.push(StackItem::Value(v));
            true
        },
        Token::Name => {
            stack.push(StackItem::Name { start, end });
            true
        },
        Token::Op(op) => {
            if n < 2 {
                return false;
            }
            let a = resolve(program, assigned, walker, cfa, stack[n - 2]);
            let b = resolve(program, assigned, walker, cfa, stack[n - 1]);
            match (a, b) {
                (Some(a), Some(b)) => match apply_op(op, a, b) {
                    Some(v) => {
                        stack.truncate(n - 2);
                        stack.push(StackItem::Value(v));
                        true
                    },
                    None => false,
                },
                _ => false,
            }
        },
        Token::Deref => {
            if n < 1 {
                return false;
            }
            match resolve(program, assigned, walker, cfa, stack[n - 1]) {
                Some(address) => match walker.get_register_at_address(address) {
                    Some(v) => {
                        stack.truncate(n - 1);
                        stack.push(StackItem::Value(v));
                        true
                    },
                    None => false,
                },
                None => false,
            }
        },
        Token::Dup => {
            if n < 1 {
                return false;
            }
            let top = stack[n - 1];
            stack.push(top);
            true
        },
        Token::Assign => {
            if n < 2 {
                return false;
            }
            let value = resolve(program, assigned, walker, cfa, stack[n - 2]);
            match (stack[n - 1], value) {
                (StackItem::Name { start: name_start, end: name_end }, Some(value)) => {
                    stack.truncate(n - 2);
                    assigned.push(Binding { start: name_start, end: name_end, value });
                    true
                },
                _ => false,
            }
        },
    }
}

/// Runs a program: gives the stack it leaves, the top last, and the
/// registers it gave values, the latest last; none where a word of it
/// cannot be carried out.
pub fn run_program<W: FrameWalker>(program: &[u8], walker: &W, cfa: Option<u64>) -> (r: Option<
    (Vec<StackItem>, Vec<Binding>),
>)
    ensures
        match run(context_of(program@, walker, cfa), 0, idle()) {
            Some(m) => r matches Some((stack, assigned)) && m == (Machine {
                stack: stack@,
                assigned: assigned@,
            }),
            None => r is None,
        },
        r matches Some((stack, assigned)) ==> machine_in_program(
            Machine { stack: stack@, assigned: assigned@ },
            program@.len(),
        ),
{
    let mut stack: Vec<StackItem> = Vec::new();
    let mut assigned: Vec<Binding> = Vec::new();
    let mut pos: usize = 0;
    let ghost ctx = context_of(program@, walker, cfa);
    loop
        invariant
            pos <= program.len(),
            ctx == context_of(program@, walker, cfa),
            machine_in_program(Machine { stack: stack@, assigned: assigned@ }, program@.len()),
            run(ctx, 0, idle()) == run(
                ctx,
                pos as int,
                Machine { stack: stack@, assigned: assigned@ },
            ),
        decreases program.len() - pos,
    {
        let start = skip_byte(program, pos, SPACE);
        if start >= program.len() {
            proof {
                lemma_scan_to_bounds(program@, start as int, SPACE);
            }
            return Some((stack, assigned));
        }
        let end = find_byte(program, start, SPACE);
        proof {
            lemma_skip_over_bounds(program@, pos as int, SPACE);
            lemma_scan_to_bounds(program@, start as int, SPACE);
        }
        let token = match token_at(program, start, end) {
            Some(token) => token,
            None => {
                return None;
            },
        };
        if !step_machine(program, walker, cfa, &mut stack, &mut assigned, token, start, end) {
            return None;
        }
        pos = end;
    }
}

/// The value of an expression: what the one item stands for that the
/// program leaves on the stack. There is none where a word of the program
/// cannot be carried out, as for want of an operand or of a register, or
/// where the program leaves more or less than one item.
pub fn eval_expression<W: FrameWalker>(program: &[u8], walker: &W, cfa: Option<u64>) -> (r:
    Option<u64>)
    ensures
        r == expression_value(context_of(program@, walker, cfa)),
{
    match run_program(program, walker, cfa) {
        Some((stack, assigned)) => {
            if stack.len() == 1 {
                resolve(program, &assigned, walker, cfa, stack[0])
            } else {
                None
            }
        },
        None => None,
    }
}

/// A rule of unwinding: the register of the caller that it recovers, and
/// the program that computes it.
#[derive(Debug)]
pub struct Rule {
    /// The name of the register.
    pub name: Vec<u8>,
    /// The program that computes the register.
    pub program: Vec<u8>,
}

/// A rule, as a value.
pub ghost struct RuleView {
    pub name: Seq<u8>,
    pub program: Seq<u8>,
}

impl View for Rule {
    type V = RuleView;

    open spec fn view(&self) -> RuleView {
        RuleView { name: self.name@, program: self.program@ }
    }
}

/// The views of some rules.
pub open spec fn rule_views(rules: Seq<Rule>) -> Seq<RuleView> {
    rules.map_values(|r: Rule| r@)
}

/// Whether a word begins a rule: it names a register and ends in a colon.
pub open spec fn is_rule_name(word: Seq<u8>) -> bool {
    word.len() >= 2 && word.last() == 0x3a
}

/// Where the program ends that begins at `pos`: before the next word that
/// begins a rule, or with the text.
pub open spec fn program_end(text: Seq<u8>, pos: int) -> int
    decreases text.len() - pos,
{
    let start = skip_over(text, pos, SPACE);
    let end = scan_to(text, start, SPACE);
    if 0 <= pos <= start < end <= text.len() && !is_rule_name(text.subrange(start, end)) {
        program_end(text, end)
    } else {
        pos
    }
}

/// A program ends inside the text, at or after the position it begins at.
pub proof fn lemma_program_end_bounds(text: Seq<u8>, pos: int)
    requires
        0 <= pos <= text.len(),
    ensures
        pos <= program_end(text, pos) <= text.len(),
    decreases text.len() - pos,
{
    let start = skip_over(text, pos, SPACE);
    let end = scan_to(text, start, SPACE);
    if 0 <= pos <= start < end <= text.len() && !is_rule_name(text.subrange(start, end)) {
        lemma_program_end_bounds(text, end);
    }
}

/// The rules found so far with those that `text` holds from `pos` on added
/// to them; none where the text does not begin with the name of a rule.
pub open spec fn rules_from(text: Seq<u8>, pos: int, found: Seq<RuleView>) -> Option<Seq<RuleView>>
    decreases text.len() - pos,
{
    let start = skip_over(text, pos, SPACE);
    let end = scan_to(text, start, SPACE);
    if 0 <= pos <= start < end <= text.len() {
        if is_rule_name(text.subrange(start, end)) {
            let stop = program_end(text, end);
            proof {
                lemma_program_end_bounds(text, end);
            }
            rules_from(
                text,
                stop,
                found.push(
                    RuleView {
                        name: text.subrange(start, end - 1),
                        program: text.subrange(end, stop),
                    },
                ),
            )
        } else {
            None
        }
    } else {
        Some(found)
    }
}

/// The position of the last rule for the register `name`.
pub open spec fn last_rule(rules: Seq<RuleView>, name: Seq<u8>) -> Option<int>
    decreases rules.len(),
{
    if rules.len() == 0 {
        None
    } else if rules.last().name == name {
        Some(rules.len() - 1)
    } else {
        last_rule(rules.drop_last(), name)
    }
}

/// What the rule in force for the register `name` computes: of several
/// rules for one register the last is in force.
pub open spec fn rule_value(
    rules: Seq<RuleView>,
    name: Seq<u8>,
    callee: CalleeFrame,
    cfa: Option<u64>,
) -> Option<u64> {
    match last_rule(rules, name) {
        Some(i) => expression_value(Context { program: rules[i].program, callee, cfa }),
        None => None,
    }
}

/// The registers of the caller after the first `n` rules were applied to
/// `before`. A rule is applied where it is in force and recovers a register
/// proper, not the frame address or the return address; where its program
/// gives a value; and where the register is one that can be set.
pub open spec fn recovered_registers(
    rules: Seq<RuleView>,
    n: nat,
    callee: CalleeFrame,
    cfa: u64,
    settable: Set<Seq<char>>,
    before: Map<Seq<char>, u64>,
) -> Map<Seq<char>, u64>
    decreases n,
{
    if n == 0 {
        before
    } else {
        let earlier = recovered_registers(rules, (n - 1) as nat, callee, cfa, settable, before);
        let rule = rules[n - 1];
        if last_rule(rules, rule.name) == Some(n - 1) && rule.name != word_cfa() && rule.name
            != word_ra() {
            match (
                text_value(rule.name),
                expression_value(Context { program: rule.program, callee, cfa: Some(cfa) }),
            ) {
                (Some(text), Some(value)) => if settable.contains(text) {
                    earlier.insert(text, value)
                } else {
                    earlier
                },
                _ => earlier,
            }
        } else {
            earlier
        }
    }
}

/// The frame of the caller as the rules recover it from the frame of the
/// callee. The frame address is computed first, then the return address
/// and the registers, which may refer to it as `.cfa`. Without a frame
/// address or a return address there is no caller; a register whose rule
/// gives no value is left as it was.
pub open spec fn unwound_by_rules(
    rules: Seq<RuleView>,
    callee: CalleeFrame,
    settable: Set<Seq<char>>,
    before: CallerFrame,
) -> Option<CallerFrame> {
    match rule_value(rules, word_cfa(), callee, None) {
        Some(cfa) => match rule_value(rules, word_ra(), callee, Some(cfa)) {
            Some(ra) => Some(
                CallerFrame {
                    cfa: Some(cfa),
                    ra: Some(ra),
                    registers: recovered_registers(
                        rules,
                        rules.len(),
                        callee,
                        cfa,
                        settable,
                        before.registers,
                    ),
                },
            ),
            None => None,
        },
        None => None,
    }
}

/// Where the program ends that begins at `pos`.
fn find_program_end(text: &[u8], pos: usize) -> (stop: usize)
    requires
        pos <= text.len(),
    ensures
        stop == program_end(text@, pos as int),
        pos <= stop <= text.len(),
{
    let mut at = pos;
    loop
        invariant
            pos <= at <= text.len(),
            program_end(text@, pos as int) == program_end(text@, at as int),
        decreases text.len() - at,
    {
        let start = skip_byte(text, at, SPACE);
        proof {
            lemma_skip_over_bounds(text@, at as int, SPACE);
        }
        if start >= text.len() {
            proof {
                lemma_scan_to_bounds(text@, start as int, SPACE);
            }
            return at;
        }
        let end = find_byte(text, start, SPACE);
        proof {
            lemma_scan_to_bounds(text@, start as int, SPACE);
        }
        if end - start >= 2 && text[end - 1] == 0x3a {
            return at;
        }
        at = end;
    }
}

/// Adds the rules that `text` holds to `rules`; says whether the text could
/// be read.
pub fn collect_rules(text: &[u8], rules: &mut Vec<Rule>) -> (ok: bool)
    ensures
        match rules_from(text@, 0, rule_views(old(rules)@)) {
            Some(all) => ok && rule_views(final(rules)@) == all,
            None => !ok,
        },
{
    let mut pos: usize = 0;
    let ghost before = rule_views(rules@);
    loop
        invariant
            pos <= text.len(),
            before == rule_views(old(rules)@),
            rules_from(text@, 0, before) == rules_from(text@, pos as int, rule_views(rules@)),
        decreases text.len() - pos,
    {
        let start = skip_byte(text, pos, SPACE);
        proof {
            lemma_skip_over_bounds(text@, pos as int, SPACE);
        }
        if start >= text.len() {
            proof {
                lemma_scan_to_bounds(text@, start as int, SPACE);
            }
            return true;
        }
        let end = find_byte(text, start, SPACE);
        proof {
            lemma_scan_to_bounds(text@, start as int, SPACE);
        }
        if !(end - start >= 2 && text[end - 1] == 0x3a) {
            return false;
        }
        let stop = find_program_end(text, end);
        let rule = Rule {
            name: slice_to_vec(bytes_between(text, start, end - 1)),
            program: slice_to_vec(bytes_between(text, end, stop)),
        };
        proof {
            assert(rule_views(rules@.push(rule)) =~= rule_views(rules@).push(rule@));
        }
        rules.push(rule);
        pos = stop;
    }
}

/// The position of the last rule for the register `name`.
fn find_last_rule(rules: &Vec<Rule>, name: &[u8]) -> (r: Option<usize>)
    ensures
        r matches Some(i) ==> last_rule(rule_views(rules@), name@) == Some(i as int) && i
            < rules@.len(),
        r is None ==> last_rule(rule_views(rules@), name@) is None,
{
    let mut i = rules.len();
    assert(rule_views(rules@).take(i as int) =~= rule_views(rules@));
    while i > 0
        invariant
            i <= rules.len(),
            last_rule(rule_views(rules@), name@) == last_rule(
                rule_views(rules@).take(i as int),
                name@,
            ),
        decreases i,
    {
        assert(rule_views(rules@).take(i as int).drop_last() =~= rule_views(rules@).take(i - 1));
        if same_bytes(rules[i - 1].name.as_slice(), name) {
            return Some(i - 1);
        }
        i = i - 1;
    }
    None
}

/// What the rule in force for the register `name` computes.
fn eval_rule<W: FrameWalker>(rules: &Vec<Rule>, name: &[u8], walker: &W, cfa: Option<u64>) -> (r:
    Option<u64>)
    ensures
        r == rule_value(rule_views(rules@), name@, walker.callee(), cfa),
{
    match find_last_rule(rules, name) {
        Some(i) => {
            eval_expression(rules[i].program.as_slice(), walker, cfa)
        },
        None => None,
    }
}

/// Recovers the frame of the caller by `rules`, and writes it to `walker`.
/// Where the rules give no frame address or no return address, nothing is
/// written.
pub fn unwind_by_rules<W: FrameWalker>(rules: &Vec<Rule>, walker: &mut W) -> (r: Option<()>)
    ensures
        match unwound_by_rules(
            rule_views(rules@),
            old(walker).callee(),
            old(walker).settable(),
            old(walker).caller(),
        ) {
            Some(caller) => {
                &&& r is Some
                &&& final(walker).caller() == caller
                &&& final(walker).callee() == old(walker).callee()
                &&& final(walker).settable() == old(walker).settable()
            },
            None => r is None && *final(walker) == *old(walker),
        },
{
    let cfa_name: [u8; 4] = [0x2e, 0x63, 0x66, 0x61];
    let ra_name: [u8; 3] = [0x2e, 0x72, 0x61];
    let cfa = match eval_rule(rules, array_as_slice(&cfa_name), walker, None) {
        Some(cfa) => cfa,
        None => {
            return None;
        },
    };
    let ra = match eval_rule(rules, array_as_slice(&ra_name), walker, Some(cfa)) {
        Some(ra) => ra,
        None => {
            return None;
        },
    };
    let ghost callee = walker.callee();
    let ghost settable = walker.settable();
    let ghost before = walker.caller();
    let ghost views = rule_views(rules@);
    let mut i: usize = 0;
    while i < rules.len()
        invariant
            i <= rules.len(),
            views == rule_views(rules@),
            cfa_name@ == word_cfa(),
            ra_name@ == word_ra(),
            walker.callee() == callee,
            walker.settable() == settable,
            walker.caller() == (CallerFrame {
                registers: recovered_registers(
                    views,
                    i as nat,
                    callee,
                    cfa,
                    settable,
                    before.registers,
                ),
                ..before
            }),
        decreases rules.len() - i,
    {
        let rule = &rules[i];
        let name = rule.name.as_slice();
        let in_force = match find_last_rule(rules, name) {
            Some(last) => last == i,
            None => false,
        };
        if in_force && !same_bytes(name, array_as_slice(&cfa_name)) && !same_bytes(
            name,
            array_as_slice(&ra_name),
        ) && name.len() > 0 {
            if let Ok(text) = core::str::from_utf8(name) {
                if let Some(value) = eval_expression(rule.program.as_slice(), walker, Some(cfa)) {
                    let _ = walker.set_caller_register(text, value);
                }
            }
        }
        i = i + 1;
    }
    walker.set_cfa(cfa);
    walker.set_ra(ra);
    Some(())
}

/// The rules of a range with those of the first `n` of the rule sets that
/// come into force inside it added to them.
pub open spec fn rules_through(info: StackInfoCfiView, n: nat) -> Option<Seq<RuleView>>
    decreases n,
{
    if n == 0 {
        rules_from(info.init.rules, 0, Seq::empty())
    } else {
        match rules_through(info, (n - 1) as nat) {
            Some(found) => rules_from(info.add_rules[n - 1].rules, 0, found),
            None => None,
        }
    }
}

/// The rules in force at `address`: those at the start of the range, and
/// those that come into force at or below the address, in the order of their
/// addresses.
pub open spec fn rules_in_force(info: StackInfoCfiView, address: u64) -> Option<Seq<RuleView>> {
    rules_through(info, rank(info.add_rules, address) as nat)
}

/// The frame of the caller as the rules of a range recover it for the
/// instruction at `address`; none where the range does not cover the
/// address.
pub open spec fn unwound_by_cfi(
    info: StackInfoCfiView,
    address: u64,
    callee: CalleeFrame,
    settable: Set<Seq<char>>,
    before: CallerFrame,
) -> Option<CallerFrame> {
    if info.covers(address) {
        match rules_in_force(info, address) {
            Some(rules) => unwound_by_rules(rules, callee, settable, before),
            None => None,
        }
    } else {
        None
    }
}

/// Rules that cannot be read stay unreadable, whatever rule sets are added.
pub proof fn lemma_rules_through_fails_on(info: StackInfoCfiView, k: nat, n: nat)
    requires
        k <= n,
        rules_through(info, k) is None,
    ensures
        rules_through(info, n) is None,
    decreases n,
{
    if k < n {
        lemma_rules_through_fails_on(info, k, (n - 1) as nat);
    }
}

/// Recovers the frame of the caller of the instruction at `address` by the
/// unwinding rules `info`, and writes it to `walker`. Where the rules do not
/// cover the address, or give no frame address or no return address,
/// nothing is written.
pub fn walk_with_stack_cfi<W: FrameWalker>(info: &StackInfoCfi, address: u64, walker: &mut W) -> (r:
    Option<()>)
    ensures
        match unwound_by_cfi(
            info@,
            address,
            old(walker).callee(),
            old(walker).settable(),
            old(walker).caller(),
        ) {
            Some(caller) => {
                &&& r is Some
                &&& final(walker).caller() == caller
                &&& final(walker).callee() == old(walker).callee()
                &&& final(walker).settable() == old(walker).settable()
            },
            None => r is None && *final(walker) == *old(walker),
        },
{
    if !info.covers(address) {
        return None;
    }
    let mut rules: Vec<Rule> = Vec::new();
    assert(rule_views(rules@) =~= Seq::<RuleView>::empty());
    let deltas = info.add_rules();
    let n = find_rank(deltas, address);
    if !collect_rules(info.init().rules.as_slice(), &mut rules) {
        proof {
            lemma_rules_through_fails_on(info@, 0, n as nat);
        }
        return None;
    }
    let mut i: usize = 0;
    while i < n
        invariant
            i <= n <= deltas@.len(),
            views(deltas@) == info@.add_rules,
            n == rank(info@.add_rules, address),
            info@.covers(address),
            *walker == *old(walker),
            rules_through(info@, i as nat) == Some(rule_views(rules@)),
        decreases n - i,
    {
        if !collect_rules(deltas[i].rules.as_slice(), &mut rules) {
            proof {
                lemma_rules_through_fails_on(info@, (i + 1) as nat, n as nat);
            }
            return None;
        }
        i = i + 1;
    }
    unwind_by_rules(&rules, walker)
}

/// `$eip`, the register that holds the address a frame returns to
pub open spec fn word_eip() -> Seq<u8> {
    seq![0x24u8, 0x65, 0x69, 0x70]
}

/// `$esp`, the register that holds the address of a frame
pub open spec fn word_esp() -> Seq<u8> {
    seq![0x24u8, 0x65, 0x73, 0x70]
}

/// The registers of the caller after the first `n` of the registers that a
/// program gave values were written to `before`, but for `$eip` and `$esp`
/// and for those that cannot be set.
pub open spec fn written_registers(
    program: Seq<u8>,
    assigned: Seq<Binding>,
    n: nat,
    settable: Set<Seq<char>>,
    before: Map<Seq<char>, u64>,
) -> Map<Seq<char>, u64>
    decreases n,
{
    if n == 0 {
        before
    } else {
        let earlier = written_registers(program, assigned, (n - 1) as nat, settable, before);
        let binding = assigned[n - 1];
        let name = program.subrange(binding.start as int, binding.end as int);
        if name != word_eip() && name != word_esp() {
            match text_value(name) {
                Some(text) => if settable.contains(text) {
                    earlier.insert(text, binding.value)
                } else {
                    earlier
                },
                None => earlier,
            }
        } else {
            earlier
        }
    }
}

/// The frame of the caller as a program of Windows frame data recovers it.
/// The program gives registers their values with `=`; what it gives `$eip`
/// is the return address and what it gives `$esp` the frame address, and
/// without either there is no caller.
pub open spec fn unwound_by_program(
    program: Seq<u8>,
    callee: CalleeFrame,
    settable: Set<Seq<char>>,
    before: CallerFrame,
) -> Option<CallerFrame> {
    match run(Context { program, callee, cfa: None }, 0, idle()) {
        Some(m) => match (
            assigned_value(program, m.assigned, word_eip()),
            assigned_value(program, m.assigned, word_esp()),
        ) {
            (Some(ra), Some(cfa)) => Some(
                CallerFrame {
                    cfa: Some(cfa),
                    ra: Some(ra),
                    registers: written_registers(
                        program,
                        m.assigned,
                        m.assigned.len(),
                        settable,
                        before.registers,
                    ),
                },
            ),
            _ => None,
        },
        None => None,
    }
}

/// Recovers the frame of the caller by a program of Windows frame data,
/// and writes it to `walker`. Where the program cannot be carried out, or
/// gives no return address or no frame address, nothing is written.
pub fn unwind_by_program<W: FrameWalker>(program: &[u8], walker: &mut W) -> (r: Option<()>)
    ensures
        match unwound_by_program(
            program@,
            old(walker).callee(),
            old(walker).settable(),
            old(walker).caller(),
        ) {
            Some(caller) => {
                &&& r is Some
                &&& final(walker).caller() == caller
                &&& final(walker).callee() == old(walker).callee()
                &&& final(walker).settable() == old(walker).settable()
            },
            None => r is None && *final(walker) == *old(walker),
        },
{
    let eip: [u8; 4] = [0x24, 0x65, 0x69, 0x70];
    let esp: [u8; 4] = [0x24, 0x65, 0x73, 0x70];
    let (_stack, assigned) = match run_program(program, walker, None) {
        Some(machine) => machine,
        None => {
            return None;
        },
    };
    let ra = match find_assigned(program, &assigned, array_as_slice(&eip)) {
        Some(ra) => ra,
        None => {
            return None;
        },
    };
    let cfa = match find_assigned(program, &assigned, array_as_slice(&esp)) {
        Some(cfa) => cfa,
        None => {
            return None;
        },
    };
    let ghost callee = walker.callee();
    let ghost settable = walker.settable();
    let ghost before = walker.caller();
    let mut i: usize = 0;
    while i < assigned.len()
        invariant
            i <= assigned.len(),
            eip@ == word_eip(),
            esp@ == word_esp(),
            forall|j: int|
                0 <= j < assigned@.len() ==> binding_in_program(
                    #[trigger] assigned@[j],
                    program@.len(),
                ),
            walker.callee() == callee,
            walker.settable() == settable,
            walker.caller() == (CallerFrame {
                registers: written_registers(
                    program@,
                    assigned@,
                    i as nat,
                    settable,
                    before.registers,
                ),
                ..before
            }),
        decreases assigned.len() - i,
    {
        let binding = assigned[i];
        let name = bytes_between(program, binding.start, binding.end);
        if !same_bytes(name, array_as_slice(&eip)) && !same_bytes(name, array_as_slice(&esp))
            && name.len() > 0 {
            if let Ok(text) = core::str::from_utf8(name) {
                let _ = walker.set_caller_register(text, binding.value);
            }
        }
        i = i + 1;
    }
    walker.set_cfa(cfa);
    walker.set_ra(ra);
    Some(())
}

/// The sum of an address and two sizes, where it is an address.
pub open spec fn offset_address(base: u64, first: u32, second: u32) -> Option<u64> {
    if base + first + second <= u64::MAX {
        Some((base + first + second) as u64)
    } else {
        None
    }
}

/// Where the frame pointer of the caller is found by frame pointer
/// omission data: on the stack below the registers that the function saved,
/// where the function uses the frame pointer as a general register, and
/// else in the frame pointer of the callee, which the function left alone.
pub open spec fn fpo_frame_pointer(
    info: StackInfoWinView,
    allocates_base_pointer: bool,
    callee: CalleeFrame,
    stack_pointer: u64,
) -> Option<u64> {
    if allocates_base_pointer {
        if info.saved_register_size >= 8 && stack_pointer + info.saved_register_size - 8
            <= u64::MAX {
            value_at(callee.memory, (stack_pointer + info.saved_register_size - 8) as u64)
        } else {
            None
        }
    } else {
        value_at(callee.registers, "$ebp"@)
    }
}

/// The frame of the caller as frame pointer omission data recover it. The
/// return address lies on the stack of the callee above its local variables
/// and the registers it saved, and the frame of the caller begins one word
/// of four bytes above the return address. Without the stack pointer of the
/// callee or the return address there is no caller; a frame pointer that
/// cannot be had is left as it was.
pub open spec fn unwound_by_fpo(
    info: StackInfoWinView,
    allocates_base_pointer: bool,
    callee: CalleeFrame,
    settable: Set<Seq<char>>,
    before: CallerFrame,
) -> Option<CallerFrame> {
    match value_at(callee.registers, "$esp"@) {
        Some(stack_pointer) => match offset_address(
            stack_pointer,
            info.local_size,
            info.saved_register_size,
        ) {
            Some(ra_address) => match value_at(callee.memory, ra_address) {
                Some(ra) => if ra_address + 4 <= u64::MAX {
                    Some(
                        CallerFrame {
                            cfa: Some((ra_address + 4) as u64),
                            ra: Some(ra),
                            registers: match fpo_frame_pointer(
                                info,
                                allocates_base_pointer,
                                callee,
                                stack_pointer,
                            ) {
                                Some(frame_pointer) => if settable.contains("$ebp"@) {
                                    before.registers.insert("$ebp"@, frame_pointer)
                                } else {
                                    before.registers
                                },
                                None => before.registers,
                            },
                        },
                    )
                } else {
                    None
                },
                None => None,
            },
            None => None,
        },
        None => None,
    }
}

/// The frame of the caller as Windows unwinding data recover it for the
/// instruction at `address`; none where the data do not cover the address.
pub open spec fn unwound_by_win(
    info: StackInfoWinView,
    address: u64,
    callee: CalleeFrame,
    settable: Set<Seq<char>>,
    before: CallerFrame,
) -> Option<CallerFrame> {
    if info.covers(address) {
        match info.program_string_or_base_pointer {
            WinStackThingView::ProgramString(program) => unwound_by_program(
                program,
                callee,
                settable,
                before,
            ),
            WinStackThingView::AllocatesBasePointer(allocates) => unwound_by_fpo(
                info,
                allocates,
                callee,
                settable,
                before,
            ),
        }
    } else {
        None
    }
}

/// Recovers the frame of the caller by frame pointer omission data, and
/// writes it to `walker`. Where the stack pointer of the callee or the
/// return address cannot be had, nothing is written.
pub fn unwind_by_fpo<W: FrameWalker>(
    info: &StackInfoWin,
    allocates_base_pointer: bool,
    walker: &mut W,
) -> (r: Option<()>)
    ensures
        match unwound_by_fpo(
            info@,
            allocates_base_pointer,
            old(walker).callee(),
            old(walker).settable(),
            old(walker).caller(),
        ) {
            Some(caller) => {
                &&& r is Some
                &&& final(walker).caller() == caller
                &&& final(walker).callee() == old(walker).callee()
                &&& final(walker).settable() == old(walker).settable()
            },
            None => r is None && *final(walker) == *old(walker),
        },
{
    let stack_pointer = match walker.get_callee_register("$esp") {
        Some(v) => v,
        None => {
            return None;
        },
    };
    let frame_size = info.local_size as u64 + info.saved_register_size as u64;
    if stack_pointer > u64::MAX - frame_size {
        return None;
    }
    let ra_address = stack_pointer + frame_size;
    let ra = match walker.get_register_at_address(ra_address) {
        Some(v) => v,
        None => {
            return None;
        },
    };
    if ra_address > u64::MAX - 4 {
        return None;
    }
    let frame_pointer = if allocates_base_pointer {
        if info.saved_register_size >= 8 && stack_pointer <= u64::MAX - (
        info.saved_register_size as u64 - 8) {
            walker.get_register_at_address(stack_pointer + (info.saved_register_size as u64 - 8))
        } else {
            None
        }
    } else {
        walker.get_callee_register("$ebp")
    };
    if let Some(frame_pointer) = frame_pointer {
        let _ = walker.set_caller_register("$ebp", frame_pointer);
    }
    walker.set_cfa(ra_address + 4);
    walker.set_ra(ra);
    Some(())
}

/// Recovers the frame of the caller of the instruction at `address` by the
/// Windows unwinding data `info`, and writes it to `walker`. Where the data
/// do not cover the address or give no caller, nothing is written.
pub fn walk_with_stack_win<W: FrameWalker>(info: &StackInfoWin, address: u64, walker: &mut W) -> (r:
    Option<()>)
    ensures
        match unwound_by_win(
            info@,
            address,
            old(walker).callee(),
            old(walker).settable(),
            old(walker).caller(),
        ) {
            Some(caller) => {
                &&& r is Some
                &&& final(walker).caller() == caller
                &&& final(walker).callee() == old(walker).callee()
                &&& final(walker).settable() == old(walker).settable()
            },
            None => r is None && *final(walker) == *old(walker),
        },
{
    if !info.covers(address) {
        return None;
    }
    match &info.program_string_or_base_pointer {
        WinStackThing::ProgramString(program) => unwind_by_program(program.as_slice(), walker),
        WinStackThing::AllocatesBasePointer(allocates) => unwind_by_fpo(info, *allocates, walker),
    }
}

/// The frame of the caller as a symbol file recovers it for a callee in a
/// module loaded at `base`: by the unwinding rules nearest below the
/// instruction, or, where they give no caller, by the Windows unwinding data
/// nearest below it.
pub open spec fn unwound_by_file(
    file: SymbolFileView,
    base: u64,
    callee: CalleeFrame,
    settable: Set<Seq<char>>,
    before: CallerFrame,
) -> Option<CallerFrame> {
    if callee.instruction < base {
        None
    } else {
        let address = (callee.instruction - base) as u64;
        let by_cfi = match nearest_below(file.cfi, address) {
            Some(info) => unwound_by_cfi(info, address, callee, settable, before),
            None => None,
        };
        if by_cfi is Some {
            by_cfi
        } else {
            match nearest_below(file.win, address) {
                Some(info) => unwound_by_win(info, address, callee, settable, before),
                None => None,
            }
        }
    }
}

/// What can be seen of a walker.
pub ghost struct WalkerState {
    /// What the walker knows of the callee.
    pub callee: CalleeFrame,
    /// What has been recovered of the caller.
    pub caller: CallerFrame,
    /// The names of the caller's registers that can be set.
    pub settable: RegisterNames,
}

/// What can be seen of the walker `walker`.
pub open spec fn walker_state<W: FrameWalker>(walker: W) -> WalkerState {
    WalkerState { callee: walker.callee(), caller: walker.caller(), settable: walker.settable() }
}

/// Whether what can be seen of a walker shows that the frame of the caller
/// was written to it as it was recovered. Where none was recovered, nothing
/// has changed and `r` is nothing.
pub open spec fn state_walked_by(
    caller: Option<CallerFrame>,
    before: WalkerState,
    after: WalkerState,
    r: Option<()>,
) -> bool {
    match caller {
        Some(caller) => r is Some && after == (WalkerState { caller, ..before }),
        None => r is None && after == before,
    }
}

/// Whether the frame of the caller was written to a walker as it was
/// recovered. Where none was recovered, the walker is as it was and `r` is
/// nothing.
pub open spec fn walked_by<W: FrameWalker>(
    caller: Option<CallerFrame>,
    before: W,
    after: W,
    r: Option<()>,
) -> bool {
    &&& state_walked_by(caller, walker_state(before), walker_state(after), r)
    &&& caller is None ==> after == before
}

impl SymbolFile {
    /// Recovers the frame of the caller of the frame that `walker` gives
    /// access to, in a module loaded at the base address of `module`, and
    /// writes it to `walker`. Where the file has no unwinding data that give
    /// a caller, nothing is written.
    pub fn walk_frame<W: FrameWalker>(&self, module: &SimpleModule, walker: &mut W) -> (r: Option<
        (),
    >)
        ensures
            walked_by(
                unwound_by_file(
                    self@,
                    module.base_address.unwrap_or(0),
                    old(walker).callee(),
                    old(walker).settable(),
                    old(walker).caller(),
                ),
                *old(walker),
                *final(walker),
                r,
            ),
    {
        let base = module.base_address();
        let instruction = walker.get_instruction();
        if instruction < base {
            return None;
        }
        let address = instruction - base;
        if let Some(info) = self.cfi_rules_for(address) {
            if walk_with_stack_cfi(info, address, walker).is_some() {
                return Some(());
            }
        }
        match self.win_frame_data_for(address) {
            Some(info) => walk_with_stack_win(info, address, walker),
            None => None,
        }
    }
}

/// A program gives a register no value that nothing gave one: not the
/// program itself, not the frame of the callee, and, for `.cfa`, not the
/// rules before. Its value is missing; nothing else goes wrong.
pub proof fn lemma_unset_register_has_no_value(ctx: Context, assigned: Seq<Binding>, name: Seq<u8>)
    requires
        assigned_value(ctx.program, assigned, name) is None,
        name == word_cfa() ==> ctx.cfa is None,
        text_value(name) matches Some(text) ==> !ctx.callee.registers.contains_key(text),
    ensures
        register_value(ctx, assigned, name) is None,
{
}

/// An operator that finds a name on the stack for which there is no value
/// ends the program without a result.
pub proof fn lemma_operator_needs_values(ctx: Context, m: Machine, op: BinaryOp)
    requires
        m.stack.len() < 2 || item_value(ctx, m.assigned, m.stack[m.stack.len() - 1]) is None
            || item_value(ctx, m.assigned, m.stack[m.stack.len() - 2]) is None,
    ensures
        after_op(ctx, m, op) is None,
{
}

/// Whether the run cannot go on at `pos`: there is a word there, and it is
/// no word of the language or cannot be carried out by the machine `m`, as
/// for want of an operand or of the value of a register.
pub open spec fn stuck_at(ctx: Context, pos: int, m: Machine) -> bool {
    let start = skip_over(ctx.program, pos, SPACE);
    let end = scan_to(ctx.program, start, SPACE);
    &&& 0 <= pos <= start < end <= ctx.program.len()
    &&& match token_of(ctx.program.subrange(start, end)) {
        Some(token) => step(ctx, m, token, start as usize, end as usize) is None,
        None => true,
    }
}

/// A word that cannot be carried out ends the run without a result,
/// whatever follows it.
pub proof fn lemma_stuck_word_ends_the_run(ctx: Context, pos: int, m: Machine)
    requires
        stuck_at(ctx, pos, m),
    ensures
        run(ctx, pos, m) is None,
{
}

/// Rules whose program for the frame address comes to no value give no
/// caller, and so do rules whose program for the return address comes to
/// none.
pub proof fn lemma_no_value_no_caller(
    rules: Seq<RuleView>,
    callee: CalleeFrame,
    settable: Set<Seq<char>>,
    before: CallerFrame,
)
    requires
        rule_value(rules, word_cfa(), callee, None) matches Some(cfa) ==> rule_value(
            rules,
            word_ra(),
            callee,
            Some(cfa),
        ) is None,
    ensures
        unwound_by_rules(rules, callee, settable, before) is None,
{
}

/// A rule for the frame address that uses a register of which nothing was
/// captured gives no caller: where the run of its program has come to a word
/// that cannot be carried out, the program has no value, the rules recover
/// no frame, and, unless Windows unwinding data stand in, the file recovers
/// none for the frame.
pub proof fn lemma_stuck_rule_gives_no_caller(
    file: SymbolFileView,
    base: u64,
    callee: CalleeFrame,
    settable: Set<Seq<char>>,
    before: CallerFrame,
    info: StackInfoCfiView,
    rules: Seq<RuleView>,
    rule: int,
    pos: int,
    m: Machine,
)
    requires
        callee.instruction >= base,
        nearest_below(file.cfi, (callee.instruction - base) as u64) == Some(info),
        nearest_below(file.win, (callee.instruction - base) as u64) is None,
        rules_in_force(info, (callee.instruction - base) as u64) == Some(rules),
        last_rule(rules, word_cfa()) == Some(rule),
        run(Context { program: rules[rule].program, callee, cfa: None }, 0, idle()) == run(
            Context { program: rules[rule].program, callee, cfa: None },
            pos,
            m,
        ),
        stuck_at(Context { program: rules[rule].program, callee, cfa: None }, pos, m),
    ensures
        expression_value(Context { program: rules[rule].program, callee, cfa: None }) is None,
        unwound_by_rules(rules, callee, settable, before) is None,
        unwound_by_file(file, base, callee, settable, before) is None,
{
    lemma_stuck_word_ends_the_run(
        Context { program: rules[rule].program, callee, cfa: None },
        pos,
        m,
    );
    lemma_no_value_no_caller(rules, callee, settable, before);
}

/// What a program computes depends on the text of the program, on the
/// frame of the callee and on the frame address alone: two runs against the
/// same registers and memory end alike.
pub proof fn lemma_evaluation_is_determined<V: FrameWalker, W: FrameWalker>(
    program: Seq<u8>,
    first: &V,
    second: &W,
    cfa: Option<u64>,
)
    requires
        first.callee() == second.callee(),
    ensures
        run(context_of(program, first, cfa), 0, idle()) == run(
            context_of(program, second, cfa),
            0,
            idle(),
        ),
        expression_value(context_of(program, first, cfa)) == expression_value(
            context_of(program, second, cfa),
        ),
{
}

} // verus!
