//! The execution engine: machine state, instruction semantics and control
//! transfer, as a small-step machine.
//!
//! `step` executes one instruction (or one piece of control bookkeeping) and
//! returns an [`Act`] telling the caller what to do next. Work the library
//! cannot perform itself — floating-point arithmetic, console I/O, process
//! termination — is handed to the caller: a [`FloatOp`] is answered through
//! `resume_float`, a line of input through `resume_line`, and output,
//! state-dump, exit and fatal-error acts are performed by the caller
//! directly. Every transition is specified exactly, as a function of the
//! machine state and, where one is expected, the caller's answer.

use vstd::prelude::*;

use crate::chars::chars_eq_str;
use crate::chars::chars_eq_str_ignore_case;
use crate::chars::chars_sub;
use crate::chars::chars_to_string;
use crate::chars::lemma_seq_views_drop_last;
use crate::chars::lemma_seq_views_push;
use crate::chars::lemma_seq_views_update;
use crate::chars::seq_views;
use crate::chars::spec_trim;
use crate::chars::str_to_chars;
use crate::chars::trim_chars;
use crate::regs::reg_index;
use crate::regs::reg_of_token;
use crate::regs::spec_reg_index;
use crate::regs::spec_reg_of_token;
use crate::regs::RegName;
use crate::token::determine_type;
use crate::token::spec_classify;
use crate::token::spec_tokenize;
use crate::token::tokenize_chars;
use crate::token::Classified;
use crate::token::ClassifiedV;
use crate::loader::parse_functions;
use crate::loader::spec_load;
use crate::loader::spec_source_lines;
use crate::value::render_plain;
use crate::value::spec_render_plain;
use crate::value::Value;
use crate::value::ValueV;

verus! {

/// A named, ordered block of instruction lines.
#[derive(Debug)]
pub struct Function {
    pub name: String,
    pub body: Vec<String>,
}

/// The mathematical model of a [`Function`].
#[verifier::ext_equal]
pub struct FunctionV {
    pub name: Seq<char>,
    pub body: Seq<Seq<char>>,
}

impl View for Function {
    type V = FunctionV;

    open spec fn view(&self) -> FunctionV {
        FunctionV { name: self.name@, body: seq_views(self.body@) }
    }
}

/// One entry of the control stack: either a position inside a function's
/// body, or a pending number of repetitions of a jump target (the `LOOP`
/// instruction).
#[derive(Debug)]
pub enum Frame {
    Body { func: usize, pc: usize },
    Repeat { label: String, remaining: u64 },
}

/// The mathematical model of a [`Frame`].
#[verifier::ext_equal]
pub enum FrameV {
    Body { func: usize, pc: usize },
    Repeat { label: Seq<char>, remaining: u64 },
}

impl View for Frame {
    type V = FrameV;

    open spec fn view(&self) -> FrameV {
        match self {
            Frame::Body { func, pc } => FrameV::Body { func: *func, pc: *pc },
            Frame::Repeat { label, remaining } => FrameV::Repeat {
                label: label@,
                remaining: *remaining,
            },
        }
    }
}

/// A binary arithmetic operation handed to the caller's float unit.
#[derive(Clone, Copy, Debug, PartialEq, Eq, Structural)]
pub enum BinOp {
    Add,
    Sub,
    Mul,
    Div,
}

/// A numeric operand of a float operation: an integer to be promoted, or a
/// floating-point bit pattern.
#[derive(Clone, Copy, Debug, PartialEq, Eq, Structural)]
pub enum Num {
    I(i64),
    F(u64),
}

/// Floating-point work requested from the caller. The caller performs the
/// operation on 64-bit IEEE-754 floats, promoting `Num::I` operands, and
/// answers with the corresponding [`FloatAns`].
#[derive(Debug)]
pub enum FloatOp {
    /// Parse a literal token; answer `Parsed` (`None` if unparseable).
    Parse(String),
    /// Compute `a op b`; answer `BinResult` with the result's bit pattern
    /// and whether it equals zero — or `DivByZero` for a division whose
    /// divisor equals zero.
    Bin(BinOp, Num, Num),
    /// Compare `a` with `b`; answer `CmpResult`.
    Cmp(Num, Num),
    /// Render the value in its natural decimal form; answer `Rendered`.
    Render(u64),
    /// The value truncated to a 32-bit integer; answer `Truncated`.
    Trunc(u64),
}

/// The mathematical model of a [`FloatOp`].
#[verifier::ext_equal]
pub enum FloatOpV {
    Parse(Seq<char>),
    Bin(BinOp, Num, Num),
    Cmp(Num, Num),
    Render(u64),
    Trunc(u64),
}

impl View for FloatOp {
    type V = FloatOpV;

    open spec fn view(&self) -> FloatOpV {
        match self {
            FloatOp::Parse(t) => FloatOpV::Parse(t@),
            FloatOp::Bin(op, a, b) => FloatOpV::Bin(*op, *a, *b),
            FloatOp::Cmp(a, b) => FloatOpV::Cmp(*a, *b),
            FloatOp::Render(b) => FloatOpV::Render(*b),
            FloatOp::Trunc(b) => FloatOpV::Trunc(*b),
        }
    }
}

/// The caller's answer to a [`FloatOp`].
#[derive(Debug)]
pub enum FloatAns {
    Parsed(Option<u64>),
    BinResult { bits: u64, zero: bool },
    DivByZero,
    CmpResult { eq: bool, gt: bool, lt: bool },
    Rendered(String),
    Truncated(i64),
}

/// The mathematical model of a [`FloatAns`].
#[verifier::ext_equal]
pub enum FloatAnsV {
    Parsed(Option<u64>),
    BinResult { bits: u64, zero: bool },
    DivByZero,
    CmpResult { eq: bool, gt: bool, lt: bool },
    Rendered(Seq<char>),
    Truncated(i64),
}

impl View for FloatAns {
    type V = FloatAnsV;

    open spec fn view(&self) -> FloatAnsV {
        match self {
            FloatAns::Parsed(o) => FloatAnsV::Parsed(*o),
            FloatAns::BinResult { bits, zero } => FloatAnsV::BinResult {
                bits: *bits,
                zero: *zero,
            },
            FloatAns::DivByZero => FloatAnsV::DivByZero,
            FloatAns::CmpResult { eq, gt, lt } => FloatAnsV::CmpResult {
                eq: *eq,
                gt: *gt,
                lt: *lt,
            },
            FloatAns::Rendered(s) => FloatAnsV::Rendered(s@),
            FloatAns::Truncated(t) => FloatAnsV::Truncated(*t),
        }
    }
}

/// A structural error: unrecoverable by design. The caller prints a
/// diagnostic and ends the process with a failure status.
#[derive(Debug)]
pub enum RunError {
    /// A register operand does not name a register.
    NoSuchRegister { name: String },
    /// The operand types do not fit the requested operation.
    TypeMismatch { name: String },
    /// Division by a zero-valued operand.
    DivideByZero,
    /// `POP` from the empty stack.
    EmptyStack,
    /// A jump target that is neither built in nor a loaded function.
    NoSuchFunction { name: String },
    /// A literal token that no classification rule accepts.
    UnknownLiteral { token: String },
    /// A token containing `.` that is not a valid floating-point literal.
    BadFloatLiteral { token: String },
    /// A `fun` declaration line without exactly one following name token.
    BadDeclaration { line: String },
    /// `run` was asked to start, but no function is named `main`.
    NoMain,
}

/// The mathematical model of a [`RunError`].
#[verifier::ext_equal]
pub enum RunErrorV {
    NoSuchRegister { name: Seq<char> },
    TypeMismatch { name: Seq<char> },
    DivideByZero,
    EmptyStack,
    NoSuchFunction { name: Seq<char> },
    UnknownLiteral { token: Seq<char> },
    BadFloatLiteral { token: Seq<char> },
    BadDeclaration { line: Seq<char> },
    NoMain,
}

impl View for RunError {
    type V = RunErrorV;

    open spec fn view(&self) -> RunErrorV {
        match self {
            RunError::NoSuchRegister { name } => RunErrorV::NoSuchRegister { name: name@ },
            RunError::TypeMismatch { name } => RunErrorV::TypeMismatch { name: name@ },
            RunError::DivideByZero => RunErrorV::DivideByZero,
            RunError::EmptyStack => RunErrorV::EmptyStack,
            RunError::NoSuchFunction { name } => RunErrorV::NoSuchFunction { name: name@ },
            RunError::UnknownLiteral { token } => RunErrorV::UnknownLiteral { token: token@ },
            RunError::BadFloatLiteral { token } => RunErrorV::BadFloatLiteral { token: token@ },
            RunError::BadDeclaration { line } => RunErrorV::BadDeclaration { line: line@ },
            RunError::NoMain => RunErrorV::NoMain,
        }
    }
}

/// Where the value of a parsed floating-point literal goes once the caller
/// has produced it.
#[derive(Debug)]
pub enum LitDest {
    /// Store into the destination register.
    Mov(RegName),
    /// Push onto the stack.
    Push,
    /// Right operand of an arithmetic instruction; the token names the
    /// destination register, kept for diagnostics.
    Bin { op: BinOp, dst: RegName, dst_tok: String },
    /// Right operand of a comparison.
    Cmp(RegName),
}

/// The mathematical model of a [`LitDest`].
#[verifier::ext_equal]
pub enum LitDestV {
    Mov(RegName),
    Push,
    Bin { op: BinOp, dst: RegName, dst_tok: Seq<char> },
    Cmp(RegName),
}

impl View for LitDest {
    type V = LitDestV;

    open spec fn view(&self) -> LitDestV {
        match self {
            LitDest::Mov(r) => LitDestV::Mov(*r),
            LitDest::Push => LitDestV::Push,
            LitDest::Bin { op, dst, dst_tok } => LitDestV::Bin {
                op: *op,
                dst: *dst,
                dst_tok: dst_tok@,
            },
            LitDest::Cmp(r) => LitDestV::Cmp(*r),
        }
    }
}

/// What a requested rendering is for.
#[derive(Clone, Copy, Debug, PartialEq, Eq, Structural)]
pub enum RenderDest {
    Print,
    PrintLine,
    Exit,
}

/// The machine's control mode: ready to execute, waiting for a caller's
/// answer, or halted.
#[derive(Debug)]
pub enum Mode {
    Ready,
    /// Waiting for `Parsed`; the token is kept for diagnostics.
    AwaitParse { dest: LitDest, token: String },
    /// Waiting for `BinResult` or `DivByZero`. When `zero_override` is set,
    /// the zero flag is taken from it instead of from the answer (integer
    /// division computes its flag from the integer quotient).
    AwaitBin { dst: RegName, zero_override: Option<bool> },
    /// Waiting for `CmpResult`.
    AwaitCmp,
    /// Waiting for `Rendered`.
    AwaitRender { what: RenderDest },
    /// Waiting for `Truncated`.
    AwaitTrunc { label: String },
    /// Waiting for a line of input.
    AwaitLine,
    /// Terminal: `ok` after the `exit` built-in, not `ok` after a fatal
    /// error.
    Halted { ok: bool },
}

/// The mathematical model of a [`Mode`].
#[verifier::ext_equal]
pub enum ModeV {
    Ready,
    AwaitParse { dest: LitDestV, token: Seq<char> },
    AwaitBin { dst: RegName, zero_override: Option<bool> },
    AwaitCmp,
    AwaitRender { what: RenderDest },
    AwaitTrunc { label: Seq<char> },
    AwaitLine,
    Halted { ok: bool },
}

impl View for Mode {
    type V = ModeV;

    open spec fn view(&self) -> ModeV {
        match self {
            Mode::Ready => ModeV::Ready,
            Mode::AwaitParse { dest, token } => ModeV::AwaitParse {
                dest: dest@,
                token: token@,
            },
            Mode::AwaitBin { dst, zero_override } => ModeV::AwaitBin {
                dst: *dst,
                zero_override: *zero_override,
            },
            Mode::AwaitCmp => ModeV::AwaitCmp,
            Mode::AwaitRender { what } => ModeV::AwaitRender { what: *what },
            Mode::AwaitTrunc { label } => ModeV::AwaitTrunc { label: label@ },
            Mode::AwaitLine => ModeV::AwaitLine,
            Mode::Halted { ok } => ModeV::Halted { ok: *ok },
        }
    }
}

/// What the caller must do after a step.
#[derive(Debug)]
pub enum Act {
    /// One instruction (or one piece of control bookkeeping) completed.
    Ran,
    /// Nothing left to run: the control stack is empty.
    Idle,
    /// A soft diagnostic for the error stream; execution continues.
    Report(String),
    /// A soft diagnostic for the output stream; execution continues.
    Notice(String),
    /// Write to the output stream without a line break, flushing.
    Out(String),
    /// Write to the output stream with a line break.
    OutLine(String),
    /// Perform the floating-point work and answer through `resume_float`.
    NeedFloat(FloatOp),
    /// Read one line of input and answer through `resume_line`.
    NeedLine,
    /// Render the whole machine state to the output stream.
    ShowState,
    /// The `exit` built-in: print the status line and end the process with
    /// a success status. The machine is halted.
    Exit(String),
    /// A structural error: print a diagnostic and end the process with a
    /// failure status. The machine is halted.
    Fatal(RunError),
}

/// The mathematical model of an [`Act`].
#[verifier::ext_equal]
pub enum ActV {
    Ran,
    Idle,
    Report(Seq<char>),
    Notice(Seq<char>),
    Out(Seq<char>),
    OutLine(Seq<char>),
    NeedFloat(FloatOpV),
    NeedLine,
    ShowState,
    Exit(Seq<char>),
    Fatal(RunErrorV),
}

impl View for Act {
    type V = ActV;

    open spec fn view(&self) -> ActV {
        match self {
            Act::Ran => ActV::Ran,
            Act::Idle => ActV::Idle,
            Act::Report(s) => ActV::Report(s@),
            Act::Notice(s) => ActV::Notice(s@),
            Act::Out(s) => ActV::Out(s@),
            Act::OutLine(s) => ActV::OutLine(s@),
            Act::NeedFloat(op) => ActV::NeedFloat(op@),
            Act::NeedLine => ActV::NeedLine,
            Act::ShowState => ActV::ShowState,
            Act::Exit(s) => ActV::Exit(s@),
            Act::Fatal(e) => ActV::Fatal(e@),
        }
    }
}

/// The machine: register file, operand stack, flags, function table and
/// control stack.
#[derive(Debug)]
pub struct Machine {
    regs: Vec<Value>,
    stack: Vec<Value>,
    functions: Vec<Function>,
    frames: Vec<Frame>,
    equal_flag: bool,
    greater_flag: bool,
    lesser_flag: bool,
    zero_flag: bool,
    mode: Mode,
}

/// The mathematical model of the whole [`Machine`].
#[verifier::ext_equal]
pub struct MachineV {
    pub regs: Seq<ValueV>,
    pub stack: Seq<ValueV>,
    pub functions: Seq<FunctionV>,
    pub frames: Seq<FrameV>,
    pub equal_flag: bool,
    pub greater_flag: bool,
    pub lesser_flag: bool,
    pub zero_flag: bool,
    pub mode: ModeV,
}

impl View for Machine {
    type V = MachineV;

    closed spec fn view(&self) -> MachineV {
        MachineV {
            regs: seq_views(self.regs@),
            stack: seq_views(self.stack@),
            functions: seq_views(self.functions@),
            frames: seq_views(self.frames@),
            equal_flag: self.equal_flag,
            greater_flag: self.greater_flag,
            lesser_flag: self.lesser_flag,
            zero_flag: self.zero_flag,
            mode: self.mode@,
        }
    }
}

/// Well-formedness: forty registers, and every body frame indexing a loaded
/// function.
pub open spec fn spec_wf(m: MachineV) -> bool {
    &&& m.regs.len() == 40
    &&& forall|i: int|
        0 <= i < m.frames.len() ==> match #[trigger] m.frames[i] {
            FrameV::Body { func, .. } => func < m.functions.len(),
            _ => true,
        }
    &&& (m.mode matches ModeV::AwaitParse { dest: LitDestV::Mov(r), .. } ==> r.wf())
    &&& (m.mode matches ModeV::AwaitParse { dest: LitDestV::Bin { dst, .. }, .. } ==> dst.wf())
    &&& (m.mode matches ModeV::AwaitParse { dest: LitDestV::Cmp(r), .. } ==> r.wf())
    &&& (m.mode matches ModeV::AwaitBin { dst, .. } ==> dst.wf())
}

// ---------------------------------------------------------------------------
// The specification-level semantics: each function below is the exact
// meaning of one machine transition, over the mathematical model.
// ---------------------------------------------------------------------------
/// The machine halted by a fatal error.
pub open spec fn spec_halt(m: MachineV) -> MachineV {
    MachineV { mode: ModeV::Halted { ok: false }, ..m }
}

/// The given state paired with a fatal act.
pub open spec fn spec_fatal(m: MachineV, e: RunErrorV) -> (MachineV, ActV) {
    (spec_halt(m), ActV::Fatal(e))
}

/// The value of a register.
pub open spec fn spec_reg_val(m: MachineV, r: RegName) -> ValueV {
    m.regs[spec_reg_index(r)]
}

/// The state with one register overwritten.
pub open spec fn spec_with_reg(m: MachineV, r: RegName, v: ValueV) -> MachineV {
    MachineV { regs: m.regs.update(spec_reg_index(r), v), ..m }
}

/// The index of the function with the given name: the first match, if any.
pub open spec fn spec_find_func(fs: Seq<FunctionV>, name: Seq<char>) -> Option<int> {
    if exists|i: int|
        0 <= i < fs.len() && fs[i].name == name && (forall|j: int|
            0 <= j < i ==> fs[j].name != name) {
        Some(
            choose|i: int|
                0 <= i < fs.len() && fs[i].name == name && (forall|j: int|
                    0 <= j < i ==> fs[j].name != name),
        )
    } else {
        None
    }
}

/// A token with one trailing comma stripped.
pub open spec fn spec_strip_comma(t: Seq<char>) -> Seq<char> {
    if t.len() > 0 && t.last() == ',' {
        t.drop_last()
    } else {
        t
    }
}

/// The absolute value.
pub open spec fn spec_abs(i: int) -> int {
    if i < 0 {
        -i
    } else {
        i
    }
}

/// `MOV dst, src`: the destination register receives the source operand's
/// value; no coercion, no flag changes.
pub open spec fn spec_mov(m: MachineV, dst_tok: Seq<char>, src_tok: Seq<char>) -> (
    MachineV,
    ActV,
) {
    match spec_reg_of_token(dst_tok) {
        None => spec_fatal(m, RunErrorV::NoSuchRegister { name: dst_tok }),
        Some(dst) => match spec_reg_of_token(src_tok) {
            Some(src) => (spec_with_reg(m, dst, spec_reg_val(m, src)), ActV::Ran),
            None => match spec_classify(src_tok) {
                ClassifiedV::Val(v) => (spec_with_reg(m, dst, v), ActV::Ran),
                ClassifiedV::FloatLit => (
                    MachineV {
                        mode: ModeV::AwaitParse { dest: LitDestV::Mov(dst), token: src_tok },
                        ..m
                    },
                    ActV::NeedFloat(FloatOpV::Parse(src_tok)),
                ),
                ClassifiedV::Unknown => spec_fatal(m, RunErrorV::UnknownLiteral { token: src_tok }),
            },
        },
    }
}

/// `PUSH src`: the source operand's value goes on top of the stack.
pub open spec fn spec_push(m: MachineV, src_tok: Seq<char>) -> (MachineV, ActV) {
    match spec_reg_of_token(src_tok) {
        Some(src) => (MachineV { stack: m.stack.push(spec_reg_val(m, src)), ..m }, ActV::Ran),
        None => match spec_classify(src_tok) {
            ClassifiedV::Val(v) => (MachineV { stack: m.stack.push(v), ..m }, ActV::Ran),
            ClassifiedV::FloatLit => (
                MachineV { mode: ModeV::AwaitParse { dest: LitDestV::Push, token: src_tok }, ..m },
                ActV::NeedFloat(FloatOpV::Parse(src_tok)),
            ),
            ClassifiedV::Unknown => spec_fatal(m, RunErrorV::UnknownLiteral { token: src_tok }),
        },
    }
}

/// `POP dst`: the top of the stack moves into the destination register;
/// fatal on an empty stack.
pub open spec fn spec_pop(m: MachineV, dst_tok: Seq<char>) -> (MachineV, ActV) {
    match spec_reg_of_token(dst_tok) {
        None => spec_fatal(m, RunErrorV::NoSuchRegister { name: dst_tok }),
        Some(dst) => if m.stack.len() == 0 {
            spec_fatal(m, RunErrorV::EmptyStack)
        } else {
            (
                MachineV {
                    stack: m.stack.drop_last(),
                    ..spec_with_reg(m, dst, m.stack.last())
                },
                ActV::Ran,
            )
        },
    }
}

/// `INC dst` / `DEC dst` (`up` selects which): add or subtract one on an
/// integer or floating-point register, wrapping on integer overflow, and
/// set the zero flag from the result; fatal on any other value.
pub open spec fn spec_incdec(m: MachineV, up: bool, dst_tok: Seq<char>) -> (MachineV, ActV) {
    match spec_reg_of_token(dst_tok) {
        None => spec_fatal(m, RunErrorV::NoSuchRegister { name: dst_tok }),
        Some(dst) => match spec_reg_val(m, dst) {
            ValueV::Int(i) => {
                let w = if up {
                    i.wrapping_add(1)
                } else {
                    i.wrapping_sub(1)
                };
                (
                    MachineV { zero_flag: w == 0, ..spec_with_reg(m, dst, ValueV::Int(w)) },
                    ActV::Ran,
                )
            },
            ValueV::Float(b) => {
                let op = if up {
                    BinOp::Add
                } else {
                    BinOp::Sub
                };
                (
                    MachineV { mode: ModeV::AwaitBin { dst, zero_override: None }, ..m },
                    ActV::NeedFloat(FloatOpV::Bin(op, Num::F(b), Num::I(1))),
                )
            },
            _ => spec_fatal(m, RunErrorV::TypeMismatch { name: dst_tok }),
        },
    }
}

/// The arithmetic core shared by `ADD`, `SUB`, `MUL` and `DIV`, applied to
/// the destination register's value and an already-resolved source value.
///
/// Integer pairs compute directly (wrapping), except that division always
/// produces a floating-point value: its bit pattern comes from the caller,
/// while the zero flag is decided here by the integer quotient. Pairs with
/// a floating-point side go to the caller. `ADD` concatenates two texts.
/// A division whose divisor is the integer zero is fatal at once; a
/// floating-point divisor is checked by the caller.
pub open spec fn spec_apply_bin(
    m: MachineV,
    op: BinOp,
    dst: RegName,
    dst_tok: Seq<char>,
    v: ValueV,
) -> (MachineV, ActV) {
    let a = spec_reg_val(m, dst);
    match a {
        ValueV::Int(i) => match v {
            ValueV::Int(j) => match op {
                BinOp::Add => {
                    let w = i.wrapping_add(j);
                    (
                        MachineV { zero_flag: w == 0, ..spec_with_reg(m, dst, ValueV::Int(w)) },
                        ActV::Ran,
                    )
                },
                BinOp::Sub => {
                    let w = i.wrapping_sub(j);
                    (
                        MachineV { zero_flag: w == 0, ..spec_with_reg(m, dst, ValueV::Int(w)) },
                        ActV::Ran,
                    )
                },
                BinOp::Mul => {
                    let w = i.wrapping_mul(j);
                    (
                        MachineV { zero_flag: w == 0, ..spec_with_reg(m, dst, ValueV::Int(w)) },
                        ActV::Ran,
                    )
                },
                BinOp::Div => {
                    if j == 0 {
                        spec_fatal(m, RunErrorV::DivideByZero)
                    } else {
                        (
                            MachineV {
                                mode: ModeV::AwaitBin {
                                    dst,
                                    zero_override: Some(spec_abs(i as int) < spec_abs(j as int)),
                                },
                                ..m
                            },
                            ActV::NeedFloat(FloatOpV::Bin(BinOp::Div, Num::I(i), Num::I(j))),
                        )
                    }
                },
            },
            ValueV::Float(b) => (
                MachineV { mode: ModeV::AwaitBin { dst, zero_override: None }, ..m },
                ActV::NeedFloat(FloatOpV::Bin(op, Num::I(i), Num::F(b))),
            ),
            _ => spec_fatal(m, RunErrorV::TypeMismatch { name: dst_tok }),
        },
        ValueV::Float(a_bits) => match v {
            ValueV::Int(j) => {
                if op == BinOp::Div && j == 0 {
                    spec_fatal(m, RunErrorV::DivideByZero)
                } else {
                    (
                        MachineV { mode: ModeV::AwaitBin { dst, zero_override: None }, ..m },
                        ActV::NeedFloat(FloatOpV::Bin(op, Num::F(a_bits), Num::I(j))),
                    )
                }
            },
            ValueV::Float(b) => (
                MachineV { mode: ModeV::AwaitBin { dst, zero_override: None }, ..m },
                ActV::NeedFloat(FloatOpV::Bin(op, Num::F(a_bits), Num::F(b))),
            ),
            _ => spec_fatal(m, RunErrorV::TypeMismatch { name: dst_tok }),
        },
        ValueV::Text(s) => match v {
            ValueV::Text(t) => {
                if op == BinOp::Add {
                    (spec_with_reg(m, dst, ValueV::Text(s + t)), ActV::Ran)
                } else {
                    spec_fatal(m, RunErrorV::TypeMismatch { name: dst_tok })
                }
            },
            _ => spec_fatal(m, RunErrorV::TypeMismatch { name: dst_tok }),
        },
        _ => spec_fatal(m, RunErrorV::TypeMismatch { name: dst_tok }),
    }
}

/// An arithmetic instruction: resolve the destination register and the
/// source operand, then apply [`spec_apply_bin`]; a floating-point literal
/// suspends on the caller's parser first.
pub open spec fn spec_binop(
    m: MachineV,
    op: BinOp,
    dst_tok: Seq<char>,
    src_tok: Seq<char>,
) -> (MachineV, ActV) {
    match spec_reg_of_token(dst_tok) {
        None => spec_fatal(m, RunErrorV::NoSuchRegister { name: dst_tok }),
        Some(dst) => match spec_reg_of_token(src_tok) {
            Some(src) => spec_apply_bin(m, op, dst, dst_tok, spec_reg_val(m, src)),
            None => match spec_classify(src_tok) {
                ClassifiedV::Val(v) => spec_apply_bin(m, op, dst, dst_tok, v),
                ClassifiedV::FloatLit => (
                    MachineV {
                        mode: ModeV::AwaitParse {
                            dest: LitDestV::Bin { op, dst, dst_tok },
                            token: src_tok,
                        },
                        ..m
                    },
                    ActV::NeedFloat(FloatOpV::Parse(src_tok)),
                ),
                ClassifiedV::Unknown => spec_fatal(m, RunErrorV::UnknownLiteral { token: src_tok }),
            },
        },
    }
}

/// The comparison core: integer pairs set all three flags from their order;
/// pairs with a floating-point side go to the caller; equal-type boolean and
/// text pairs set only the equal flag; every other pairing forces all three
/// flags false. The zero flag is untouched.
pub open spec fn spec_apply_cmp(m: MachineV, dst: RegName, v: ValueV) -> (MachineV, ActV) {
    let a = spec_reg_val(m, dst);
    match a {
        ValueV::Int(i) => match v {
            ValueV::Int(j) => (
                MachineV { equal_flag: i == j, greater_flag: i > j, lesser_flag: i < j, ..m },
                ActV::Ran,
            ),
            ValueV::Float(b) => (
                MachineV { mode: ModeV::AwaitCmp, ..m },
                ActV::NeedFloat(FloatOpV::Cmp(Num::I(i), Num::F(b))),
            ),
            _ => (
                MachineV { equal_flag: false, greater_flag: false, lesser_flag: false, ..m },
                ActV::Ran,
            ),
        },
        ValueV::Float(a_bits) => match v {
            ValueV::Int(j) => (
                MachineV { mode: ModeV::AwaitCmp, ..m },
                ActV::NeedFloat(FloatOpV::Cmp(Num::F(a_bits), Num::I(j))),
            ),
            ValueV::Float(b) => (
                MachineV { mode: ModeV::AwaitCmp, ..m },
                ActV::NeedFloat(FloatOpV::Cmp(Num::F(a_bits), Num::F(b))),
            ),
            _ => (
                MachineV { equal_flag: false, greater_flag: false, lesser_flag: false, ..m },
                ActV::Ran,
            ),
        },
        ValueV::Bool(x) => match v {
            ValueV::Bool(y) => (
                MachineV { equal_flag: x == y, greater_flag: false, lesser_flag: false, ..m },
                ActV::Ran,
            ),
            _ => (
                MachineV { equal_flag: false, greater_flag: false, lesser_flag: false, ..m },
                ActV::Ran,
            ),
        },
        ValueV::Text(s) => match v {
            ValueV::Text(t) => (
                MachineV { equal_flag: s == t, greater_flag: false, lesser_flag: false, ..m },
                ActV::Ran,
            ),
            _ => (
                MachineV { equal_flag: false, greater_flag: false, lesser_flag: false, ..m },
                ActV::Ran,
            ),
        },
        ValueV::Null => (
            MachineV { equal_flag: false, greater_flag: false, lesser_flag: false, ..m },
            ActV::Ran,
        ),
    }
}

/// `CMP dst, src`: recompute the equal/greater/lesser flags; no register
/// changes.
pub open spec fn spec_cmp(m: MachineV, dst_tok: Seq<char>, src_tok: Seq<char>) -> (
    MachineV,
    ActV,
) {
    match spec_reg_of_token(dst_tok) {
        None => spec_fatal(m, RunErrorV::NoSuchRegister { name: dst_tok }),
        Some(dst) => match spec_reg_of_token(src_tok) {
            Some(src) => spec_apply_cmp(m, dst, spec_reg_val(m, src)),
            None => match spec_classify(src_tok) {
                ClassifiedV::Val(v) => spec_apply_cmp(m, dst, v),
                ClassifiedV::FloatLit => (
                    MachineV {
                        mode: ModeV::AwaitParse { dest: LitDestV::Cmp(dst), token: src_tok },
                        ..m
                    },
                    ActV::NeedFloat(FloatOpV::Parse(src_tok)),
                ),
                ClassifiedV::Unknown => spec_fatal(m, RunErrorV::UnknownLiteral { token: src_tok }),
            },
        },
    }
}

/// The status line of the `exit` built-in.
pub open spec fn spec_exit_line(rendered: Seq<char>) -> Seq<char> {
    "Process exited with code '"@ + rendered + "'"@
}

/// Control transfer. The five reserved names resolve to built-in operations
/// before any function lookup; any other label re-enters the named
/// function's body, or is fatal if no function has that name.
pub open spec fn spec_jump(m: MachineV, label: Seq<char>) -> (MachineV, ActV) {
    if label == "debug"@ {
        (m, ActV::ShowState)
    } else if label == "print"@ {
        match spec_render_plain(spec_reg_val(m, RegName::P(0))) {
            Some(s) => (m, ActV::Out(s)),
            None => {
                let b = spec_reg_val(m, RegName::P(0))->Float_0;
                (
                    MachineV { mode: ModeV::AwaitRender { what: RenderDest::Print }, ..m },
                    ActV::NeedFloat(FloatOpV::Render(b)),
                )
            },
        }
    } else if label == "printline"@ {
        match spec_render_plain(spec_reg_val(m, RegName::P(0))) {
            Some(s) => (m, ActV::OutLine(s)),
            None => {
                let b = spec_reg_val(m, RegName::P(0))->Float_0;
                (
                    MachineV { mode: ModeV::AwaitRender { what: RenderDest::PrintLine }, ..m },
                    ActV::NeedFloat(FloatOpV::Render(b)),
                )
            },
        }
    } else if label == "input"@ {
        (MachineV { mode: ModeV::AwaitLine, ..m }, ActV::NeedLine)
    } else if label == "exit"@ {
        match spec_render_plain(spec_reg_val(m, RegName::P(0))) {
            Some(s) => (
                MachineV { mode: ModeV::Halted { ok: true }, ..m },
                ActV::Exit(spec_exit_line(s)),
            ),
            None => {
                let b = spec_reg_val(m, RegName::P(0))->Float_0;
                (
                    MachineV { mode: ModeV::AwaitRender { what: RenderDest::Exit }, ..m },
                    ActV::NeedFloat(FloatOpV::Render(b)),
                )
            },
        }
    } else {
        match spec_find_func(m.functions, label) {
            None => spec_fatal(m, RunErrorV::NoSuchFunction { name: label }),
            Some(fi) => (
                MachineV {
                    frames: m.frames.push(FrameV::Body { func: fi as usize, pc: 0 }),
                    ..m
                },
                ActV::Ran,
            ),
        }
    }
}

/// `LOOP label`: transfer to the label as many times as the integer value
/// of `L0`; a floating-point `L0` is truncated by the caller; anything else
/// is fatal. A non-positive count transfers zero times.
pub open spec fn spec_loop(m: MachineV, label: Seq<char>) -> (MachineV, ActV) {
    match spec_reg_val(m, RegName::L) {
        ValueV::Int(i) => {
            if i > 0 {
                (
                    MachineV {
                        frames: m.frames.push(
                            FrameV::Repeat { label, remaining: i as u64 },
                        ),
                        ..m
                    },
                    ActV::Ran,
                )
            } else {
                (m, ActV::Ran)
            }
        },
        ValueV::Float(b) => (
            MachineV { mode: ModeV::AwaitTrunc { label }, ..m },
            ActV::NeedFloat(FloatOpV::Trunc(b)),
        ),
        _ => spec_fatal(m, RunErrorV::TypeMismatch { name: "L0"@ }),
    }
}

/// One instruction line: tokenize, strip a trailing comma from the first
/// operand, match the mnemonic case-insensitively, and dispatch. A line
/// with fewer tokens than the instruction needs is reported softly; an
/// unknown mnemonic likewise.
pub open spec fn spec_execute(m: MachineV, line: Seq<char>) -> (MachineV, ActV) {
    let toks = spec_tokenize(line);
    if toks.len() < 2 {
        (m, ActV::Report("Invalid instruction: "@ + line))
    } else {
        let mn = spec_trim(toks[0]);
        let arg1 = spec_strip_comma(toks[1]);
        if crate::chars::spec_eq_ignore_ascii_case(mn, "MOV"@) {
            if toks.len() < 3 {
                (m, ActV::Report("Invalid instruction: "@ + line))
            } else {
                spec_mov(m, arg1, toks[2])
            }
        } else if crate::chars::spec_eq_ignore_ascii_case(mn, "PUSH"@) {
            spec_push(m, arg1)
        } else if crate::chars::spec_eq_ignore_ascii_case(mn, "POP"@) {
            spec_pop(m, arg1)
        } else if crate::chars::spec_eq_ignore_ascii_case(mn, "INC"@) {
            spec_incdec(m, true, arg1)
        } else if crate::chars::spec_eq_ignore_ascii_case(mn, "DEC"@) {
            spec_incdec(m, false, arg1)
        } else if crate::chars::spec_eq_ignore_ascii_case(mn, "ADD"@) {
            if toks.len() < 3 {
                (m, ActV::Report("Invalid instruction: "@ + line))
            } else {
                spec_binop(m, BinOp::Add, arg1, toks[2])
            }
        } else if crate::chars::spec_eq_ignore_ascii_case(mn, "SUB"@) {
            if toks.len() < 3 {
                (m, ActV::Report("Invalid instruction: "@ + line))
            } else {
                spec_binop(m, BinOp::Sub, arg1, toks[2])
            }
        } else if crate::chars::spec_eq_ignore_ascii_case(mn, "MUL"@) {
            if toks.len() < 3 {
                (m, ActV::Report("Invalid instruction: "@ + line))
            } else {
                spec_binop(m, BinOp::Mul, arg1, toks[2])
            }
        } else if crate::chars::spec_eq_ignore_ascii_case(mn, "DIV"@) {
            if toks.len() < 3 {
                (m, ActV::Report("Invalid instruction: "@ + line))
            } else {
                spec_binop(m, BinOp::Div, arg1, toks[2])
            }
        } else if crate::chars::spec_eq_ignore_ascii_case(mn, "CMP"@) {
            if toks.len() < 3 {
                (m, ActV::Report("Invalid instruction: "@ + line))
            } else {
                spec_cmp(m, arg1, toks[2])
            }
        } else if crate::chars::spec_eq_ignore_ascii_case(mn, "JMP"@) {
            spec_jump(m, arg1)
        } else if crate::chars::spec_eq_ignore_ascii_case(mn, "JE"@) {
            if m.equal_flag {
                spec_jump(m, arg1)
            } else {
                (m, ActV::Ran)
            }
        } else if crate::chars::spec_eq_ignore_ascii_case(mn, "JNE"@) {
            if !m.equal_flag {
                spec_jump(m, arg1)
            } else {
                (m, ActV::Ran)
            }
        } else if crate::chars::spec_eq_ignore_ascii_case(mn, "JG"@) {
            if m.greater_flag {
                spec_jump(m, arg1)
            } else {
                (m, ActV::Ran)
            }
        } else if crate::chars::spec_eq_ignore_ascii_case(mn, "JGE"@) {
            if m.greater_flag || m.equal_flag {
                spec_jump(m, arg1)
            } else {
                (m, ActV::Ran)
            }
        } else if crate::chars::spec_eq_ignore_ascii_case(mn, "JL"@) {
            // JL shares JGE's condition: a quirk of the language, kept.
            if m.greater_flag || m.equal_flag {
                spec_jump(m, arg1)
            } else {
                (m, ActV::Ran)
            }
        } else if crate::chars::spec_eq_ignore_ascii_case(mn, "JLE"@) {
            // JLE shares JGE's condition: a quirk of the language, kept.
            if m.greater_flag || m.equal_flag {
                spec_jump(m, arg1)
            } else {
                (m, ActV::Ran)
            }
        } else if crate::chars::spec_eq_ignore_ascii_case(mn, "JZ"@) {
            if m.zero_flag {
                spec_jump(m, arg1)
            } else {
                (m, ActV::Ran)
            }
        } else if crate::chars::spec_eq_ignore_ascii_case(mn, "JNZ"@) {
            if !m.zero_flag {
                spec_jump(m, arg1)
            } else {
                (m, ActV::Ran)
            }
        } else if crate::chars::spec_eq_ignore_ascii_case(mn, "LOOP"@) {
            spec_loop(m, arg1)
        } else {
            (m, ActV::Notice("Unknown command: "@ + toks[0]))
        }
    }
}

/// One small step: pop a finished frame, decrement and re-enter a repeat
/// frame, or fetch and execute the next instruction line of the top frame.
pub open spec fn spec_step(m: MachineV) -> (MachineV, ActV) {
    if m.frames.len() == 0 {
        (m, ActV::Idle)
    } else {
        match m.frames.last() {
            FrameV::Body { func, pc } => {
                let body = m.functions[func as int].body;
                if pc >= body.len() {
                    (MachineV { frames: m.frames.drop_last(), ..m }, ActV::Ran)
                } else {
                    let m2 = MachineV {
                        frames: m.frames.update(
                            m.frames.len() - 1,
                            FrameV::Body { func, pc: (pc + 1) as usize },
                        ),
                        ..m
                    };
                    spec_execute(m2, body[pc as int])
                }
            },
            FrameV::Repeat { label, remaining } => {
                if remaining == 0 {
                    (MachineV { frames: m.frames.drop_last(), ..m }, ActV::Ran)
                } else {
                    let m2 = MachineV {
                        frames: m.frames.update(
                            m.frames.len() - 1,
                            FrameV::Repeat { label, remaining: (remaining - 1) as u64 },
                        ),
                        ..m
                    };
                    spec_jump(m2, label)
                }
            },
        }
    }
}

/// Whether an answer fits what the machine is waiting for.
pub open spec fn spec_ans_matches(mode: ModeV, ans: FloatAnsV) -> bool {
    match mode {
        ModeV::AwaitParse { .. } => ans is Parsed,
        ModeV::AwaitBin { .. } => ans is BinResult || ans is DivByZero,
        ModeV::AwaitCmp => ans is CmpResult,
        ModeV::AwaitRender { .. } => ans is Rendered,
        ModeV::AwaitTrunc { .. } => ans is Truncated,
        _ => false,
    }
}

/// Resuming after the caller's floating-point work: the suspended
/// instruction completes with the answer in hand.
pub open spec fn spec_resume_float(m: MachineV, ans: FloatAnsV) -> (MachineV, ActV) {
    let ready = MachineV { mode: ModeV::Ready, ..m };
    match m.mode {
        ModeV::AwaitParse { dest, token } => match ans {
            FloatAnsV::Parsed(opt) => match opt {
                None => spec_fatal(m, RunErrorV::BadFloatLiteral { token }),
                Some(bits) => match dest {
                    LitDestV::Mov(dst) => (
                        spec_with_reg(ready, dst, ValueV::Float(bits)),
                        ActV::Ran,
                    ),
                    LitDestV::Push => (
                        MachineV { stack: ready.stack.push(ValueV::Float(bits)), ..ready },
                        ActV::Ran,
                    ),
                    LitDestV::Bin { op, dst, dst_tok } => spec_apply_bin(
                        ready,
                        op,
                        dst,
                        dst_tok,
                        ValueV::Float(bits),
                    ),
                    LitDestV::Cmp(dst) => spec_apply_cmp(ready, dst, ValueV::Float(bits)),
                },
            },
            _ => (m, ActV::Idle),
        },
        ModeV::AwaitBin { dst, zero_override } => match ans {
            FloatAnsV::BinResult { bits, zero } => {
                let z = match zero_override {
                    Some(q) => q,
                    None => zero,
                };
                (
                    MachineV {
                        zero_flag: z,
                        ..spec_with_reg(ready, dst, ValueV::Float(bits))
                    },
                    ActV::Ran,
                )
            },
            FloatAnsV::DivByZero => spec_fatal(m, RunErrorV::DivideByZero),
            _ => (m, ActV::Idle),
        },
        ModeV::AwaitCmp => match ans {
            FloatAnsV::CmpResult { eq, gt, lt } => (
                MachineV { equal_flag: eq, greater_flag: gt, lesser_flag: lt, ..ready },
                ActV::Ran,
            ),
            _ => (m, ActV::Idle),
        },
        ModeV::AwaitRender { what } => match ans {
            FloatAnsV::Rendered(s) => match what {
                RenderDest::Print => (ready, ActV::Out(s)),
                RenderDest::PrintLine => (ready, ActV::OutLine(s)),
                RenderDest::Exit => (
                    MachineV { mode: ModeV::Halted { ok: true }, ..m },
                    ActV::Exit(spec_exit_line(s)),
                ),
            },
            _ => (m, ActV::Idle),
        },
        ModeV::AwaitTrunc { label } => match ans {
            FloatAnsV::Truncated(t) => {
                if t > 0 {
                    (
                        MachineV {
                            frames: ready.frames.push(
                                FrameV::Repeat { label, remaining: t as u64 },
                            ),
                            ..ready
                        },
                        ActV::Ran,
                    )
                } else {
                    (ready, ActV::Ran)
                }
            },
            _ => (m, ActV::Idle),
        },
        _ => (m, ActV::Idle),
    }
}

/// Resuming after a line of input: the trimmed text goes into `RET0`.
pub open spec fn spec_resume_line(m: MachineV, line: Seq<char>) -> (MachineV, ActV) {
    (
        spec_with_reg(
            MachineV { mode: ModeV::Ready, ..m },
            RegName::Ret(0),
            ValueV::Text(spec_trim(line)),
        ),
        ActV::Ran,
    )
}

/// A token with one trailing comma stripped, as [`spec_strip_comma`]
/// describes.
fn strip_comma(v: &Vec<char>) -> (r: Vec<char>)
    ensures
        r@ == spec_strip_comma(v@),
{
    let n = v.len();
    if n > 0 && v[n - 1] == ',' {
        chars_sub(v, 0, n - 1)
    } else {
        let r = chars_sub(v, 0, n);
        proof {
            assert(v@.subrange(0, n as int) =~= v@);
        }
        r
    }
}

/// The magnitude of an integer, as a 64-bit unsigned value.
fn magnitude(i: i64) -> (m: u64)
    ensures
        m as int == spec_abs(i as int),
{
    if i >= 0 {
        i as u64
    } else {
        (-(i + 1)) as u64 + 1
    }
}

/// The status line of the `exit` built-in.
fn exit_line(s: &String) -> (r: String)
    ensures
        r@ == spec_exit_line(s@),
{
    String::from_str("Process exited with code '").concat(s.as_str()).concat("'")
}

impl Machine {
    /// The machine's invariant (see [`spec_wf`]).
    pub open spec fn wf(&self) -> bool {
        spec_wf(self@)
    }

    /// Whether the machine can execute an instruction: not waiting on a
    /// caller's answer and not halted.
    pub open spec fn spec_ready(&self) -> bool {
        self@.mode is Ready
    }

    /// A machine over a loaded function table: all registers `Null`, empty
    /// stack, all flags clear, nothing running.
    pub fn with_functions(functions: Vec<Function>) -> (m: Machine)
        ensures
            m.wf(),
            m@.functions == seq_views(functions@),
            m@.stack == Seq::<ValueV>::empty(),
            m@.frames == Seq::<FrameV>::empty(),
            m@.mode == ModeV::Ready,
            !m@.equal_flag && !m@.greater_flag && !m@.lesser_flag && !m@.zero_flag,
            forall|r: RegName| r.wf() ==> spec_reg_val(m@, r) == ValueV::Null,
    {
        let mut regs: Vec<Value> = Vec::new();
        let mut i: usize = 0;
        while i < 40
            invariant
                regs@.len() == i,
                i <= 40,
                forall|j: int| 0 <= j < i ==> seq_views(regs@)[j] == ValueV::Null,
            decreases 40 - i,
        {
            let ghost pre = regs@;
            regs.push(Value::Null);
            i = i + 1;
            proof {
                lemma_seq_views_push(pre, regs@.last());
            }
        }
        let m = Machine {
            regs,
            stack: Vec::new(),
            functions,
            frames: Vec::new(),
            equal_flag: false,
            greater_flag: false,
            lesser_flag: false,
            zero_flag: false,
            mode: Mode::Ready,
        };
        proof {
            assert(m@.stack =~= Seq::<ValueV>::empty());
            assert(m@.frames =~= Seq::<FrameV>::empty());
            assert forall|r: RegName| r.wf() implies spec_reg_val(m@, r) == ValueV::Null by {
                crate::regs::lemma_reg_index_bounds(r);
            }
        }
        m
    }

    /// The current value of a register (a copy).
    fn reg_read(&self, r: RegName) -> (v: Value)
        requires
            self.wf(),
            r.wf(),
        ensures
            v@ == spec_reg_val(self@, r),
    {
        let i = reg_index(r);
        proof {
            assert(seq_views(self.regs@).len() == self.regs@.len());
        }
        self.regs[i].clone()
    }

    /// Overwrites one register.
    fn reg_write(&mut self, r: RegName, v: Value)
        requires
            old(self).wf(),
            r.wf(),
        ensures
            final(self).wf(),
            final(self)@ == spec_with_reg(old(self)@, r, v@),
    {
        let ghost vv = v@;
        let ghost pre = self.regs@;
        let i = reg_index(r);
        proof {
            assert(seq_views(self.regs@).len() == self.regs@.len());
        }
        self.regs.set(i, v);
        proof {
            lemma_seq_views_update(pre, i as int, self.regs@[i as int]);
            assert(self@ =~= spec_with_reg(old(self)@, r, vv));
        }
    }

    /// Halts the machine with a fatal error.
    fn fatal(&mut self, e: RunError) -> (r: Act)
        ensures
            final(self)@ == spec_halt(old(self)@),
            r@ == ActV::Fatal(e@),
            spec_wf(old(self)@) ==> final(self).wf(),
    {
        let ghost ev = e@;
        self.mode = Mode::Halted { ok: false };
        proof {
            assert(self@ =~= spec_halt(old(self)@));
        }
        Act::Fatal(e)
    }

    /// The index of the function a label names, if any: the first match.
    fn find_func(&self, name: &Vec<char>) -> (r: Option<usize>)
        ensures
            match r {
                Some(i) => i < self@.functions.len() && spec_find_func(self@.functions, name@)
                    == Some(i as int),
                None => spec_find_func(self@.functions, name@) is None,
            },
    {
        let n = self.functions.len();
        let mut i: usize = 0;
        while i < n
            invariant
                n == self.functions@.len(),
                i <= n,
                forall|j: int| 0 <= j < i ==> seq_views(self.functions@)[j].name != name@,
            decreases n - i,
        {
            let f = &self.functions[i];
            if chars_eq_str(name, f.name.as_str()) {
                proof {
                    let fs = self@.functions;
                    assert(fs[i as int].name == name@);
                    assert((i as int) < fs.len() && fs[i as int].name == name@ && (forall|j: int|
                        0 <= j < i as int ==> fs[j].name != name@));
                    let k = choose|k: int|
                        0 <= k < fs.len() && fs[k].name == name@ && (forall|j: int|
                            0 <= j < k ==> fs[j].name != name@);
                    if k < i as int {
                        assert(fs[k].name != name@);
                    }
                    if k > i as int {
                        assert(fs[i as int].name != name@);
                    }
                    assert(k == i as int);
                }
                return Some(i);
            }
            i = i + 1;
        }
        proof {
            let fs = self@.functions;
            if spec_find_func(fs, name@) is Some {
                let k = choose|k: int|
                    0 <= k < fs.len() && fs[k].name == name@ && (forall|j: int|
                        0 <= j < k ==> fs[j].name != name@);
                assert(fs[k].name != name@);
            }
        }
        None
    }

    /// `MOV dst, src` (see [`spec_mov`]).
    fn mov(&mut self, reg: &Vec<char>, data: &Vec<char>) -> (r: Act)
        requires
            old(self).wf(),
            old(self).spec_ready(),
        ensures
            final(self).wf(),
            ({
                let (m2, a) = spec_mov(old(self)@, reg@, data@);
                final(self)@ == m2 && r@ == a
            }),
    {
        match reg_of_token(reg) {
            None => {
                let name = chars_to_string(reg);
                self.fatal(RunError::NoSuchRegister { name })
            },
            Some(dst) => match reg_of_token(data) {
                Some(src) => {
                    let v = self.reg_read(src);
                    self.reg_write(dst, v);
                    Act::Ran
                },
                None => match determine_type(data) {
                    Classified::Val(v) => {
                        self.reg_write(dst, v);
                        Act::Ran
                    },
                    Classified::FloatLit => {
                        let t = chars_to_string(data);
                        let t2 = t.clone();
                        self.mode = Mode::AwaitParse { dest: LitDest::Mov(dst), token: t };
                        proof {
                            assert(self@ =~= MachineV {
                                mode: ModeV::AwaitParse {
                                    dest: LitDestV::Mov(dst),
                                    token: data@,
                                },
                                ..old(self)@
                            });
                        }
                        Act::NeedFloat(FloatOp::Parse(t2))
                    },
                    Classified::Unknown => {
                        let token = chars_to_string(data);
                        self.fatal(RunError::UnknownLiteral { token })
                    },
                },
            },
        }
    }

    /// `PUSH src` (see [`spec_push`]).
    fn push(&mut self, data: &Vec<char>) -> (r: Act)
        requires
            old(self).wf(),
            old(self).spec_ready(),
        ensures
            final(self).wf(),
            ({
                let (m2, a) = spec_push(old(self)@, data@);
                final(self)@ == m2 && r@ == a
            }),
    {
        match reg_of_token(data) {
            Some(src) => {
                let v = self.reg_read(src);
                let ghost pre = self.stack@;
                self.stack.push(v);
                proof {
                    lemma_seq_views_push(pre, self.stack@.last());
                    assert(self@ =~= MachineV {
                        stack: old(self)@.stack.push(spec_reg_val(old(self)@, src)),
                        ..old(self)@
                    });
                }
                Act::Ran
            },
            None => match determine_type(data) {
                Classified::Val(v) => {
                    let ghost vv = v@;
                    let ghost pre = self.stack@;
                    self.stack.push(v);
                    proof {
                        lemma_seq_views_push(pre, self.stack@.last());
                        assert(self@ =~= MachineV {
                            stack: old(self)@.stack.push(vv),
                            ..old(self)@
                        });
                    }
                    Act::Ran
                },
                Classified::FloatLit => {
                    let t = chars_to_string(data);
                    let t2 = t.clone();
                    self.mode = Mode::AwaitParse { dest: LitDest::Push, token: t };
                    proof {
                        assert(self@ =~= MachineV {
                            mode: ModeV::AwaitParse { dest: LitDestV::Push, token: data@ },
                            ..old(self)@
                        });
                    }
                    Act::NeedFloat(FloatOp::Parse(t2))
                },
                Classified::Unknown => {
                    let token = chars_to_string(data);
                    self.fatal(RunError::UnknownLiteral { token })
                },
            },
        }
    }

    /// `POP dst` (see [`spec_pop`]).
    fn pop(&mut self, out_reg: &Vec<char>) -> (r: Act)
        requires
            old(self).wf(),
            old(self).spec_ready(),
        ensures
            final(self).wf(),
            ({
                let (m2, a) = spec_pop(old(self)@, out_reg@);
                final(self)@ == m2 && r@ == a
            }),
    {
        match reg_of_token(out_reg) {
            None => {
                let name = chars_to_string(out_reg);
                self.fatal(RunError::NoSuchRegister { name })
            },
            Some(dst) => {
                if self.stack.len() == 0 {
                    proof {
                        assert(seq_views(self.stack@).len() == self.stack@.len());
                    }
                    self.fatal(RunError::EmptyStack)
                } else {
                    let ghost pre = self.stack@;
                    let v = self.stack.pop().unwrap();
                    proof {
                        lemma_seq_views_drop_last(pre);
                    }
                    self.reg_write(dst, v);
                    proof {
                        assert(self@ =~= MachineV {
                            stack: old(self)@.stack.drop_last(),
                            ..spec_with_reg(old(self)@, dst, old(self)@.stack.last())
                        });
                    }
                    Act::Ran
                }
            },
        }
    }

    /// `INC dst` / `DEC dst` (see [`spec_incdec`]).
    fn incdec(&mut self, up: bool, reg: &Vec<char>) -> (r: Act)
        requires
            old(self).wf(),
            old(self).spec_ready(),
        ensures
            final(self).wf(),
            ({
                let (m2, a) = spec_incdec(old(self)@, up, reg@);
                final(self)@ == m2 && r@ == a
            }),
    {
        match reg_of_token(reg) {
            None => {
                let name = chars_to_string(reg);
                self.fatal(RunError::NoSuchRegister { name })
            },
            Some(dst) => {
                let cur = self.reg_read(dst);
                match cur {
                    Value::Int(i) => {
                        let w = if up {
                            i.wrapping_add(1)
                        } else {
                            i.wrapping_sub(1)
                        };
                        self.reg_write(dst, Value::Int(w));
                        self.zero_flag = w == 0;
                        proof {
                            assert(self@ =~= MachineV {
                                zero_flag: w == 0,
                                ..spec_with_reg(old(self)@, dst, ValueV::Int(w))
                            });
                        }
                        Act::Ran
                    },
                    Value::Float(b) => {
                        let op = if up {
                            BinOp::Add
                        } else {
                            BinOp::Sub
                        };
                        self.mode = Mode::AwaitBin { dst, zero_override: None };
                        proof {
                            assert(self@ =~= MachineV {
                                mode: ModeV::AwaitBin { dst, zero_override: None },
                                ..old(self)@
                            });
                        }
                        Act::NeedFloat(FloatOp::Bin(op, Num::F(b), Num::I(1)))
                    },
                    _ => {
                        let name = chars_to_string(reg);
                        self.fatal(RunError::TypeMismatch { name })
                    },
                }
            },
        }
    }

    /// `INC dst` (see [`spec_incdec`]).
    fn inc(&mut self, reg: &Vec<char>) -> (r: Act)
        requires
            old(self).wf(),
            old(self).spec_ready(),
        ensures
            final(self).wf(),
            ({
                let (m2, a) = spec_incdec(old(self)@, true, reg@);
                final(self)@ == m2 && r@ == a
            }),
    {
        self.incdec(true, reg)
    }

    /// `DEC dst` (see [`spec_incdec`]).
    fn dec(&mut self, reg: &Vec<char>) -> (r: Act)
        requires
            old(self).wf(),
            old(self).spec_ready(),
        ensures
            final(self).wf(),
            ({
                let (m2, a) = spec_incdec(old(self)@, false, reg@);
                final(self)@ == m2 && r@ == a
            }),
    {
        self.incdec(false, reg)
    }

    /// The arithmetic core (see [`spec_apply_bin`]): the destination's value
    /// against an already-resolved source value.
    fn apply_bin(&mut self, op: BinOp, dst: RegName, dst_tok: &String, v: Value) -> (r: Act)
        requires
            old(self).wf(),
            dst.wf(),
            old(self).spec_ready(),
        ensures
            final(self).wf(),
            ({
                let (m2, a) = spec_apply_bin(old(self)@, op, dst, dst_tok@, v@);
                final(self)@ == m2 && r@ == a
            }),
    {
        let a = self.reg_read(dst);
        match a {
            Value::Int(i) => match v {
                Value::Int(j) => match op {
                    BinOp::Add => {
                        let w = i.wrapping_add(j);
                        self.reg_write(dst, Value::Int(w));
                        self.zero_flag = w == 0;
                        proof {
                            assert(self@ =~= MachineV {
                                zero_flag: w == 0,
                                ..spec_with_reg(old(self)@, dst, ValueV::Int(w))
                            });
                        }
                        Act::Ran
                    },
                    BinOp::Sub => {
                        let w = i.wrapping_sub(j);
                        self.reg_write(dst, Value::Int(w));
                        self.zero_flag = w == 0;
                        proof {
                            assert(self@ =~= MachineV {
                                zero_flag: w == 0,
                                ..spec_with_reg(old(self)@, dst, ValueV::Int(w))
                            });
                        }
                        Act::Ran
                    },
                    BinOp::Mul => {
                        let w = i.wrapping_mul(j);
                        self.reg_write(dst, Value::Int(w));
                        self.zero_flag = w == 0;
                        proof {
                            assert(self@ =~= MachineV {
                                zero_flag: w == 0,
                                ..spec_with_reg(old(self)@, dst, ValueV::Int(w))
                            });
                        }
                        Act::Ran
                    },
                    BinOp::Div => {
                        if j == 0 {
                            self.fatal(RunError::DivideByZero)
                        } else {
                            let zo = magnitude(i) < magnitude(j);
                            self.mode = Mode::AwaitBin { dst, zero_override: Some(zo) };
                            proof {
                                assert(self@ =~= MachineV {
                                    mode: ModeV::AwaitBin { dst, zero_override: Some(zo) },
                                    ..old(self)@
                                });
                            }
                            Act::NeedFloat(FloatOp::Bin(BinOp::Div, Num::I(i), Num::I(j)))
                        }
                    },
                },
                Value::Float(b) => {
                    self.mode = Mode::AwaitBin { dst, zero_override: None };
                    proof {
                        assert(self@ =~= MachineV {
                            mode: ModeV::AwaitBin { dst, zero_override: None },
                            ..old(self)@
                        });
                    }
                    Act::NeedFloat(FloatOp::Bin(op, Num::I(i), Num::F(b)))
                },
                _ => {
                    let name = dst_tok.clone();
                    self.fatal(RunError::TypeMismatch { name })
                },
            },
            Value::Float(a_bits) => match v {
                Value::Int(j) => {
                    if op == BinOp::Div && j == 0 {
                        self.fatal(RunError::DivideByZero)
                    } else {
                        self.mode = Mode::AwaitBin { dst, zero_override: None };
                        proof {
                            assert(self@ =~= MachineV {
                                mode: ModeV::AwaitBin { dst, zero_override: None },
                                ..old(self)@
                            });
                        }
                        Act::NeedFloat(FloatOp::Bin(op, Num::F(a_bits), Num::I(j)))
                    }
                },
                Value::Float(b) => {
                    self.mode = Mode::AwaitBin { dst, zero_override: None };
                    proof {
                        assert(self@ =~= MachineV {
                            mode: ModeV::AwaitBin { dst, zero_override: None },
                            ..old(self)@
                        });
                    }
                    Act::NeedFloat(FloatOp::Bin(op, Num::F(a_bits), Num::F(b)))
                },
                _ => {
                    let name = dst_tok.clone();
                    self.fatal(RunError::TypeMismatch { name })
                },
            },
            Value::Text(s) => match v {
                Value::Text(t) => {
                    if op == BinOp::Add {
                        let joined = s.concat(t.as_str());
                        self.reg_write(dst, Value::Text(joined));
                        Act::Ran
                    } else {
                        let name = dst_tok.clone();
                        self.fatal(RunError::TypeMismatch { name })
                    }
                },
                _ => {
                    let name = dst_tok.clone();
                    self.fatal(RunError::TypeMismatch { name })
                },
            },
            _ => {
                let name = dst_tok.clone();
                self.fatal(RunError::TypeMismatch { name })
            },
        }
    }

    /// An arithmetic instruction (see [`spec_binop`]): resolve operands,
    /// then apply the core.
    fn binop(&mut self, op: BinOp, reg: &Vec<char>, data: &Vec<char>) -> (r: Act)
        requires
            old(self).wf(),
            old(self).spec_ready(),
        ensures
            final(self).wf(),
            ({
                let (m2, a) = spec_binop(old(self)@, op, reg@, data@);
                final(self)@ == m2 && r@ == a
            }),
    {
        match reg_of_token(reg) {
            None => {
                let name = chars_to_string(reg);
                self.fatal(RunError::NoSuchRegister { name })
            },
            Some(dst) => match reg_of_token(data) {
                Some(src) => {
                    let v = self.reg_read(src);
                    let dt = chars_to_string(reg);
                    self.apply_bin(op, dst, &dt, v)
                },
                None => match determine_type(data) {
                    Classified::Val(v) => {
                        let dt = chars_to_string(reg);
                        self.apply_bin(op, dst, &dt, v)
                    },
                    Classified::FloatLit => {
                        let t = chars_to_string(data);
                        let t2 = t.clone();
                        let dt = chars_to_string(reg);
                        self.mode = Mode::AwaitParse {
                            dest: LitDest::Bin { op, dst, dst_tok: dt },
                            token: t,
                        };
                        proof {
                            assert(self@ =~= MachineV {
                                mode: ModeV::AwaitParse {
                                    dest: LitDestV::Bin { op, dst, dst_tok: reg@ },
                                    token: data@,
                                },
                                ..old(self)@
                            });
                        }
                        Act::NeedFloat(FloatOp::Parse(t2))
                    },
                    Classified::Unknown => {
                        let token = chars_to_string(data);
                        self.fatal(RunError::UnknownLiteral { token })
                    },
                },
            },
        }
    }

    /// `ADD dst, src` (see [`spec_binop`]).
    fn add(&mut self, reg: &Vec<char>, data: &Vec<char>) -> (r: Act)
        requires
            old(self).wf(),
            old(self).spec_ready(),
        ensures
            final(self).wf(),
            ({
                let (m2, a) = spec_binop(old(self)@, BinOp::Add, reg@, data@);
                final(self)@ == m2 && r@ == a
            }),
    {
        self.binop(BinOp::Add, reg, data)
    }

    /// `SUB dst, src` (see [`spec_binop`]).
    fn sub(&mut self, reg: &Vec<char>, data: &Vec<char>) -> (r: Act)
        requires
            old(self).wf(),
            old(self).spec_ready(),
        ensures
            final(self).wf(),
            ({
                let (m2, a) = spec_binop(old(self)@, BinOp::Sub, reg@, data@);
                final(self)@ == m2 && r@ == a
            }),
    {
        self.binop(BinOp::Sub, reg, data)
    }

    /// `MUL dst, src` (see [`spec_binop`]).
    fn mul(&mut self, reg: &Vec<char>, data: &Vec<char>) -> (r: Act)
        requires
            old(self).wf(),
            old(self).spec_ready(),
        ensures
            final(self).wf(),
            ({
                let (m2, a) = spec_binop(old(self)@, BinOp::Mul, reg@, data@);
                final(self)@ == m2 && r@ == a
            }),
    {
        self.binop(BinOp::Mul, reg, data)
    }

    /// `DIV dst, src` (see [`spec_binop`]): the quotient is always
    /// floating-point; a zero divisor is fatal.
    fn div(&mut self, reg: &Vec<char>, data: &Vec<char>) -> (r: Act)
        requires
            old(self).wf(),
            old(self).spec_ready(),
        ensures
            final(self).wf(),
            ({
                let (m2, a) = spec_binop(old(self)@, BinOp::Div, reg@, data@);
                final(self)@ == m2 && r@ == a
            }),
    {
        self.binop(BinOp::Div, reg, data)
    }

    /// The comparison core (see [`spec_apply_cmp`]).
    fn apply_cmp(&mut self, dst: RegName, v: Value) -> (r: Act)
        requires
            old(self).wf(),
            dst.wf(),
            old(self).spec_ready(),
        ensures
            final(self).wf(),
            ({
                let (m2, a) = spec_apply_cmp(old(self)@, dst, v@);
                final(self)@ == m2 && r@ == a
            }),
    {
        let a = self.reg_read(dst);
        match a {
            Value::Int(i) => match v {
                Value::Int(j) => {
                    self.equal_flag = i == j;
                    self.greater_flag = i > j;
                    self.lesser_flag = i < j;
                    proof {
                        assert(self@ =~= MachineV {
                            equal_flag: i == j,
                            greater_flag: i > j,
                            lesser_flag: i < j,
                            ..old(self)@
                        });
                    }
                    Act::Ran
                },
                Value::Float(b) => {
                    self.mode = Mode::AwaitCmp;
                    proof {
                        assert(self@ =~= MachineV { mode: ModeV::AwaitCmp, ..old(self)@ });
                    }
                    Act::NeedFloat(FloatOp::Cmp(Num::I(i), Num::F(b)))
                },
                _ => self.clear_cmp_flags(),
            },
            Value::Float(a_bits) => match v {
                Value::Int(j) => {
                    self.mode = Mode::AwaitCmp;
                    proof {
                        assert(self@ =~= MachineV { mode: ModeV::AwaitCmp, ..old(self)@ });
                    }
                    Act::NeedFloat(FloatOp::Cmp(Num::F(a_bits), Num::I(j)))
                },
                Value::Float(b) => {
                    self.mode = Mode::AwaitCmp;
                    proof {
                        assert(self@ =~= MachineV { mode: ModeV::AwaitCmp, ..old(self)@ });
                    }
                    Act::NeedFloat(FloatOp::Cmp(Num::F(a_bits), Num::F(b)))
                },
                _ => self.clear_cmp_flags(),
            },
            Value::Bool(x) => match v {
                Value::Bool(y) => {
                    self.equal_flag = x == y;
                    self.greater_flag = false;
                    self.lesser_flag = false;
                    proof {
                        assert(self@ =~= MachineV {
                            equal_flag: x == y,
                            greater_flag: false,
                            lesser_flag: false,
                            ..old(self)@
                        });
                    }
                    Act::Ran
                },
                _ => self.clear_cmp_flags(),
            },
            Value::Text(s) => match v {
                Value::Text(t) => {
                    let e = s == t;
                    self.equal_flag = e;
                    self.greater_flag = false;
                    self.lesser_flag = false;
                    proof {
                        assert(self@ =~= MachineV {
                            equal_flag: e,
                            greater_flag: false,
                            lesser_flag: false,
                            ..old(self)@
                        });
                    }
                    Act::Ran
                },
                _ => self.clear_cmp_flags(),
            },
            Value::Null => self.clear_cmp_flags(),
        }
    }

    /// A mismatched comparison: all three comparison flags forced false.
    fn clear_cmp_flags(&mut self) -> (r: Act)
        ensures
            final(self)@ == (MachineV {
                equal_flag: false,
                greater_flag: false,
                lesser_flag: false,
                ..old(self)@
            }),
            r@ == ActV::Ran,
            spec_wf(old(self)@) ==> final(self).wf(),
    {
        self.equal_flag = false;
        self.greater_flag = false;
        self.lesser_flag = false;
        proof {
            assert(self@ =~= MachineV {
                equal_flag: false,
                greater_flag: false,
                lesser_flag: false,
                ..old(self)@
            });
        }
        Act::Ran
    }

    /// `CMP dst, src` (see [`spec_cmp`]).
    fn cmp(&mut self, reg: &Vec<char>, data: &Vec<char>) -> (r: Act)
        requires
            old(self).wf(),
            old(self).spec_ready(),
        ensures
            final(self).wf(),
            ({
                let (m2, a) = spec_cmp(old(self)@, reg@, data@);
                final(self)@ == m2 && r@ == a
            }),
    {
        match reg_of_token(reg) {
            None => {
                let name = chars_to_string(reg);
                self.fatal(RunError::NoSuchRegister { name })
            },
            Some(dst) => match reg_of_token(data) {
                Some(src) => {
                    let v = self.reg_read(src);
                    self.apply_cmp(dst, v)
                },
                None => match determine_type(data) {
                    Classified::Val(v) => self.apply_cmp(dst, v),
                    Classified::FloatLit => {
                        let t = chars_to_string(data);
                        let t2 = t.clone();
                        self.mode = Mode::AwaitParse { dest: LitDest::Cmp(dst), token: t };
                        proof {
                            assert(self@ =~= MachineV {
                                mode: ModeV::AwaitParse {
                                    dest: LitDestV::Cmp(dst),
                                    token: data@,
                                },
                                ..old(self)@
                            });
                        }
                        Act::NeedFloat(FloatOp::Parse(t2))
                    },
                    Classified::Unknown => {
                        let token = chars_to_string(data);
                        self.fatal(RunError::UnknownLiteral { token })
                    },
                },
            },
        }
    }

    /// `JMP label` (see [`spec_jump`]): built-ins first, then the function
    /// table.
    fn jmp(&mut self, label: &Vec<char>) -> (r: Act)
        requires
            old(self).wf(),
            old(self).spec_ready(),
        ensures
            final(self).wf(),
            ({
                let (m2, a) = spec_jump(old(self)@, label@);
                final(self)@ == m2 && r@ == a
            }),
    {
        if chars_eq_str(label, "debug") {
            return Act::ShowState;
        }
        if chars_eq_str(label, "print") {
            let p0 = self.reg_read(RegName::P(0));
            match render_plain(&p0) {
                Some(s) => {
                    return Act::Out(s);
                },
                None => match p0 {
                    Value::Float(b) => {
                        self.mode = Mode::AwaitRender { what: RenderDest::Print };
                        proof {
                            assert(self@ =~= MachineV {
                                mode: ModeV::AwaitRender { what: RenderDest::Print },
                                ..old(self)@
                            });
                        }
                        return Act::NeedFloat(FloatOp::Render(b));
                    },
                    _ => {
                        proof {
                            assert(false);
                        }
                        return Act::Ran;
                    },
                },
            }
        }
        if chars_eq_str(label, "printline") {
            let p0 = self.reg_read(RegName::P(0));
            match render_plain(&p0) {
                Some(s) => {
                    return Act::OutLine(s);
                },
                None => match p0 {
                    Value::Float(b) => {
                        self.mode = Mode::AwaitRender { what: RenderDest::PrintLine };
                        proof {
                            assert(self@ =~= MachineV {
                                mode: ModeV::AwaitRender { what: RenderDest::PrintLine },
                                ..old(self)@
                            });
                        }
                        return Act::NeedFloat(FloatOp::Render(b));
                    },
                    _ => {
                        proof {
                            assert(false);
                        }
                        return Act::Ran;
                    },
                },
            }
        }
        if chars_eq_str(label, "input") {
            self.mode = Mode::AwaitLine;
            proof {
                assert(self@ =~= MachineV { mode: ModeV::AwaitLine, ..old(self)@ });
            }
            return Act::NeedLine;
        }
        if chars_eq_str(label, "exit") {
            let p0 = self.reg_read(RegName::P(0));
            match render_plain(&p0) {
                Some(s) => {
                    self.mode = Mode::Halted { ok: true };
                    proof {
                        assert(self@ =~= MachineV {
                            mode: ModeV::Halted { ok: true },
                            ..old(self)@
                        });
                    }
                    let line = exit_line(&s);
                    return Act::Exit(line);
                },
                None => match p0 {
                    Value::Float(b) => {
                        self.mode = Mode::AwaitRender { what: RenderDest::Exit };
                        proof {
                            assert(self@ =~= MachineV {
                                mode: ModeV::AwaitRender { what: RenderDest::Exit },
                                ..old(self)@
                            });
                        }
                        return Act::NeedFloat(FloatOp::Render(b));
                    },
                    _ => {
                        proof {
                            assert(false);
                        }
                        return Act::Ran;
                    },
                },
            }
        }
        match self.find_func(label) {
            None => {
                let name = chars_to_string(label);
                self.fatal(RunError::NoSuchFunction { name })
            },
            Some(fi) => {
                let ghost pre = self.frames@;
                self.frames.push(Frame::Body { func: fi, pc: 0 });
                proof {
                    lemma_seq_views_push(pre, self.frames@.last());
                    assert(self@ =~= MachineV {
                        frames: old(self)@.frames.push(
                            FrameV::Body { func: fi, pc: 0 },
                        ),
                        ..old(self)@
                    });
                    assert(self.wf());
                }
                Act::Ran
            },
        }
    }

    /// `LOOP label` (see [`spec_loop`]).
    fn loop_(&mut self, label: &Vec<char>) -> (r: Act)
        requires
            old(self).wf(),
            old(self).spec_ready(),
        ensures
            final(self).wf(),
            ({
                let (m2, a) = spec_loop(old(self)@, label@);
                final(self)@ == m2 && r@ == a
            }),
    {
        let l0 = self.reg_read(RegName::L);
        match l0 {
            Value::Int(i) => {
                if i > 0 {
                    let lab = chars_to_string(label);
                    let ghost pre = self.frames@;
                    self.frames.push(Frame::Repeat { label: lab, remaining: i as u64 });
                    proof {
                        lemma_seq_views_push(pre, self.frames@.last());
                        assert(self@ =~= MachineV {
                            frames: old(self)@.frames.push(
                                FrameV::Repeat { label: label@, remaining: i as u64 },
                            ),
                            ..old(self)@
                        });
                        assert(self.wf());
                    }
                    Act::Ran
                } else {
                    Act::Ran
                }
            },
            Value::Float(b) => {
                let lab = chars_to_string(label);
                self.mode = Mode::AwaitTrunc { label: lab };
                proof {
                    assert(self@ =~= MachineV {
                        mode: ModeV::AwaitTrunc { label: label@ },
                        ..old(self)@
                    });
                }
                Act::NeedFloat(FloatOp::Trunc(b))
            },
            _ => {
                let name = String::from_str("L0");
                self.fatal(RunError::TypeMismatch { name })
            },
        }
    }
}

impl Machine {
    /// Executes one instruction line (see [`spec_execute`]): tokenize, strip
    /// a trailing comma from the first operand, match the mnemonic
    /// case-insensitively, dispatch. Too few tokens or an unknown mnemonic
    /// are soft: the caller reports the line and execution continues.
    pub fn execute_line(&mut self, line: &str) -> (r: Act)
        requires
            old(self).wf(),
            old(self).spec_ready(),
        ensures
            final(self).wf(),
            ({
                let (m2, a) = spec_execute(old(self)@, line@);
                final(self)@ == m2 && r@ == a
            }),
    {
        let chars = str_to_chars(line);
        let toks = tokenize_chars(&chars);
        proof {
            assert(seq_views(toks@) == spec_tokenize(line@));
        }
        if toks.len() < 2 {
            proof {
                assert(seq_views(toks@).len() == toks@.len());
            }
            let msg = String::from_str("Invalid instruction: ").concat(line);
            return Act::Report(msg);
        }
        proof {
            assert(seq_views(toks@).len() == toks@.len());
            assert(toks@[0]@ == spec_tokenize(line@)[0]);
            assert(toks@[1]@ == spec_tokenize(line@)[1]);
        }
        let mn = trim_chars(&toks[0]);
        let arg1 = strip_comma(&toks[1]);
        if chars_eq_str_ignore_case(&mn, "MOV") {
            if toks.len() < 3 {
                let msg = String::from_str("Invalid instruction: ").concat(line);
                Act::Report(msg)
            } else {
                proof {
                    assert(toks@[2]@ == spec_tokenize(line@)[2]);
                }
                self.mov(&arg1, &toks[2])
            }
        } else if chars_eq_str_ignore_case(&mn, "PUSH") {
            self.push(&arg1)
        } else if chars_eq_str_ignore_case(&mn, "POP") {
            self.pop(&arg1)
        } else if chars_eq_str_ignore_case(&mn, "INC") {
            self.inc(&arg1)
        } else if chars_eq_str_ignore_case(&mn, "DEC") {
            self.dec(&arg1)
        } else if chars_eq_str_ignore_case(&mn, "ADD") {
            if toks.len() < 3 {
                let msg = String::from_str("Invalid instruction: ").concat(line);
                Act::Report(msg)
            } else {
                proof {
                    assert(toks@[2]@ == spec_tokenize(line@)[2]);
                }
                self.add(&arg1, &toks[2])
            }
        } else if chars_eq_str_ignore_case(&mn, "SUB") {
            if toks.len() < 3 {
                let msg = String::from_str("Invalid instruction: ").concat(line);
                Act::Report(msg)
            } else {
                proof {
                    assert(toks@[2]@ == spec_tokenize(line@)[2]);
                }
                self.sub(&arg1, &toks[2])
            }
        } else if chars_eq_str_ignore_case(&mn, "MUL") {
            if toks.len() < 3 {
                let msg = String::from_str("Invalid instruction: ").concat(line);
                Act::Report(msg)
            } else {
                proof {
                    assert(toks@[2]@ == spec_tokenize(line@)[2]);
                }
                self.mul(&arg1, &toks[2])
            }
        } else if chars_eq_str_ignore_case(&mn, "DIV") {
            if toks.len() < 3 {
                let msg = String::from_str("Invalid instruction: ").concat(line);
                Act::Report(msg)
            } else {
                proof {
                    assert(toks@[2]@ == spec_tokenize(line@)[2]);
                }
                self.div(&arg1, &toks[2])
            }
        } else if chars_eq_str_ignore_case(&mn, "CMP") {
            if toks.len() < 3 {
                let msg = String::from_str("Invalid instruction: ").concat(line);
                Act::Report(msg)
            } else {
                proof {
                    assert(toks@[2]@ == spec_tokenize(line@)[2]);
                }
                self.cmp(&arg1, &toks[2])
            }
        } else if chars_eq_str_ignore_case(&mn, "JMP") {
            self.jmp(&arg1)
        } else if chars_eq_str_ignore_case(&mn, "JE") {
            self.je(&arg1)
        } else if chars_eq_str_ignore_case(&mn, "JNE") {
            self.jne(&arg1)
        } else if chars_eq_str_ignore_case(&mn, "JG") {
            self.jg(&arg1)
        } else if chars_eq_str_ignore_case(&mn, "JGE") {
            self.jge(&arg1)
        } else if chars_eq_str_ignore_case(&mn, "JL") {
            self.jl(&arg1)
        } else if chars_eq_str_ignore_case(&mn, "JLE") {
            self.jle(&arg1)
        } else if chars_eq_str_ignore_case(&mn, "JZ") {
            self.jz(&arg1)
        } else if chars_eq_str_ignore_case(&mn, "JNZ") {
            self.jnz(&arg1)
        } else if chars_eq_str_ignore_case(&mn, "LOOP") {
            self.loop_(&arg1)
        } else {
            let t0 = chars_to_string(&toks[0]);
            let msg = String::from_str("Unknown command: ").concat(t0.as_str());
            Act::Notice(msg)
        }
    }

    /// `JE label`: transfer when the equal flag is set.
    fn je(&mut self, label: &Vec<char>) -> (r: Act)
        requires
            old(self).wf(),
            old(self).spec_ready(),
        ensures
            final(self).wf(),
            ({
                let (m2, a) = if old(self)@.equal_flag {
                    spec_jump(old(self)@, label@)
                } else {
                    (old(self)@, ActV::Ran)
                };
                final(self)@ == m2 && r@ == a
            }),
    {
        if self.equal_flag {
            self.jmp(label)
        } else {
            Act::Ran
        }
    }

    /// `JNE label`: transfer when the equal flag is clear.
    fn jne(&mut self, label: &Vec<char>) -> (r: Act)
        requires
            old(self).wf(),
            old(self).spec_ready(),
        ensures
            final(self).wf(),
            ({
                let (m2, a) = if !old(self)@.equal_flag {
                    spec_jump(old(self)@, label@)
                } else {
                    (old(self)@, ActV::Ran)
                };
                final(self)@ == m2 && r@ == a
            }),
    {
        if !self.equal_flag {
            self.jmp(label)
        } else {
            Act::Ran
        }
    }

    /// `JG label`: transfer when the greater flag is set.
    fn jg(&mut self, label: &Vec<char>) -> (r: Act)
        requires
            old(self).wf(),
            old(self).spec_ready(),
        ensures
            final(self).wf(),
            ({
                let (m2, a) = if old(self)@.greater_flag {
                    spec_jump(old(self)@, label@)
                } else {
                    (old(self)@, ActV::Ran)
                };
                final(self)@ == m2 && r@ == a
            }),
    {
        if self.greater_flag {
            self.jmp(label)
        } else {
            Act::Ran
        }
    }

    /// `JGE label`: transfer when the greater or the equal flag is set.
    fn jge(&mut self, label: &Vec<char>) -> (r: Act)
        requires
            old(self).wf(),
            old(self).spec_ready(),
        ensures
            final(self).wf(),
            ({
                let (m2, a) = if old(self)@.greater_flag || old(self)@.equal_flag {
                    spec_jump(old(self)@, label@)
                } else {
                    (old(self)@, ActV::Ran)
                };
                final(self)@ == m2 && r@ == a
            }),
    {
        if self.greater_flag || self.equal_flag {
            self.jmp(label)
        } else {
            Act::Ran
        }
    }

    /// `JL label`: the same condition as `JGE` — a quirk of the language,
    /// kept as it is.
    fn jl(&mut self, label: &Vec<char>) -> (r: Act)
        requires
            old(self).wf(),
            old(self).spec_ready(),
        ensures
            final(self).wf(),
            ({
                let (m2, a) = if old(self)@.greater_flag || old(self)@.equal_flag {
                    spec_jump(old(self)@, label@)
                } else {
                    (old(self)@, ActV::Ran)
                };
                final(self)@ == m2 && r@ == a
            }),
    {
        if self.greater_flag || self.equal_flag {
            self.jmp(label)
        } else {
            Act::Ran
        }
    }

    /// `JLE label`: the same condition as `JGE` — a quirk of the language,
    /// kept as it is.
    fn jle(&mut self, label: &Vec<char>) -> (r: Act)
        requires
            old(self).wf(),
            old(self).spec_ready(),
        ensures
            final(self).wf(),
            ({
                let (m2, a) = if old(self)@.greater_flag || old(self)@.equal_flag {
                    spec_jump(old(self)@, label@)
                } else {
                    (old(self)@, ActV::Ran)
                };
                final(self)@ == m2 && r@ == a
            }),
    {
        if self.greater_flag || self.equal_flag {
            self.jmp(label)
        } else {
            Act::Ran
        }
    }

    /// `JZ label`: transfer when the zero flag is set.
    fn jz(&mut self, label: &Vec<char>) -> (r: Act)
        requires
            old(self).wf(),
            old(self).spec_ready(),
        ensures
            final(self).wf(),
            ({
                let (m2, a) = if old(self)@.zero_flag {
                    spec_jump(old(self)@, label@)
                } else {
                    (old(self)@, ActV::Ran)
                };
                final(self)@ == m2 && r@ == a
            }),
    {
        if self.zero_flag {
            self.jmp(label)
        } else {
            Act::Ran
        }
    }

    /// `JNZ label`: transfer when the zero flag is clear.
    fn jnz(&mut self, label: &Vec<char>) -> (r: Act)
        requires
            old(self).wf(),
            old(self).spec_ready(),
        ensures
            final(self).wf(),
            ({
                let (m2, a) = if !old(self)@.zero_flag {
                    spec_jump(old(self)@, label@)
                } else {
                    (old(self)@, ActV::Ran)
                };
                final(self)@ == m2 && r@ == a
            }),
    {
        if !self.zero_flag {
            self.jmp(label)
        } else {
            Act::Ran
        }
    }

    /// One small step (see [`spec_step`]): pop a finished frame, re-enter a
    /// repeat frame, or fetch and execute the next line of the top frame.
    pub fn step(&mut self) -> (r: Act)
        requires
            old(self).wf(),
            old(self).spec_ready(),
        ensures
            final(self).wf(),
            ({
                let (m2, a) = spec_step(old(self)@);
                final(self)@ == m2 && r@ == a
            }),
    {
        proof {
            assert(seq_views(self.frames@).len() == self.frames@.len());
        }
        if self.frames.len() == 0 {
            return Act::Idle;
        }
        let ghost prem = self@;
        let fr = self.frames.pop().unwrap();
        proof {
            lemma_seq_views_drop_last(old(self).frames@);
            assert(self@ =~= MachineV { frames: prem.frames.drop_last(), ..prem });
            assert(fr@ == prem.frames.last());
        }
        match fr {
            Frame::Body { func, pc } => {
                proof {
                    assert(prem.frames[prem.frames.len() - 1] == FrameV::Body { func, pc });
                    assert(func < prem.functions.len());
                    assert(seq_views(self.functions@).len() == self.functions@.len());
                }
                let f = &self.functions[func];
                let blen = f.body.len();
                proof {
                    assert(seq_views(self.functions@)[func as int] == self.functions@[func as int]@);
                    assert(blen == prem.functions[func as int].body.len());
                }
                if pc >= blen {
                    Act::Ran
                } else {
                    let line = f.body[pc].clone();
                    proof {
                        assert(seq_views(f.body@)[pc as int] == f.body@[pc as int]@);
                        assert(line@ == prem.functions[func as int].body[pc as int]);
                    }
                    let ghost mid = self.frames@;
                    self.frames.push(Frame::Body { func, pc: pc + 1 });
                    proof {
                        lemma_seq_views_push(mid, self.frames@.last());
                        assert(self@.frames =~= prem.frames.update(
                            prem.frames.len() - 1,
                            FrameV::Body { func, pc: (pc + 1) as usize },
                        ));
                        assert(self@ =~= MachineV {
                            frames: prem.frames.update(
                                prem.frames.len() - 1,
                                FrameV::Body { func, pc: (pc + 1) as usize },
                            ),
                            ..prem
                        });
                        assert(self.wf());
                    }
                    self.execute_line(line.as_str())
                }
            },
            Frame::Repeat { label, remaining } => {
                if remaining == 0 {
                    Act::Ran
                } else {
                    let lab_chars = str_to_chars(label.as_str());
                    let ghost mid = self.frames@;
                    self.frames.push(Frame::Repeat { label, remaining: remaining - 1 });
                    proof {
                        lemma_seq_views_push(mid, self.frames@.last());
                        assert(self@.frames =~= prem.frames.update(
                            prem.frames.len() - 1,
                            FrameV::Repeat { label: lab_chars@, remaining: (remaining - 1) as u64 },
                        ));
                        assert(self@ =~= MachineV {
                            frames: prem.frames.update(
                                prem.frames.len() - 1,
                                FrameV::Repeat {
                                    label: lab_chars@,
                                    remaining: (remaining - 1) as u64,
                                },
                            ),
                            ..prem
                        });
                        assert(self.wf());
                    }
                    self.jmp(&lab_chars)
                }
            },
        }
    }

    /// Resumes a machine waiting on floating-point work (see
    /// [`spec_resume_float`]). The answer must fit the pending request.
    pub fn resume_float(&mut self, ans: FloatAns) -> (r: Act)
        requires
            old(self).wf(),
            spec_ans_matches(old(self)@.mode, ans@),
        ensures
            final(self).wf(),
            ({
                let (m2, a) = spec_resume_float(old(self)@, ans@);
                final(self)@ == m2 && r@ == a
            }),
    {
        let ghost ansv = ans@;
        let mut mode = Mode::Ready;
        core::mem::swap(&mut mode, &mut self.mode);
        proof {
            assert(self@ =~= MachineV { mode: ModeV::Ready, ..old(self)@ });
            assert(mode@ == old(self)@.mode);
        }
        match mode {
            Mode::AwaitParse { dest, token } => match ans {
                FloatAns::Parsed(opt) => match opt {
                    None => {
                        let a = self.fatal(RunError::BadFloatLiteral { token });
                        proof {
                            assert(self@ =~= spec_halt(old(self)@));
                        }
                        a
                    },
                    Some(bits) => match dest {
                        LitDest::Mov(dst) => {
                            proof {
                                assert(dst.wf());
                            }
                            self.reg_write(dst, Value::Float(bits));
                            Act::Ran
                        },
                        LitDest::Push => {
                            let ghost pre = self.stack@;
                            self.stack.push(Value::Float(bits));
                            proof {
                                lemma_seq_views_push(pre, self.stack@.last());
                                assert(self@ =~= MachineV {
                                    stack: old(self)@.stack.push(ValueV::Float(bits)),
                                    mode: ModeV::Ready,
                                    ..old(self)@
                                });
                            }
                            Act::Ran
                        },
                        LitDest::Bin { op, dst, dst_tok } => {
                            proof {
                                assert(dst.wf());
                            }
                            self.apply_bin(op, dst, &dst_tok, Value::Float(bits))
                        },
                        LitDest::Cmp(dst) => {
                            proof {
                                assert(dst.wf());
                            }
                            self.apply_cmp(dst, Value::Float(bits))
                        },
                    },
                },
                _ => {
                    proof {
                        assert(false);
                    }
                    Act::Idle
                },
            },
            Mode::AwaitBin { dst, zero_override } => match ans {
                FloatAns::BinResult { bits, zero } => {
                    proof {
                        assert(dst.wf());
                    }
                    self.reg_write(dst, Value::Float(bits));
                    let z = match zero_override {
                        Some(q) => q,
                        None => zero,
                    };
                    self.zero_flag = z;
                    proof {
                        assert(self@ =~= MachineV {
                            zero_flag: z,
                            ..spec_with_reg(
                                MachineV { mode: ModeV::Ready, ..old(self)@ },
                                dst,
                                ValueV::Float(bits),
                            )
                        });
                    }
                    Act::Ran
                },
                FloatAns::DivByZero => {
                    let a = self.fatal(RunError::DivideByZero);
                    proof {
                        assert(self@ =~= spec_halt(old(self)@));
                    }
                    a
                },
                _ => {
                    proof {
                        assert(false);
                    }
                    Act::Idle
                },
            },
            Mode::AwaitCmp => match ans {
                FloatAns::CmpResult { eq, gt, lt } => {
                    self.equal_flag = eq;
                    self.greater_flag = gt;
                    self.lesser_flag = lt;
                    proof {
                        assert(self@ =~= MachineV {
                            equal_flag: eq,
                            greater_flag: gt,
                            lesser_flag: lt,
                            mode: ModeV::Ready,
                            ..old(self)@
                        });
                    }
                    Act::Ran
                },
                _ => {
                    proof {
                        assert(false);
                    }
                    Act::Idle
                },
            },
            Mode::AwaitRender { what } => match ans {
                FloatAns::Rendered(s) => match what {
                    RenderDest::Print => Act::Out(s),
                    RenderDest::PrintLine => Act::OutLine(s),
                    RenderDest::Exit => {
                        self.mode = Mode::Halted { ok: true };
                        proof {
                            assert(self@ =~= MachineV {
                                mode: ModeV::Halted { ok: true },
                                ..old(self)@
                            });
                        }
                        let line = exit_line(&s);
                        Act::Exit(line)
                    },
                },
                _ => {
                    proof {
                        assert(false);
                    }
                    Act::Idle
                },
            },
            Mode::AwaitTrunc { label } => match ans {
                FloatAns::Truncated(t) => {
                    if t > 0 {
                        let ghost pre = self.frames@;
                        let ghost labv = label@;
                        self.frames.push(Frame::Repeat { label, remaining: t as u64 });
                        proof {
                            lemma_seq_views_push(pre, self.frames@.last());
                            assert(self@ =~= MachineV {
                                frames: old(self)@.frames.push(
                                    FrameV::Repeat { label: labv, remaining: t as u64 },
                                ),
                                mode: ModeV::Ready,
                                ..old(self)@
                            });
                        }
                        Act::Ran
                    } else {
                        Act::Ran
                    }
                },
                _ => {
                    proof {
                        assert(false);
                    }
                    Act::Idle
                },
            },
            Mode::Ready => {
                proof {
                    assert(false);
                }
                Act::Idle
            },
            Mode::AwaitLine => {
                proof {
                    assert(false);
                }
                Act::Idle
            },
            Mode::Halted { .. } => {
                proof {
                    assert(false);
                }
                Act::Idle
            },
        }
    }

    /// Resumes a machine waiting on the `input` built-in: the trimmed line
    /// goes into `RET0` as text (see [`spec_resume_line`]).
    pub fn resume_line(&mut self, line: &str) -> (r: Act)
        requires
            old(self).wf(),
            old(self)@.mode is AwaitLine,
        ensures
            final(self).wf(),
            ({
                let (m2, a) = spec_resume_line(old(self)@, line@);
                final(self)@ == m2 && r@ == a
            }),
    {
        self.mode = Mode::Ready;
        proof {
            assert(self@ =~= MachineV { mode: ModeV::Ready, ..old(self)@ });
        }
        let cs = str_to_chars(line);
        let t = trim_chars(&cs);
        let text = chars_to_string(&t);
        self.reg_write(RegName::Ret(0), Value::Text(text));
        Act::Ran
    }

    /// Starts a run: fatal without a function named `main`; otherwise the
    /// same control transfer as `JMP main`.
    pub fn run(&mut self) -> (r: Act)
        requires
            old(self).wf(),
            old(self).spec_ready(),
        ensures
            final(self).wf(),
            ({
                let (m2, a) = if spec_find_func(old(self)@.functions, "main"@) is Some {
                    spec_jump(old(self)@, "main"@)
                } else {
                    spec_fatal(old(self)@, RunErrorV::NoMain)
                };
                final(self)@ == m2 && r@ == a
            }),
    {
        let mainv = str_to_chars("main");
        match self.find_func(&mainv) {
            None => self.fatal(RunError::NoMain),
            Some(_) => self.jmp(&mainv),
        }
    }

    /// Whether a token names a register.
    pub fn is_register(&self, reg: &str) -> (r: bool)
        ensures
            r == (spec_reg_of_token(reg@) is Some),
    {
        let cs = str_to_chars(reg);
        reg_of_token(&cs).is_some()
    }

    /// The current value of a register, by its token; `None` when the token
    /// names no register.
    pub fn read_register(&self, name: &str) -> (r: Option<Value>)
        requires
            self.wf(),
        ensures
            match spec_reg_of_token(name@) {
                Some(rn) => r matches Some(v) && v@ == spec_reg_val(self@, rn),
                None => r is None,
            },
    {
        let cs = str_to_chars(name);
        match reg_of_token(&cs) {
            Some(rn) => Some(self.reg_read(rn)),
            None => None,
        }
    }

    /// The operand stack's depth.
    pub fn stack_len(&self) -> (n: usize)
        ensures
            n == self@.stack.len(),
    {
        proof {
            assert(seq_views(self.stack@).len() == self.stack@.len());
        }
        self.stack.len()
    }

    /// The equal flag.
    pub fn flag_equal(&self) -> (b: bool)
        ensures
            b == self@.equal_flag,
    {
        self.equal_flag
    }

    /// The greater flag.
    pub fn flag_greater(&self) -> (b: bool)
        ensures
            b == self@.greater_flag,
    {
        self.greater_flag
    }

    /// The lesser flag.
    pub fn flag_lesser(&self) -> (b: bool)
        ensures
            b == self@.lesser_flag,
    {
        self.lesser_flag
    }

    /// The zero flag.
    pub fn flag_zero(&self) -> (b: bool)
        ensures
            b == self@.zero_flag,
    {
        self.zero_flag
    }

    /// Whether the machine can execute an instruction.
    pub fn is_ready(&self) -> (b: bool)
        ensures
            b == self.spec_ready(),
    {
        matches!(self.mode, Mode::Ready)
    }

    /// Whether the machine has halted (after `exit` or a fatal error).
    pub fn is_halted(&self) -> (b: bool)
        ensures
            b == (self@.mode is Halted),
    {
        matches!(self.mode, Mode::Halted { .. })
    }

    /// Whether the machine waits on the `input` built-in.
    pub fn awaiting_line(&self) -> (b: bool)
        ensures
            b == (self@.mode is AwaitLine),
    {
        matches!(self.mode, Mode::AwaitLine)
    }

    /// Whether an answer fits what the machine is waiting for: the caller's
    /// guard before `resume_float`.
    pub fn can_answer(&self, ans: &FloatAns) -> (r: bool)
        ensures
            r == spec_ans_matches(self@.mode, ans@),
    {
        match &self.mode {
            Mode::AwaitParse { .. } => matches!(ans, FloatAns::Parsed(_)),
            Mode::AwaitBin { .. } => matches!(
                ans,
                FloatAns::BinResult { .. } | FloatAns::DivByZero
            ),
            Mode::AwaitCmp => matches!(ans, FloatAns::CmpResult { .. }),
            Mode::AwaitRender { .. } => matches!(ans, FloatAns::Rendered(_)),
            Mode::AwaitTrunc { .. } => matches!(ans, FloatAns::Truncated(_)),
            _ => false,
        }
    }
}

impl Machine {
    /// Loads a source text (see [`crate::loader`]) and builds a fresh
    /// machine over its function table: every register `Null`, the stack
    /// empty, all flags clear, nothing running. The first bad declaration
    /// line is the error.
    pub fn new(code: &str) -> (r: Result<Machine, RunError>)
        ensures
            match r {
                Ok(m) => m.wf() && m.spec_ready() && (match spec_load(spec_source_lines(code@)) {
                    Ok(fs) => m@.functions == fs,
                    Err(_) => false,
                }) && m@.stack == Seq::<ValueV>::empty() && m@.frames == Seq::<FrameV>::empty()
                    && !m@.equal_flag && !m@.greater_flag && !m@.lesser_flag && !m@.zero_flag && (
                forall|rn: RegName| rn.wf() ==> spec_reg_val(m@, rn) == ValueV::Null),
                Err(e) => (match spec_load(spec_source_lines(code@)) {
                    Err(line) => e@ == (RunErrorV::BadDeclaration { line }),
                    Ok(_) => false,
                }),
            },
    {
        match parse_functions(code) {
            Ok(fs) => Ok(Machine::with_functions(fs)),
            Err(e) => Err(e),
        }
    }
}

} // verus!
