//! End-to-end tests of the execution engine, driving the small-step machine
//! with a real 64-bit float unit.

use tinyasm::machine::{Act, BinOp, FloatAns, FloatOp, Machine, Num, RunError};
use tinyasm::value::Value;

fn to_f(n: Num) -> f64 {
    match n {
        Num::I(i) => i as f64,
        Num::F(b) => f64::from_bits(b),
    }
}

/// The caller's float unit: answers one request.
fn answer(op: FloatOp) -> FloatAns {
    match op {
        FloatOp::Parse(t) => FloatAns::Parsed(t.parse::<f64>().ok().map(|f| f.to_bits())),
        FloatOp::Bin(op, a, b) => {
            let x = to_f(a);
            let y = to_f(b);
            if op == BinOp::Div && y == 0.0 {
                return FloatAns::DivByZero;
            }
            let r = match op {
                BinOp::Add => x + y,
                BinOp::Sub => x - y,
                BinOp::Mul => x * y,
                BinOp::Div => x / y,
            };
            FloatAns::BinResult { bits: r.to_bits(), zero: r == 0.0 }
        }
        FloatOp::Cmp(a, b) => {
            let x = to_f(a);
            let y = to_f(b);
            FloatAns::CmpResult { eq: x == y, gt: x > y, lt: x < y }
        }
        FloatOp::Render(b) => FloatAns::Rendered(f64::from_bits(b).to_string()),
        FloatOp::Trunc(b) => FloatAns::Truncated(f64::from_bits(b) as i32 as i64),
    }
}

/// Resolves float requests until the act no longer asks for one.
fn settle(m: &mut Machine, mut act: Act) -> Act {
    loop {
        match act {
            Act::NeedFloat(op) => {
                let ans = answer(op);
                assert!(m.can_answer(&ans));
                act = m.resume_float(ans);
            }
            other => return other,
        }
    }
}

/// Executes one instruction line, answering float requests on the way.
fn exec(m: &mut Machine, line: &str) -> Act {
    assert!(m.is_ready());
    let act = m.execute_line(line);
    settle(m, act)
}

/// What a whole run came to.
#[derive(Debug)]
struct RunResult {
    output: String,
    errors: String,
    exited: Option<String>,
    fatal: Option<RunError>,
}

/// Drives a started machine to its end, with scripted input lines.
fn drive(m: &mut Machine, inputs: &[&str], fuel: usize) -> RunResult {
    let mut res = RunResult { output: String::new(), errors: String::new(), exited: None, fatal: None };
    let mut inputs = inputs.iter();
    for _ in 0..fuel {
        assert!(m.is_ready(), "machine stopped in an unexpected mode");
        let act = m.step();
        let act = settle(m, act);
        match act {
            Act::Ran => {}
            Act::Idle => return res,
            Act::Report(s) => {
                res.errors.push_str(&s);
                res.errors.push('\n');
            }
            Act::Notice(s) => {
                res.output.push_str(&s);
                res.output.push('\n');
            }
            Act::Out(s) => res.output.push_str(&s),
            Act::OutLine(s) => {
                res.output.push_str(&s);
                res.output.push('\n');
            }
            Act::NeedFloat(_) => unreachable!("settled above"),
            Act::NeedLine => {
                let line = inputs.next().expect("input requested but none scripted");
                assert!(m.awaiting_line());
                m.resume_line(line);
            }
            Act::ShowState => {
                res.output.push_str(&format!("{:#?}\n", m));
            }
            Act::Exit(s) => {
                res.exited = Some(s);
                return res;
            }
            Act::Fatal(e) => {
                res.fatal = Some(e);
                return res;
            }
        }
    }
    panic!("run did not settle within {} steps", fuel);
}

fn fresh() -> Machine {
    Machine::new("").expect("empty source loads")
}

fn reg(m: &Machine, name: &str) -> Value {
    m.read_register(name).expect("register exists")
}

#[test]
fn fresh_machine_reports_null_for_every_register() {
    let m = fresh();
    for i in 0..=12 {
        assert_eq!(reg(&m, &format!("R{}", i)), Value::Null);
        assert_eq!(reg(&m, &format!("P{}", i)), Value::Null);
        assert_eq!(reg(&m, &format!("RET{}", i)), Value::Null);
    }
    assert_eq!(reg(&m, "L0"), Value::Null);
    assert!(m.read_register("R13").is_none());
    assert!(m.read_register("X0").is_none());
}

#[test]
fn mov_literal_then_register_copy() {
    let mut m = fresh();
    assert!(matches!(exec(&mut m, "MOV R0, 5"), Act::Ran));
    assert!(matches!(exec(&mut m, "MOV R1, R0"), Act::Ran));
    assert_eq!(reg(&m, "R1"), Value::Int(5));
    assert_eq!(reg(&m, "R0"), Value::Int(5));
}

#[test]
fn add_promotes_int_to_float() {
    let mut m = fresh();
    exec(&mut m, "MOV R0, 3");
    exec(&mut m, "MOV R1, 4.0");
    assert_eq!(reg(&m, "R1"), Value::Float(4.0f64.to_bits()));
    assert!(matches!(exec(&mut m, "ADD R0, R1"), Act::Ran));
    assert_eq!(reg(&m, "R0"), Value::Float(7.0f64.to_bits()));
}

#[test]
fn div_by_integer_zero_is_fatal() {
    let mut m = fresh();
    exec(&mut m, "MOV R0, 6");
    exec(&mut m, "MOV R1, 0");
    let act = exec(&mut m, "DIV R0, R1");
    assert!(matches!(act, Act::Fatal(RunError::DivideByZero)));
    assert!(m.is_halted());
}

#[test]
fn div_by_float_zero_is_fatal() {
    let mut m = fresh();
    exec(&mut m, "MOV R0, 6.5");
    exec(&mut m, "MOV R1, 0.0");
    let act = exec(&mut m, "DIV R0, R1");
    assert!(matches!(act, Act::Fatal(RunError::DivideByZero)));
    assert!(m.is_halted());
}

#[test]
fn integer_division_is_float_typed() {
    let mut m = fresh();
    exec(&mut m, "MOV R0, 6");
    exec(&mut m, "MOV R1, 4");
    assert!(matches!(exec(&mut m, "DIV R0, R1"), Act::Ran));
    assert_eq!(reg(&m, "R0"), Value::Float(1.5f64.to_bits()));
    // The zero flag comes from the integer quotient 6 / 4 == 1.
    assert!(!m.flag_zero());
}

#[test]
fn integer_division_zero_flag_uses_integer_quotient() {
    let mut m = fresh();
    exec(&mut m, "MOV R0, 3");
    exec(&mut m, "MOV R1, 4");
    exec(&mut m, "DIV R0, R1");
    // The stored quotient 0.75 is not zero, but 3 / 4 == 0 as integers.
    assert_eq!(reg(&m, "R0"), Value::Float(0.75f64.to_bits()));
    assert!(m.flag_zero());
}

#[test]
fn add_concatenates_text() {
    let mut m = fresh();
    exec(&mut m, "MOV R0, \"ab\"");
    exec(&mut m, "MOV R1, \"cd\"");
    assert!(matches!(exec(&mut m, "ADD R0, R1"), Act::Ran));
    assert_eq!(reg(&m, "R0"), Value::Text("abcd".to_string()));
}

#[test]
fn push_pop_and_empty_stack_is_fatal() {
    let mut m = fresh();
    exec(&mut m, "PUSH 7");
    assert_eq!(m.stack_len(), 1);
    assert!(matches!(exec(&mut m, "POP R2"), Act::Ran));
    assert_eq!(reg(&m, "R2"), Value::Int(7));
    assert_eq!(m.stack_len(), 0);
    let act = exec(&mut m, "POP R2");
    assert!(matches!(act, Act::Fatal(RunError::EmptyStack)));
}

#[test]
fn cmp_equal_integers_sets_only_equal() {
    let mut m = fresh();
    exec(&mut m, "MOV R0, 5");
    exec(&mut m, "MOV R1, 5");
    exec(&mut m, "CMP R0, R1");
    assert!(m.flag_equal());
    assert!(!m.flag_greater());
    assert!(!m.flag_lesser());
}

#[test]
fn cmp_orders_integers() {
    let mut m = fresh();
    exec(&mut m, "MOV R0, 9");
    exec(&mut m, "CMP R0, 5");
    assert!(!m.flag_equal());
    assert!(m.flag_greater());
    assert!(!m.flag_lesser());
    exec(&mut m, "CMP R0, 11");
    assert!(!m.flag_equal());
    assert!(!m.flag_greater());
    assert!(m.flag_lesser());
}

#[test]
fn cmp_mixes_int_and_float() {
    let mut m = fresh();
    exec(&mut m, "MOV R0, 2");
    exec(&mut m, "CMP R0, 2.0");
    assert!(m.flag_equal());
    assert!(!m.flag_greater());
    assert!(!m.flag_lesser());
    exec(&mut m, "MOV R1, 2.5");
    exec(&mut m, "CMP R1, R0");
    assert!(m.flag_greater());
}

#[test]
fn cmp_text_and_bool_set_only_equal() {
    let mut m = fresh();
    exec(&mut m, "MOV R0, \"hi\"");
    exec(&mut m, "CMP R0, \"hi\"");
    assert!(m.flag_equal() && !m.flag_greater() && !m.flag_lesser());
    exec(&mut m, "MOV R1, true");
    exec(&mut m, "CMP R1, true");
    assert!(m.flag_equal() && !m.flag_greater() && !m.flag_lesser());
    exec(&mut m, "CMP R1, false");
    assert!(!m.flag_equal());
}

#[test]
fn cmp_mismatched_types_forces_all_flags_false() {
    let mut m = fresh();
    exec(&mut m, "MOV R0, 5");
    exec(&mut m, "MOV R1, 5");
    exec(&mut m, "CMP R0, R1");
    assert!(m.flag_equal());
    exec(&mut m, "MOV R1, \"5\"");
    exec(&mut m, "CMP R0, R1");
    assert!(!m.flag_equal() && !m.flag_greater() && !m.flag_lesser());
    // Null compares with nothing, not even Null.
    exec(&mut m, "CMP R2, R3");
    assert!(!m.flag_equal() && !m.flag_greater() && !m.flag_lesser());
}

#[test]
fn run_terminates_through_exit_builtin() {
    let mut m = Machine::new("fun main\nMOV P0, 0\nJMP exit\nend\n").expect("loads");
    let act = m.run();
    assert!(matches!(act, Act::Ran));
    let res = drive(&mut m, &[], 1000);
    assert_eq!(res.exited.as_deref(), Some("Process exited with code '0'"));
    assert!(res.fatal.is_none());
}

#[test]
fn run_without_main_is_fatal() {
    let mut m = Machine::new("fun other\nMOV R0, 1\nend\n").expect("loads");
    let act = m.run();
    assert!(matches!(act, Act::Fatal(RunError::NoMain)));
    assert!(m.is_halted());
}

#[test]
fn inc_and_dec_set_zero_flag() {
    let mut m = fresh();
    exec(&mut m, "MOV R0, -1");
    assert!(matches!(exec(&mut m, "INC R0"), Act::Ran));
    assert_eq!(reg(&m, "R0"), Value::Int(0));
    assert!(m.flag_zero());
    exec(&mut m, "INC R0");
    assert_eq!(reg(&m, "R0"), Value::Int(1));
    assert!(!m.flag_zero());
    exec(&mut m, "DEC R0");
    assert_eq!(reg(&m, "R0"), Value::Int(0));
    assert!(m.flag_zero());
}

#[test]
fn inc_on_float_uses_float_unit() {
    let mut m = fresh();
    exec(&mut m, "MOV R0, 1.5");
    exec(&mut m, "INC R0");
    assert_eq!(reg(&m, "R0"), Value::Float(2.5f64.to_bits()));
    exec(&mut m, "DEC R0");
    assert_eq!(reg(&m, "R0"), Value::Float(1.5f64.to_bits()));
}

#[test]
fn inc_on_text_or_null_is_fatal() {
    let mut m = fresh();
    exec(&mut m, "MOV R0, \"x\"");
    assert!(matches!(
        exec(&mut m, "INC R0"),
        Act::Fatal(RunError::TypeMismatch { .. })
    ));
    let mut m2 = fresh();
    assert!(matches!(
        exec(&mut m2, "DEC R5"),
        Act::Fatal(RunError::TypeMismatch { .. })
    ));
}

#[test]
fn sub_and_mul_on_integers() {
    let mut m = fresh();
    exec(&mut m, "MOV R0, 10");
    exec(&mut m, "SUB R0, 4");
    assert_eq!(reg(&m, "R0"), Value::Int(6));
    exec(&mut m, "MUL R0, 7");
    assert_eq!(reg(&m, "R0"), Value::Int(42));
    assert!(!m.flag_zero());
    exec(&mut m, "MUL R0, 0");
    assert_eq!(reg(&m, "R0"), Value::Int(0));
    assert!(m.flag_zero());
}

#[test]
fn sub_with_float_operand_promotes() {
    let mut m = fresh();
    exec(&mut m, "MOV R0, 10");
    exec(&mut m, "SUB R0, 2.5");
    assert_eq!(reg(&m, "R0"), Value::Float(7.5f64.to_bits()));
}

#[test]
fn text_subtraction_is_fatal() {
    let mut m = fresh();
    exec(&mut m, "MOV R0, \"ab\"");
    exec(&mut m, "MOV R1, \"cd\"");
    assert!(matches!(
        exec(&mut m, "SUB R0, R1"),
        Act::Fatal(RunError::TypeMismatch { .. })
    ));
}

#[test]
fn mov_into_unknown_register_is_fatal() {
    let mut m = fresh();
    let act = exec(&mut m, "MOV R13, 1");
    match act {
        Act::Fatal(RunError::NoSuchRegister { name }) => assert_eq!(name, "R13"),
        other => panic!("expected a register error, got {:?}", other),
    }
    let mut m2 = fresh();
    assert!(matches!(
        exec(&mut m2, "MOV R01, 1"),
        Act::Fatal(RunError::NoSuchRegister { .. })
    ));
}

#[test]
fn unknown_literal_is_fatal() {
    let mut m = fresh();
    let act = exec(&mut m, "MOV R0, banana");
    match act {
        Act::Fatal(RunError::UnknownLiteral { token }) => assert_eq!(token, "banana"),
        other => panic!("expected an unknown literal, got {:?}", other),
    }
}

#[test]
fn unparseable_float_literal_is_fatal() {
    let mut m = fresh();
    let act = exec(&mut m, "MOV R0, 1.2.3");
    match act {
        Act::Fatal(RunError::BadFloatLiteral { token }) => assert_eq!(token, "1.2.3"),
        other => panic!("expected a float literal error, got {:?}", other),
    }
}

#[test]
fn integer_overflowing_literal_is_fatal() {
    let mut m = fresh();
    exec(&mut m, "MOV R0, 9223372036854775807");
    assert_eq!(reg(&m, "R0"), Value::Int(i64::MAX));
    exec(&mut m, "MOV R1, -9223372036854775808");
    assert_eq!(reg(&m, "R1"), Value::Int(i64::MIN));
    assert!(matches!(
        exec(&mut m, "MOV R2, 9223372036854775808"),
        Act::Fatal(RunError::UnknownLiteral { .. })
    ));
}

#[test]
fn unknown_mnemonic_is_reported_softly() {
    let mut m = fresh();
    let act = exec(&mut m, "FROB R0, 1");
    match act {
        Act::Notice(s) => assert_eq!(s, "Unknown command: FROB"),
        other => panic!("expected a notice, got {:?}", other),
    }
    assert!(m.is_ready());
}

#[test]
fn short_line_is_reported_softly() {
    let mut m = fresh();
    let act = exec(&mut m, "MOV");
    match act {
        Act::Report(s) => assert_eq!(s, "Invalid instruction: MOV"),
        other => panic!("expected a report, got {:?}", other),
    }
    assert!(m.is_ready());
}

#[test]
fn mnemonics_match_case_insensitively() {
    let mut m = fresh();
    exec(&mut m, "mov R0, 5");
    assert_eq!(reg(&m, "R0"), Value::Int(5));
    exec(&mut m, "Add R0, 2");
    assert_eq!(reg(&m, "R0"), Value::Int(7));
}

#[test]
fn quoted_text_keeps_spaces() {
    let mut m = fresh();
    exec(&mut m, "MOV R0, \"a b c\"");
    assert_eq!(reg(&m, "R0"), Value::Text("a b c".to_string()));
}

#[test]
fn register_named_literal_reads_the_register() {
    // A literal spelt like a register name is unreachable: the register wins.
    let mut m = fresh();
    exec(&mut m, "MOV R1, 9");
    exec(&mut m, "PUSH R1");
    exec(&mut m, "POP R2");
    assert_eq!(reg(&m, "R2"), Value::Int(9));
}

#[test]
fn conditional_jumps_follow_flags() {
    let src = "fun yes\nMOV R0, 1\nend\n";
    let mut m = Machine::new(src).expect("loads");
    exec(&mut m, "MOV R1, 5");
    exec(&mut m, "CMP R1, 5");
    exec(&mut m, "JE yes");
    let res = drive(&mut m, &[], 100);
    assert!(res.fatal.is_none());
    assert_eq!(reg(&m, "R0"), Value::Int(1));

    let mut m2 = Machine::new(src).expect("loads");
    exec(&mut m2, "MOV R1, 5");
    exec(&mut m2, "CMP R1, 6");
    exec(&mut m2, "JE yes");
    let res2 = drive(&mut m2, &[], 100);
    assert!(res2.fatal.is_none());
    assert_eq!(reg(&m2, "R0"), Value::Null);
    exec(&mut m2, "JNE yes");
    drive(&mut m2, &[], 100);
    assert_eq!(reg(&m2, "R0"), Value::Int(1));
}

#[test]
fn jl_and_jle_share_the_jge_condition() {
    // JL and JLE transfer on greater-or-equal, the same condition as JGE,
    // not on lesser: a quirk of the language, documented here.
    let src = "fun mark\nINC R0\nend\n";
    let mut m = Machine::new(src).expect("loads");
    exec(&mut m, "MOV R0, 0");
    exec(&mut m, "MOV R1, 3");
    exec(&mut m, "CMP R1, 9");  // lesser is set, greater and equal clear
    assert!(m.flag_lesser());
    exec(&mut m, "JL mark");
    drive(&mut m, &[], 100);
    assert_eq!(reg(&m, "R0"), Value::Int(0), "JL does not fire on lesser");
    exec(&mut m, "CMP R1, 1");  // greater is set
    exec(&mut m, "JL mark");
    drive(&mut m, &[], 100);
    assert_eq!(reg(&m, "R0"), Value::Int(1), "JL fires on greater");
    exec(&mut m, "JLE mark");
    drive(&mut m, &[], 100);
    assert_eq!(reg(&m, "R0"), Value::Int(2), "JLE fires on greater");
    exec(&mut m, "JGE mark");
    drive(&mut m, &[], 100);
    assert_eq!(reg(&m, "R0"), Value::Int(3));
}

#[test]
fn jz_and_jnz_follow_the_zero_flag() {
    let src = "fun mark\nMOV R5, 1\nend\n";
    let mut m = Machine::new(src).expect("loads");
    exec(&mut m, "MOV R0, 1");
    exec(&mut m, "DEC R0");
    assert!(m.flag_zero());
    exec(&mut m, "JZ mark");
    drive(&mut m, &[], 100);
    assert_eq!(reg(&m, "R5"), Value::Int(1));
    let mut m2 = Machine::new(src).expect("loads");
    exec(&mut m2, "MOV R0, 2");
    exec(&mut m2, "DEC R0");
    exec(&mut m2, "JNZ mark");
    drive(&mut m2, &[], 100);
    assert_eq!(reg(&m2, "R5"), Value::Int(1));
}

#[test]
fn jmp_to_unknown_function_is_fatal() {
    let mut m = fresh();
    let act = exec(&mut m, "JMP nowhere");
    match act {
        Act::Fatal(RunError::NoSuchFunction { name }) => assert_eq!(name, "nowhere"),
        other => panic!("expected a function error, got {:?}", other),
    }
}

#[test]
fn loop_runs_the_target_l0_times() {
    let src = "fun bump\nINC R0\nend\n";
    let mut m = Machine::new(src).expect("loads");
    exec(&mut m, "MOV R0, 0");
    exec(&mut m, "MOV L0, 5");
    exec(&mut m, "LOOP bump");
    let res = drive(&mut m, &[], 1000);
    assert!(res.fatal.is_none());
    assert_eq!(reg(&m, "R0"), Value::Int(5));
}

#[test]
fn loop_truncates_a_float_count() {
    let src = "fun bump\nINC R0\nend\n";
    let mut m = Machine::new(src).expect("loads");
    exec(&mut m, "MOV R0, 0");
    exec(&mut m, "MOV L0, 3.9");
    exec(&mut m, "LOOP bump");
    let res = drive(&mut m, &[], 1000);
    assert!(res.fatal.is_none());
    assert_eq!(reg(&m, "R0"), Value::Int(3));
}

#[test]
fn loop_with_zero_count_skips_even_a_bad_label() {
    let mut m = fresh();
    exec(&mut m, "MOV L0, 0");
    let act = exec(&mut m, "LOOP nowhere");
    assert!(matches!(act, Act::Ran));
    let res = drive(&mut m, &[], 100);
    assert!(res.fatal.is_none());
}

#[test]
fn loop_with_nonnumeric_counter_is_fatal() {
    let mut m = fresh();
    exec(&mut m, "MOV L0, \"x\"");
    assert!(matches!(
        exec(&mut m, "LOOP anywhere"),
        Act::Fatal(RunError::TypeMismatch { .. })
    ));
}

#[test]
fn print_builtin_renders_p0() {
    let mut m = fresh();
    exec(&mut m, "MOV P0, 42");
    match exec(&mut m, "JMP print") {
        Act::Out(s) => assert_eq!(s, "42"),
        other => panic!("expected output, got {:?}", other),
    }
    exec(&mut m, "MOV P0, \"hi\\nthere\"");
    match exec(&mut m, "JMP printline") {
        Act::OutLine(s) => assert_eq!(s, "hi\nthere"),
        other => panic!("expected output, got {:?}", other),
    }
    exec(&mut m, "MOV P0, true");
    match exec(&mut m, "JMP print") {
        Act::Out(s) => assert_eq!(s, "true"),
        other => panic!("expected output, got {:?}", other),
    }
    match exec(&mut m, "JMP debug") {
        Act::ShowState => {}
        other => panic!("expected a state dump, got {:?}", other),
    }
}

#[test]
fn print_builtin_renders_null_and_floats() {
    let mut m = fresh();
    match exec(&mut m, "JMP print") {
        Act::Out(s) => assert_eq!(s, "null"),
        other => panic!("expected output, got {:?}", other),
    }
    exec(&mut m, "MOV P0, 1.5");
    match exec(&mut m, "JMP print") {
        Act::Out(s) => assert_eq!(s, "1.5"),
        other => panic!("expected output, got {:?}", other),
    }
}

#[test]
fn input_builtin_stores_trimmed_text_in_ret0() {
    let mut m = fresh();
    match m.execute_line("JMP input") {
        Act::NeedLine => {}
        other => panic!("expected an input request, got {:?}", other),
    }
    assert!(m.awaiting_line());
    m.resume_line("  hello world \n");
    assert_eq!(reg(&m, "RET0"), Value::Text("hello world".to_string()));
}

#[test]
fn builtins_shadow_same_named_functions() {
    // A function named like a built-in is permanently unreachable.
    let src = "fun print\nMOV R0, 99\nend\nfun main\nMOV P0, 7\nJMP print\nJMP exit\nend\n";
    let mut m = Machine::new(src).expect("loads");
    m.run();
    let res = drive(&mut m, &[], 1000);
    assert_eq!(res.output, "7");
    assert_eq!(res.exited.as_deref(), Some("Process exited with code '7'"));
    assert_eq!(reg(&m, "R0"), Value::Null, "the declared print body never ran");
}

#[test]
fn exit_renders_p0_in_its_status_line() {
    let mut m = fresh();
    exec(&mut m, "MOV P0, \"done\"");
    match exec(&mut m, "JMP exit") {
        Act::Exit(s) => assert_eq!(s, "Process exited with code 'done'"),
        other => panic!("expected exit, got {:?}", other),
    }
    assert!(m.is_halted());
}

#[test]
fn functions_call_each_other_and_return() {
    let src = "fun inner\nINC R0\nend\nfun outer\nJMP inner\nJMP inner\nend\nfun main\nMOV R0, 0\nJMP outer\nend\n";
    let mut m = Machine::new(src).expect("loads");
    m.run();
    let res = drive(&mut m, &[], 1000);
    assert!(res.fatal.is_none());
    assert_eq!(reg(&m, "R0"), Value::Int(2));
}

#[test]
fn trailing_comma_after_first_operand_is_stripped() {
    let mut m = fresh();
    exec(&mut m, "MOV R0, 5");
    exec(&mut m, "MOV R1 5");
    assert_eq!(reg(&m, "R0"), Value::Int(5));
    assert_eq!(reg(&m, "R1"), Value::Int(5));
}

#[test]
fn integer_arithmetic_wraps_on_overflow() {
    let mut m = fresh();
    exec(&mut m, "MOV R0, 9223372036854775807");
    exec(&mut m, "INC R0");
    assert_eq!(reg(&m, "R0"), Value::Int(i64::MIN));
    exec(&mut m, "DEC R0");
    assert_eq!(reg(&m, "R0"), Value::Int(i64::MAX));
    exec(&mut m, "ADD R0, 1");
    assert_eq!(reg(&m, "R0"), Value::Int(i64::MIN));
}

#[test]
fn register_names_are_case_sensitive() {
    // "r0" names no register, and as a literal it is unknown: fatal.
    let mut m = fresh();
    assert!(matches!(
        exec(&mut m, "MOV r0, 5"),
        Act::Fatal(RunError::NoSuchRegister { .. })
    ));
    let mut m2 = fresh();
    exec(&mut m2, "MOV R0, 1");
    assert!(matches!(
        exec(&mut m2, "ADD R0, r1"),
        Act::Fatal(RunError::UnknownLiteral { .. })
    ));
}

#[test]
fn loop_with_negative_count_runs_zero_times() {
    let src = "fun bump\nINC R0\nend\n";
    let mut m = Machine::new(src).expect("loads");
    exec(&mut m, "MOV R0, 0");
    exec(&mut m, "MOV L0, -2");
    assert!(matches!(exec(&mut m, "LOOP bump"), Act::Ran));
    let res = drive(&mut m, &[], 100);
    assert!(res.fatal.is_none());
    assert_eq!(reg(&m, "R0"), Value::Int(0));
}

#[test]
fn push_copies_a_register_value() {
    let mut m = fresh();
    exec(&mut m, "PUSH R5");
    assert_eq!(m.stack_len(), 1);
    exec(&mut m, "POP R6");
    assert_eq!(reg(&m, "R6"), Value::Null);
    exec(&mut m, "PUSH true");
    exec(&mut m, "PUSH 2.5");
    exec(&mut m, "POP R7");
    assert_eq!(reg(&m, "R7"), Value::Float(2.5f64.to_bits()));
    exec(&mut m, "POP R8");
    assert_eq!(reg(&m, "R8"), Value::Bool(true));
}

#[test]
fn arithmetic_on_null_or_bool_registers_is_fatal() {
    let mut m = fresh();
    assert!(matches!(
        exec(&mut m, "ADD R0, 1"),
        Act::Fatal(RunError::TypeMismatch { .. })
    ));
    let mut m2 = fresh();
    exec(&mut m2, "MOV R0, true");
    assert!(matches!(
        exec(&mut m2, "MUL R0, 2"),
        Act::Fatal(RunError::TypeMismatch { .. })
    ));
    let mut m3 = fresh();
    exec(&mut m3, "MOV R0, 4");
    assert!(matches!(
        exec(&mut m3, "ADD R0, true"),
        Act::Fatal(RunError::TypeMismatch { .. })
    ));
}
