//! Tests of the language front pieces: the tokenizer, the literal
//! classifier, value rendering, and the program loader.

use tinyasm::loader::parse_functions;
use tinyasm::machine::RunError;
use tinyasm::token::{determine_type, split_whitespace_not_in_quotes, Classified};
use tinyasm::value::{int_to_string, render_plain, Value};

fn chars(s: &str) -> Vec<char> {
    s.chars().collect()
}

#[test]
fn tokenizer_splits_on_spaces() {
    let t = split_whitespace_not_in_quotes("MOV R0, 5");
    assert_eq!(t, vec!["MOV", "R0,", "5"]);
}

#[test]
fn tokenizer_keeps_quoted_spaces_and_quotes() {
    let t = split_whitespace_not_in_quotes("MOV R0, \"a b\"");
    assert_eq!(t, vec!["MOV", "R0,", "\"a b\""]);
}

#[test]
fn tokenizer_produces_empty_tokens_between_spaces() {
    let t = split_whitespace_not_in_quotes("a  b");
    assert_eq!(t, vec!["a", "", "b"]);
    let t2 = split_whitespace_not_in_quotes("");
    assert_eq!(t2, vec![""]);
}

#[test]
fn tokenizer_lets_an_odd_quote_swallow_the_rest() {
    let t = split_whitespace_not_in_quotes("say \"a b c");
    assert_eq!(t, vec!["say", "\"a b c"]);
}

#[test]
fn classifier_follows_its_precedence() {
    assert!(matches!(
        determine_type(&chars("\"true\"")),
        Classified::Val(Value::Text(s)) if s == "true"
    ));
    assert!(matches!(
        determine_type(&chars("true")),
        Classified::Val(Value::Bool(true))
    ));
    assert!(matches!(
        determine_type(&chars("false")),
        Classified::Val(Value::Bool(false))
    ));
    assert!(matches!(determine_type(&chars("3.5")), Classified::FloatLit));
    assert!(matches!(
        determine_type(&chars("-17")),
        Classified::Val(Value::Int(-17))
    ));
    assert!(matches!(determine_type(&chars("oops")), Classified::Unknown));
}

#[test]
fn classifier_treats_any_dotted_token_as_float_literal() {
    // Even an unparseable one: the parse failure is fatal later, it does
    // not fall back to text.
    assert!(matches!(determine_type(&chars("1.2.3")), Classified::FloatLit));
    assert!(matches!(determine_type(&chars(".")), Classified::FloatLit));
}

#[test]
fn classifier_rejects_overflowing_integers() {
    assert!(matches!(
        determine_type(&chars("9223372036854775807")),
        Classified::Val(Value::Int(i64::MAX))
    ));
    assert!(matches!(
        determine_type(&chars("9223372036854775808")),
        Classified::Unknown
    ));
    assert!(matches!(
        determine_type(&chars("+42")),
        Classified::Val(Value::Int(42))
    ));
    assert!(matches!(determine_type(&chars("")), Classified::Unknown));
    assert!(matches!(determine_type(&chars("+")), Classified::Unknown));
}

#[test]
fn classifying_then_rendering_expands_escapes_one_way() {
    // A quoted token with an embedded \n renders with a real line break.
    let c = determine_type(&chars("\"hi\\nthere\""));
    let v = match c {
        Classified::Val(v) => v,
        other => panic!("expected a value, got {:?}", other),
    };
    assert_eq!(v, Value::Text("hi\\nthere".to_string()));
    let rendered = render_plain(&v).expect("text renders");
    assert_eq!(rendered, "hi\nthere");
    assert!(rendered.contains('\n'));
}

#[test]
fn rendering_covers_every_plain_value() {
    assert_eq!(render_plain(&Value::Int(0)).unwrap(), "0");
    assert_eq!(render_plain(&Value::Int(-250)).unwrap(), "-250");
    assert_eq!(render_plain(&Value::Bool(true)).unwrap(), "true");
    assert_eq!(render_plain(&Value::Bool(false)).unwrap(), "false");
    assert_eq!(render_plain(&Value::Null).unwrap(), "null");
    assert!(render_plain(&Value::Float(1.5f64.to_bits())).is_none());
}

#[test]
fn integers_render_in_decimal_at_both_extremes() {
    assert_eq!(int_to_string(i64::MAX), "9223372036854775807");
    assert_eq!(int_to_string(i64::MIN), "-9223372036854775808");
    assert_eq!(int_to_string(7), "7");
    assert_eq!(int_to_string(-1), "-1");
}

#[test]
fn loader_collects_function_bodies() {
    let fs = parse_functions("fun main\n  MOV R0, 1\n\n  // a comment\n  JMP exit\nend\n")
        .expect("loads");
    assert_eq!(fs.len(), 1);
    assert_eq!(fs[0].name, "main");
    assert_eq!(fs[0].body, vec!["MOV R0, 1", "JMP exit"]);
}

#[test]
fn loader_reads_several_functions_and_ignores_loose_lines() {
    let src = "MOV R9, 9\nfun a\nINC R0\nend\nsome noise\nfun b\nDEC R0\nend\n";
    let fs = parse_functions(src).expect("loads");
    assert_eq!(fs.len(), 2);
    assert_eq!(fs[0].name, "a");
    assert_eq!(fs[0].body, vec!["INC R0"]);
    assert_eq!(fs[1].name, "b");
    assert_eq!(fs[1].body, vec!["DEC R0"]);
}

#[test]
fn loader_rejects_a_declaration_without_one_name() {
    let err = parse_functions("fun \nend\n").unwrap_err();
    assert!(matches!(err, RunError::BadDeclaration { .. }));
    let err2 = parse_functions("fun two names\nend\n").unwrap_err();
    match err2 {
        RunError::BadDeclaration { line } => assert_eq!(line, "fun two names"),
        other => panic!("expected a declaration error, got {:?}", other),
    }
}

#[test]
fn loader_lets_a_later_declaration_replace_an_earlier_one() {
    let fs = parse_functions("fun f\nINC R0\nend\nfun f\nDEC R0\nend\n").expect("loads");
    assert_eq!(fs.len(), 1);
    assert_eq!(fs[0].body, vec!["DEC R0"]);
}

#[test]
fn loader_closes_an_open_declaration_at_the_end() {
    let fs = parse_functions("fun tail\nINC R0").expect("loads");
    assert_eq!(fs.len(), 1);
    assert_eq!(fs[0].name, "tail");
    assert_eq!(fs[0].body, vec!["INC R0"]);
}

#[test]
fn loader_ends_a_body_at_any_line_starting_with_end() {
    let fs = parse_functions("fun f\nINC R0\nendless\nINC R1\nend\n").expect("loads");
    assert_eq!(fs.len(), 1);
    assert_eq!(fs[0].body, vec!["INC R0"]);
}

#[test]
fn loader_needs_the_declaration_at_line_start() {
    // An indented declaration is not one; outside a body it is ignored.
    let fs = parse_functions("  fun f\nINC R0\nend\n").expect("loads");
    assert_eq!(fs.len(), 0);
}

#[test]
fn loader_accepts_windows_line_endings() {
    let fs = parse_functions("fun main\r\nINC R0\r\nend\r\n").expect("loads");
    assert_eq!(fs.len(), 1);
    assert_eq!(fs[0].body, vec!["INC R0"]);
}
