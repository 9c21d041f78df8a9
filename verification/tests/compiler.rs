use oxidiser::error::{CompileError, ParseError};
use oxidiser::model::{ComponentDefinition, InputType, OutputType};
use oxidiser::parse::parse_component;
use oxidiser::token::tokenize;

fn chars(s: &str) -> Vec<char> {
    s.chars().collect()
}

fn text(v: &[char]) -> String {
    v.iter().collect()
}

const ADDER_SCHEMA: &str = "
Name: Adder;
Inputs: {
    a -> generic A,
    b -> generic B,
};
Outputs: {
    out -> using AdderOutput,
};
Calls: {
    op: {
        Takes: { a, b, };
        Observes: { };
        Writes: { out, };
    };
};
";

fn parse_ok(src: &str) -> ComponentDefinition {
    let toks = tokenize(&chars(src)).expect("tokenizes");
    ComponentDefinition::parse(&toks).expect("parses and validates")
}

fn parse_err(src: &str) -> CompileError {
    let toks = tokenize(&chars(src)).expect("tokenizes");
    ComponentDefinition::parse(&toks).expect_err("rejected")
}

#[test]
fn tokenize_simple_stream() {
    let toks = tokenize(&chars("Name: x;")).expect("tokenizes");
    assert_eq!(toks.len(), 4);
    assert_eq!(toks[0].pos, 0);
    assert_eq!(toks[1].pos, 4);
    assert_eq!(toks[2].pos, 6);
    assert_eq!(toks[3].pos, 7);
}

#[test]
fn tokenize_rejects_stray_character() {
    let err = tokenize(&chars("Name ? x")).expect_err("rejected");
    assert_eq!(err.pos, 5);
}

#[test]
fn parses_whole_component() {
    let def = parse_ok(ADDER_SCHEMA);
    assert_eq!(text(&def.name), "Adder");
    let inputs = &def.inputs.inputs.map;
    assert_eq!(inputs.len(), 2);
    assert_eq!(text(&inputs[0].0), "a");
    match &inputs[0].1 {
        InputType::Generic(g) => assert_eq!(text(g), "A"),
        InputType::Concrete(_) => panic!("input a should be generic"),
    }
    assert_eq!(text(&inputs[1].0), "b");
    let outputs = &def.outputs.outputs.map;
    assert_eq!(outputs.len(), 1);
    assert_eq!(text(&outputs[0].0), "out");
    match &outputs[0].1 {
        OutputType::FromTrait(t) => assert_eq!(text(t), "AdderOutput"),
        OutputType::Concrete(_) => panic!("output out should be deduced"),
    }
    let calls = &def.all_calls.calls.map;
    assert_eq!(calls.len(), 1);
    assert_eq!(text(&calls[0].0), "op");
    let call = &calls[0].1;
    assert_eq!(call.takes.set.len(), 2);
    assert_eq!(text(&call.takes.set[0]), "a");
    assert_eq!(text(&call.takes.set[1]), "b");
    assert_eq!(call.observes.set.len(), 0);
    assert_eq!(call.writes.set.len(), 1);
    assert_eq!(text(&call.writes.set[0]), "out");
}

#[test]
fn parses_concrete_types_and_no_trailing_commas() {
    let def = parse_ok(
        "Name: C; Inputs: { a -> u32, b -> u64 }; Outputs: { o -> u32 }; \
         Calls: { go: { Takes: { a }; Observes: { b }; Writes: { o }; } };",
    );
    match &def.inputs.inputs.map[0].1 {
        InputType::Concrete(t) => assert_eq!(text(t), "u32"),
        InputType::Generic(_) => panic!("input a should be concrete"),
    }
    assert_eq!(def.all_calls.calls.map.len(), 1);
}

#[test]
fn parses_empty_mappings_and_sets() {
    let def = parse_ok("Name: Hollow; Inputs: { }; Outputs: { }; Calls: { };");
    assert_eq!(text(&def.name), "Hollow");
    assert_eq!(def.inputs.inputs.map.len(), 0);
    assert_eq!(def.outputs.outputs.map.len(), 0);
    assert_eq!(def.all_calls.calls.map.len(), 0);
}

#[test]
fn trailing_junk_is_a_syntax_error() {
    let err = parse_err("Name: C; Inputs: { }; Outputs: { }; Calls: { }; extra");
    assert!(matches!(err, CompileError::Syntax(_)));
}

#[test]
fn duplicate_input_is_rejected() {
    let toks = tokenize(&chars("{ a -> u32, a -> u32 }")).expect("tokenizes");
    let err = oxidiser::model::InputBody::parse(&toks, 0).expect_err("rejected");
    match err {
        ParseError::Duplicate(d) => {
            assert_eq!(text(&d.name), "a");
            assert_eq!(d.first_pos, 2);
            assert_eq!(d.dup_pos, 12);
        }
        ParseError::Syntax(_) => panic!("expected a duplicate declaration error"),
    }
}

#[test]
fn duplicate_input_fails_whole_schema() {
    let err = parse_err(
        "Name: C; Inputs: { a -> u32, a -> u32 }; Outputs: { o -> u32 }; \
         Calls: { go: { Takes: { a }; Observes: { }; Writes: { o }; } };",
    );
    match err {
        CompileError::Duplicate(d) => assert_eq!(text(&d.name), "a"),
        _ => panic!("expected a duplicate declaration error"),
    }
}

#[test]
fn duplicate_take_is_rejected() {
    let err = parse_err(
        "Name: C; Inputs: { a -> u32 }; Outputs: { o -> u32 }; \
         Calls: { go: { Takes: { a, a }; Observes: { }; Writes: { o }; } };",
    );
    match err {
        CompileError::Duplicate(d) => assert_eq!(text(&d.name), "a"),
        _ => panic!("expected a duplicate declaration error"),
    }
}

#[test]
fn malformed_schema_is_a_syntax_error() {
    let err = parse_err("Name Adder;");
    match err {
        CompileError::Syntax(e) => assert_eq!(e.pos, 5),
        _ => panic!("expected a syntax error"),
    }
}

#[test]
fn truncated_schema_is_a_syntax_error() {
    let err = parse_err("Name: Adder; Inputs: { a -> ");
    assert!(matches!(err, CompileError::Syntax(_)));
}

#[test]
fn undeclared_take_is_a_reference_error() {
    let err = parse_err(
        "Name: C; Inputs: { a -> u32 }; Outputs: { o -> u32 }; \
         Calls: { go: { Takes: { a, ghost_in }; Observes: { }; Writes: { o }; } };",
    );
    match err {
        CompileError::Reference(e) => {
            assert_eq!(text(&e.call), "go");
            assert_eq!(text(&e.ident), "ghost_in");
        }
        _ => panic!("expected a reference error"),
    }
}

#[test]
fn undeclared_write_is_a_reference_error() {
    let err = parse_err(
        "Name: C; Inputs: { a -> u32 }; Outputs: { o -> u32 }; \
         Calls: { go: { Takes: { a }; Observes: { }; Writes: { nowhere }; } };",
    );
    match err {
        CompileError::Reference(e) => {
            assert_eq!(text(&e.call), "go");
            assert_eq!(text(&e.ident), "nowhere");
        }
        _ => panic!("expected a reference error"),
    }
}

#[test]
fn validator_accepts_declared_references() {
    let toks = tokenize(&chars(ADDER_SCHEMA)).expect("tokenizes");
    let def = parse_component(&toks).expect("parses");
    assert!(def.validate().is_ok());
    assert!(def.validate_call_inputs().is_ok());
    assert!(def.validate_call_outputs().is_ok());
    // The definition is returned unchanged: validation takes it by shared
    // reference and the parsed content is still intact afterwards.
    assert_eq!(text(&def.name), "Adder");
    assert_eq!(def.inputs.inputs.map.len(), 2);
}

#[test]
fn validator_reports_first_offending_call() {
    let err = parse_err(
        "Name: C; Inputs: { a -> u32 }; Outputs: { o -> u32 }; \
         Calls: { \
             first: { Takes: { a }; Observes: { missing_one }; Writes: { o }; }; \
             second: { Takes: { missing_two }; Observes: { }; Writes: { o }; }; \
         };",
    );
    match err {
        CompileError::Reference(e) => {
            assert_eq!(text(&e.call), "first");
            assert_eq!(text(&e.ident), "missing_one");
        }
        _ => panic!("expected a reference error"),
    }
}
