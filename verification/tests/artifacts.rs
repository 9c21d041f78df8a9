use oxidiser::artifact::{ArtifactSet, TypeExpr};
use oxidiser::codegen::compile_component;

fn chars(s: &str) -> Vec<char> {
    s.chars().collect()
}

fn text(v: &[char]) -> String {
    v.iter().collect()
}

fn compile(src: &str) -> ArtifactSet {
    compile_component(&chars(src)).expect("compiles")
}

const ADDER_SCHEMA: &str = "
Name: Adder;
Inputs: {
    a -> generic A,
    b -> generic B,
};
Outputs: {
    out -> using AdderOutput,
};
Calls: {
    op: {
        Takes: { a, b, };
        Observes: { };
        Writes: { out, };
    };
};
";

#[test]
fn adder_artifact_names() {
    let set = compile(ADDER_SCHEMA);
    assert_eq!(set.calls.len(), 1);
    let call = &set.calls[0];
    assert_eq!(text(&call.call_name), "op");
    assert_eq!(text(&call.input.name), "AdderOpInput");
    assert_eq!(text(&call.output.name), "AdderOpOutput");
    assert_eq!(text(&call.valid.name), "AdderOpOutputValid");
    assert_eq!(text(&set.export.name), "AdderOutputExport");
    assert_eq!(text(&set.export_impl.trait_name), "AdderOutputExport");
}

#[test]
fn adder_input_interface_shape() {
    let set = compile(ADDER_SCHEMA);
    let input = &set.calls[0].input;
    assert_eq!(input.type_slots.len(), 2);
    assert_eq!(text(&input.type_slots[0]), "A");
    assert_eq!(text(&input.type_slots[1]), "B");
    assert_eq!(input.accessors.len(), 2);
    assert_eq!(text(&input.accessors[0].name), "a");
    assert!(input.accessors[0].guaranteed);
    assert!(matches!(&input.accessors[0].ty, TypeExpr::SelfGeneric(g) if text(g) == "A"));
    assert_eq!(text(&input.accessors[1].name), "b");
    assert!(input.accessors[1].guaranteed);
}

#[test]
fn adder_output_interface_is_parameterized() {
    let set = compile(ADDER_SCHEMA);
    let output = &set.calls[0].output;
    match &output.export_param {
        Some(n) => assert_eq!(text(n), "AdderOutputExport"),
        None => panic!("a deduced output must force an export parameter"),
    }
    assert_eq!(output.accessors.len(), 1);
    assert_eq!(text(&output.accessors[0].name), "out");
    assert!(matches!(&output.accessors[0].ty, TypeExpr::ExportAssoc(n) if text(n) == "Out"));
}

#[test]
fn validity_record_has_one_field_per_write() {
    let set = compile(
        "Name: C; Inputs: { a -> u32 }; Outputs: { out -> u32 }; \
         Calls: { go: { Takes: { a }; Observes: { }; Writes: { out }; } };",
    );
    let valid = &set.calls[0].valid;
    assert_eq!(text(&valid.name), "CGoOutputValid");
    assert_eq!(valid.fields.len(), 1);
    assert_eq!(text(&valid.fields[0]), "out");
}

#[test]
fn export_interface_declares_every_output_slot() {
    let set = compile(
        "Name: Pair; Inputs: { a -> u32 }; Outputs: { x -> u32, y -> using Cap }; \
         Calls: { go: { Takes: { a }; Observes: { }; Writes: { x, y }; } };",
    );
    assert_eq!(set.export.type_slots.len(), 2);
    assert_eq!(text(&set.export.type_slots[0]), "X");
    assert_eq!(text(&set.export.type_slots[1]), "Y");
    let imp = &set.export_impl;
    assert_eq!(imp.bounds.len(), 1);
    assert_eq!(text(&imp.bounds[0]), "Cap");
    assert_eq!(imp.assocs.len(), 2);
    assert_eq!(text(&imp.assocs[0].0), "X");
    assert!(matches!(&imp.assocs[0].1, TypeExpr::Concrete(t) if text(t) == "u32"));
    assert_eq!(text(&imp.assocs[1].0), "Y");
    assert!(
        matches!(&imp.assocs[1].1, TypeExpr::TraitAssoc(tr, n) if text(tr) == "Cap" && text(n) == "Y")
    );
}

#[test]
fn concrete_only_output_interface_needs_no_export_parameter() {
    let set = compile(
        "Name: C; Inputs: { a -> u32 }; Outputs: { out -> u32 }; \
         Calls: { go: { Takes: { a }; Observes: { }; Writes: { out }; } };",
    );
    let output = &set.calls[0].output;
    assert!(output.export_param.is_none());
    assert!(matches!(&output.accessors[0].ty, TypeExpr::Concrete(t) if text(t) == "u32"));
}

#[test]
fn observed_inputs_are_optional_and_takes_win_on_overlap() {
    let set = compile(
        "Name: C; Inputs: { a -> u32, b -> u32, c -> u32 }; Outputs: { out -> u32 }; \
         Calls: { go: { Takes: { a, b }; Observes: { b, c }; Writes: { out }; } };",
    );
    let input = &set.calls[0].input;
    // The overlap name b appears once, with takes semantics.
    assert_eq!(input.accessors.len(), 3);
    assert_eq!(text(&input.accessors[0].name), "a");
    assert!(input.accessors[0].guaranteed);
    assert_eq!(text(&input.accessors[1].name), "b");
    assert!(input.accessors[1].guaranteed);
    assert_eq!(text(&input.accessors[2].name), "c");
    assert!(!input.accessors[2].guaranteed);
}

#[test]
fn shared_placeholder_yields_one_type_slot() {
    let set = compile(
        "Name: C; Inputs: { a -> generic T, b -> generic T, c -> u32 }; \
         Outputs: { out -> u32 }; \
         Calls: { go: { Takes: { a, b, c }; Observes: { }; Writes: { out }; } };",
    );
    let input = &set.calls[0].input;
    assert_eq!(input.type_slots.len(), 1);
    assert_eq!(text(&input.type_slots[0]), "T");
    assert_eq!(input.accessors.len(), 3);
    assert!(matches!(&input.accessors[2].ty, TypeExpr::Concrete(t) if text(t) == "u32"));
}

#[test]
fn calls_are_generated_in_declaration_order() {
    let set = compile(
        "Name: C; Inputs: { a -> u32 }; Outputs: { out -> u32 }; \
         Calls: { \
             second_call: { Takes: { a }; Observes: { }; Writes: { out }; }; \
             first_call: { Takes: { }; Observes: { a }; Writes: { }; }; \
         };",
    );
    assert_eq!(set.calls.len(), 2);
    assert_eq!(text(&set.calls[0].call_name), "second_call");
    assert_eq!(text(&set.calls[1].call_name), "first_call");
    assert_eq!(text(&set.calls[1].input.name), "CFirstCallInput");
    assert_eq!(set.calls[1].valid.fields.len(), 0);
}
