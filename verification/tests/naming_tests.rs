use oxidiser::naming::{pascal_ident, synthesize};

fn chars(s: &str) -> Vec<char> {
    s.chars().collect()
}

fn text(v: &[char]) -> String {
    v.iter().collect()
}

fn synth(comp: &str, call: Option<&str>, suffix: &str) -> String {
    let comp = chars(comp);
    let call: Option<Vec<char>> = call.map(chars);
    let suffix = chars(suffix);
    text(&synthesize(&comp, call.as_ref(), &suffix))
}

#[test]
fn synthesize_normalizes_each_fragment() {
    assert_eq!(synth("foo_bar", Some("do_thing"), "Input"), "FooBarDoThingInput");
    assert_eq!(synth("adder", Some("op"), "Output"), "AdderOpOutput");
    assert_eq!(synth("HTTPServer", Some("poll_once"), "OutputValid"), "HttpServerPollOnceOutputValid");
    assert_eq!(synth("adder", None, "OutputExport"), "AdderOutputExport");
}

#[test]
fn pascal_ident_concatenates_converted_fragments() {
    let parts: Vec<Vec<char>> = vec![chars("foo_bar"), chars("baz"), chars("Input")];
    assert_eq!(text(&pascal_ident(&parts)), "FooBarBazInput");
}

#[test]
fn synthesize_is_deterministic() {
    let a = synth("some_comp", Some("the_call"), "Input");
    let b = synth("some_comp", Some("the_call"), "Input");
    assert_eq!(a, b);
}

#[test]
fn synthesize_is_injective_on_fixture_triples() {
    let components = ["adder", "mixer"];
    let calls = ["op", "run_once"];
    let suffixes = ["Input", "Output", "OutputExport", "OutputValid"];
    let mut seen: Vec<String> = Vec::new();
    for comp in &components {
        for call in &calls {
            for suffix in &suffixes {
                let name = synth(comp, Some(call), suffix);
                assert!(!seen.contains(&name), "collision on {name}");
                seen.push(name);
            }
        }
    }
    assert_eq!(seen.len(), 16);
}
