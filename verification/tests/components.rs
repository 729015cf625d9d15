use vcd_index::{Bit, BodyCommand, ScopeNode, Step, VCDFileError};
use vcd_index::flatten::variable_map_from_scope_item_list;
use vcd_index::replay::{bit_str, value_map_from_steps, vector_text};

fn var(name: &str, id: &str) -> ScopeNode {
    ScopeNode::Variable { name: name.to_string(), identifier: id.to_string() }
}

fn module(name: &str, children: Vec<ScopeNode>) -> ScopeNode {
    ScopeNode::Scope { is_module: true, name: name.to_string(), children }
}

fn task(name: &str, children: Vec<ScopeNode>) -> ScopeNode {
    ScopeNode::Scope { is_module: false, name: name.to_string(), children }
}

#[test]
fn flatten_nested_modules_round_trip() {
    let nodes = vec![module("top", vec![module("core", vec![var("clk", "!")])])];
    let mut stack: Vec<String> = Vec::new();
    let map = variable_map_from_scope_item_list(&mut stack, &nodes);
    assert!(stack.is_empty());
    assert_eq!(map.get(&"top.core.clk".to_string()), Some("!".to_string()));
    assert_eq!(map.len(), 1);
}

#[test]
fn flatten_non_module_scope_adds_no_segment() {
    let nodes = vec![module("top", vec![task("t", vec![var("x", "!")])])];
    let mut stack: Vec<String> = Vec::new();
    let map = variable_map_from_scope_item_list(&mut stack, &nodes);
    assert_eq!(map.get(&"top.x".to_string()), Some("!".to_string()));
    assert_eq!(map.get(&"top.t.x".to_string()), None);
}

#[test]
fn flatten_sibling_after_non_module_scope_keeps_path() {
    let nodes = vec![module(
        "top",
        vec![task("t", vec![var("x", "!")]), var("y", "\"")],
    )];
    let mut stack: Vec<String> = Vec::new();
    let map = variable_map_from_scope_item_list(&mut stack, &nodes);
    assert_eq!(map.get(&"top.x".to_string()), Some("!".to_string()));
    assert_eq!(map.get(&"top.y".to_string()), Some("\"".to_string()));
}

#[test]
fn flatten_redeclared_name_last_binding_wins() {
    let nodes = vec![module("top", vec![var("clk", "!"), var("clk", "\"")])];
    let mut stack: Vec<String> = Vec::new();
    let map = variable_map_from_scope_item_list(&mut stack, &nodes);
    assert_eq!(map.get(&"top.clk".to_string()), Some("\"".to_string()));
    assert_eq!(map.len(), 1);
}

#[test]
fn flatten_aliased_identifier_keeps_both_names() {
    let nodes = vec![module("top", vec![var("a", "!"), var("b", "!")])];
    let mut stack: Vec<String> = Vec::new();
    let map = variable_map_from_scope_item_list(&mut stack, &nodes);
    assert_eq!(map.get(&"top.a".to_string()), Some("!".to_string()));
    assert_eq!(map.get(&"top.b".to_string()), Some("!".to_string()));
    assert_eq!(map.len(), 2);
}

#[test]
fn flatten_comment_and_empty_tree() {
    let nodes = vec![ScopeNode::Comment("note".to_string())];
    let mut stack: Vec<String> = Vec::new();
    let map = variable_map_from_scope_item_list(&mut stack, &nodes);
    assert_eq!(map.len(), 0);
    let empty: Vec<ScopeNode> = Vec::new();
    let map2 = variable_map_from_scope_item_list(&mut stack, &empty);
    assert_eq!(map2.len(), 0);
}

#[test]
fn flatten_respects_open_scope_stack() {
    let nodes = vec![var("clk", "!")];
    let mut stack: Vec<String> = vec!["root".to_string()];
    let map = variable_map_from_scope_item_list(&mut stack, &nodes);
    assert_eq!(map.get(&"root.clk".to_string()), Some("!".to_string()));
    assert_eq!(stack, vec!["root".to_string()]);
}

fn decoded(c: BodyCommand) -> Step {
    Step::Decoded(c)
}

#[test]
fn replay_same_timestamp_second_write_wins() {
    let steps = vec![
        decoded(BodyCommand::Timestamp(0)),
        decoded(BodyCommand::ChangeScalar("a".to_string(), Bit::B0)),
        decoded(BodyCommand::Timestamp(0)),
        decoded(BodyCommand::ChangeScalar("a".to_string(), Bit::B1)),
    ];
    let map = value_map_from_steps(&steps).expect("stream decodes");
    let timeline = map.get(&"a".to_string()).expect("signal a recorded");
    assert_eq!(timeline.get(0), Some("1".to_string()));
    assert_eq!(timeline.len(), 1);
}

#[test]
fn replay_vector_canonicalizes_most_significant_first() {
    let steps = vec![
        decoded(BodyCommand::Timestamp(5)),
        decoded(BodyCommand::ChangeVector(
            "b".to_string(),
            vec![Bit::B1, Bit::B0, Bit::B1],
        )),
    ];
    let map = value_map_from_steps(&steps).expect("stream decodes");
    let timeline = map.get(&"b".to_string()).expect("signal b recorded");
    assert_eq!(timeline.get(5), Some("101".to_string()));
    assert_eq!(timeline.len(), 1);
}

#[test]
fn replay_invalid_step_fails_with_command_invalid() {
    let steps = vec![
        decoded(BodyCommand::Timestamp(0)),
        decoded(BodyCommand::ChangeScalar("a".to_string(), Bit::B1)),
        Step::Invalid,
        decoded(BodyCommand::ChangeScalar("a".to_string(), Bit::B0)),
    ];
    let r = value_map_from_steps(&steps);
    assert!(matches!(r, Err(VCDFileError::ParsingFailCommandInvalid)));
}

#[test]
fn replay_accepts_non_monotonic_timestamps() {
    let steps = vec![
        decoded(BodyCommand::Timestamp(5)),
        decoded(BodyCommand::ChangeScalar("a".to_string(), Bit::B1)),
        decoded(BodyCommand::Timestamp(3)),
        decoded(BodyCommand::ChangeScalar("a".to_string(), Bit::B0)),
    ];
    let map = value_map_from_steps(&steps).expect("stream decodes");
    let timeline = map.get(&"a".to_string()).expect("signal a recorded");
    assert_eq!(timeline.get(5), Some("1".to_string()));
    assert_eq!(timeline.get(3), Some("0".to_string()));
}

#[test]
fn replay_string_and_real_recorded_verbatim() {
    let steps = vec![
        decoded(BodyCommand::ChangeString("s".to_string(), "HELLO".to_string())),
        decoded(BodyCommand::ChangeReal("r".to_string(), "3.140000".to_string())),
    ];
    let map = value_map_from_steps(&steps).expect("stream decodes");
    assert_eq!(
        map.get(&"s".to_string()).unwrap().get(0),
        Some("HELLO".to_string())
    );
    assert_eq!(
        map.get(&"r".to_string()).unwrap().get(0),
        Some("3.140000".to_string())
    );
}

#[test]
fn replay_ineffective_commands_record_nothing() {
    let steps = vec![
        decoded(BodyCommand::Comment("note".to_string())),
        decoded(BodyCommand::SectionBegin),
        decoded(BodyCommand::SectionEnd),
        decoded(BodyCommand::Other),
        decoded(BodyCommand::Timestamp(7)),
    ];
    let map = value_map_from_steps(&steps).expect("stream decodes");
    assert_eq!(map.len(), 0);
}

#[test]
fn bit_and_vector_text_forms() {
    assert_eq!(bit_str(Bit::B0), "0");
    assert_eq!(bit_str(Bit::B1), "1");
    assert_eq!(bit_str(Bit::BX), "x");
    assert_eq!(bit_str(Bit::BZ), "z");
    assert_eq!(
        vector_text(&vec![Bit::B0, Bit::B1, Bit::BX, Bit::BZ]),
        "01xz".to_string()
    );
}

#[test]
fn error_names_are_stable() {
    assert_eq!(VCDFileError::FileNotOpened.to_str(), "FileNotOpened");
    assert_eq!(VCDFileError::FileReadError.to_str(), "FileReadError");
    assert_eq!(
        VCDFileError::ParsingFailHeaderInvalid.to_str(),
        "ParsingFailHeaderInvalid"
    );
    assert_eq!(
        VCDFileError::ParsingFailCommandInvalid.to_str(),
        "ParsingFailCommandInvalid"
    );
    assert_eq!(
        VCDFileError::ExtractionValueMapFail.to_str(),
        "ExtractionValueMapFail"
    );
    assert_eq!(
        VCDFileError::ExtractionVariableMapFail.to_str(),
        "ExtractionVariableMapFail"
    );
}
