use vcd_index::{VCDFileError, load_vcd};

fn sample_trace() -> String {
    [
        "$date today $end",
        "$scope module top $end",
        "$scope module core $end",
        "$var wire 1 ! clk $end",
        "$upscope $end",
        "$var wire 4 \" bus $end",
        "$scope task t $end",
        "$var wire 1 # tv $end",
        "$upscope $end",
        "$upscope $end",
        "$enddefinitions $end",
        "#0",
        "$dumpvars",
        "0!",
        "b1x0z \"",
        "$end",
        "#5",
        "1!",
        "r3.14 #",
        "sHELLO \"",
        "#5",
        "0!",
    ]
    .join("\n")
        + "\n"
}

#[test]
fn load_builds_both_indices() {
    let file = load_vcd("trace.vcd".to_string(), sample_trace()).expect("trace loads");
    assert_eq!(file.filename, "trace.vcd".to_string());
    let vm = &file.variable_map;
    assert_eq!(vm.get(&"top.core.clk".to_string()), Some("!".to_string()));
    assert_eq!(vm.get(&"top.bus".to_string()), Some("\"".to_string()));
    assert_eq!(vm.get(&"top.tv".to_string()), Some("#".to_string()));
    assert_eq!(vm.get(&"top.t.tv".to_string()), None);
    assert_eq!(vm.len(), 3);
    let values = &file.value_map;
    let clk = values.get(&"!".to_string()).expect("clk changed");
    assert_eq!(clk.get(0), Some("0".to_string()));
    assert_eq!(clk.get(5), Some("0".to_string()));
    assert_eq!(clk.len(), 2);
    let bus = values.get(&"\"".to_string()).expect("bus changed");
    assert_eq!(bus.get(0), Some("1x0z".to_string()));
    assert_eq!(bus.get(5), Some("HELLO".to_string()));
    let tv = values.get(&"#".to_string()).expect("tv changed");
    assert_eq!(tv.get(5), Some("3.140000".to_string()));
}

#[test]
fn load_real_value_has_six_fraction_digits() {
    let content = [
        "$scope module top $end",
        "$var real 64 ! r $end",
        "$upscope $end",
        "$enddefinitions $end",
        "#1",
        "r3.14 !",
    ]
    .join("\n")
        + "\n";
    let file = load_vcd("r.vcd".to_string(), content).expect("trace loads");
    let timeline = file.value_map.get(&"!".to_string()).expect("r changed");
    let text = timeline.get(1).expect("value at time 1");
    assert_eq!(text, "3.140000".to_string());
    let fraction = text.split('.').nth(1).expect("a decimal point");
    assert_eq!(fraction.len(), 6);
}

#[test]
fn load_malformed_body_command_fails_without_aggregate() {
    let content = [
        "$scope module top $end",
        "$var wire 1 ! clk $end",
        "$upscope $end",
        "$enddefinitions $end",
        "#0",
        "0!",
        "q",
    ]
    .join("\n")
        + "\n";
    let r = load_vcd("bad.vcd".to_string(), content);
    assert!(matches!(r, Err(VCDFileError::ParsingFailCommandInvalid)));
    assert_eq!(
        r.unwrap_err().to_str(),
        "ParsingFailCommandInvalid"
    );
}

#[test]
fn load_unparsable_header_fails() {
    let r = load_vcd("empty.vcd".to_string(), String::new());
    assert!(matches!(r, Err(VCDFileError::ParsingFailHeaderInvalid)));
    let r2 = load_vcd("garbage.vcd".to_string(), "garbage".to_string());
    assert!(matches!(r2, Err(VCDFileError::ParsingFailHeaderInvalid)));
}

#[test]
fn load_twice_yields_structurally_equal_aggregates() {
    let f1 = load_vcd("trace.vcd".to_string(), sample_trace()).expect("first load");
    let f2 = load_vcd("trace.vcd".to_string(), sample_trace()).expect("second load");
    assert_eq!(f1, f2);
}

#[test]
fn load_variable_map_names_are_unique() {
    let file = load_vcd("trace.vcd".to_string(), sample_trace()).expect("trace loads");
    let mut names: Vec<String> = file
        .variable_map
        .entries
        .iter()
        .map(|e| e.0.clone())
        .collect();
    names.sort();
    let before = names.len();
    names.dedup();
    assert_eq!(names.len(), before);
}

#[test]
fn load_every_listed_signal_has_changes() {
    let file = load_vcd("trace.vcd".to_string(), sample_trace()).expect("trace loads");
    for entry in file.value_map.entries.iter() {
        assert!(entry.1.len() > 0);
    }
}
