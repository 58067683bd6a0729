use circuitsim::command::Command;
use circuitsim::device::{Device, DeviceKind};
use circuitsim::engine::error::NotConvergedError;
use circuitsim::engine::newtons_method::{finish, verdict, Verdict, MAX_ITERS};
use circuitsim::engine::sim_result::{column_of, headers};
use circuitsim::engine::transient::{after_estimate, after_solve, window, StepAction};
use circuitsim::engine::Engine;
use circuitsim::nmos::State;
use circuitsim::node_collection::NodeCollection;
use circuitsim::parser::check_elems::{
    check_duplicate_names, check_elems, check_gnd, StructuralError,
};
use circuitsim::parser::{parse_op_cmd, Element, SpiceParser, ValueParts};
use circuitsim::spice_fn::{ExpPhase, PulsePhase, Waveform};

fn dev(kind: DeviceKind, name: &str, nodes: &[&str]) -> Device {
    Device::new(
        kind,
        name.to_string(),
        nodes.iter().map(|s| s.to_string()).collect(),
    )
    .unwrap()
}

fn res(name: &str, a: &str, b: &str) -> Device {
    dev(DeviceKind::Res, name, &[a, b])
}

#[test]
#[should_panic(expected = "Duplicate elems found!")]
fn test_duplicate_names_fail() {
    let elems = vec![res("R1", "0", "1"), res("R1", "0", "3")];
    if let Err(e) = check_duplicate_names(&elems) {
        panic!("{}", e.message());
    }
}

#[test]
fn test_duplicate_names_succeed() {
    let elems = vec![res("R1", "0", "1"), res("R2", "0", "3")];
    assert_eq!(check_duplicate_names(&elems), Ok(()));
}

#[test]
#[should_panic(expected = "GND node not found!")]
fn test_no_gnd_fail() {
    let elems = vec![res("R1", "1", "2")];
    if let Err(e) = check_gnd(&elems) {
        panic!("{}", e.message());
    }
}

#[test]
fn test_no_gnd_succeed() {
    let elems = vec![res("R1", "0", "2")];
    assert_eq!(check_gnd(&elems), Ok(()));
}

#[test]
fn structural_errors_by_input() {
    let dup = vec![res("R1", "1", "2"), res("R2", "2", "3"), res("R1", "3", "0")];
    assert_eq!(check_duplicate_names(&dup), Err(StructuralError::DuplicateName));
    assert_eq!(check_gnd(&dup), Ok(()));
    assert_eq!(check_elems(&dup), Err(StructuralError::DuplicateName));
    let both = vec![res("R1", "1", "2"), res("R1", "2", "3")];
    assert_eq!(check_elems(&both), Err(StructuralError::DuplicateName));
    let floating = vec![res("R1", "1", "2"), res("R2", "2", "00")];
    assert_eq!(check_elems(&floating), Err(StructuralError::MissingGround));
    let good = vec![res("R1", "1", "2"), res("R2", "2", "0")];
    assert_eq!(check_elems(&good), Ok(()));
    assert_eq!(check_elems(&Vec::new()), Err(StructuralError::MissingGround));
    assert_eq!(check_duplicate_names(&Vec::new()), Ok(()));
}

#[test]
fn engine_picks_the_first_command_of_each_kind() {
    let elems = vec![
        dev(DeviceKind::Vdd, "V1", &["0", "1"]),
        dev(DeviceKind::Diode, "D1", &["0", "1"]),
        dev(DeviceKind::NMOS, "M1", &["1", "1", "0"]),
    ];
    let cmds = vec![Command::Tran, Command::DC, Command::Tran, Command::DC];
    let e = Engine::new(elems, &cmds);
    assert_eq!(e.op_cmd, None);
    assert_eq!(e.dc_cmd, Some(1));
    assert_eq!(e.tran_cmd, Some(0));
    assert_eq!(e.num_nonlinear_funcs, 4);
    assert_eq!(e.elems.len(), 3);
    let e = Engine::new(Vec::new(), &vec![Command::Op]);
    assert_eq!(e.op_cmd, Some(0));
    assert_eq!(e.dc_cmd, None);
    assert_eq!(e.tran_cmd, None);
    assert_eq!(e.num_nonlinear_funcs, 0);
}

#[test]
fn sweep_source_is_found_by_name() {
    let elems = vec![
        dev(DeviceKind::Vdd, "V1", &["0", "1"]),
        res("R1", "1", "2"),
        dev(DeviceKind::Idd, "I1", &["2", "0"]),
    ];
    let e = Engine::new(elems, &Vec::new());
    assert_eq!(e.sweep_source("V1"), Some(0));
    assert_eq!(e.sweep_source("I1"), Some(2));
    assert_eq!(e.sweep_source("V2"), None);
    assert_eq!(e.sweep_source("v1"), None);
}

#[test]
fn result_columns() {
    let elems = vec![
        dev(DeviceKind::Vdd, "V1", &["0", "1"]),
        res("R1", "1", "2"),
        res("R2", "2", "0"),
    ];
    let nodes = NodeCollection::from_elems(&elems);
    assert_eq!(headers(&nodes, false), vec!["n_iters", "1", "2", "V1"]);
    let with_t = headers(&nodes, true);
    assert_eq!(with_t, vec!["n_iters", "t", "1", "2", "V1"]);
    assert_eq!(column_of(&with_t, "n_iters"), Some(0));
    assert_eq!(column_of(&with_t, "t"), Some(1));
    assert_eq!(column_of(&with_t, "V1"), Some(4));
    assert_eq!(column_of(&with_t, "3"), None);
    let empty = NodeCollection::from_elems(&Vec::new());
    assert_eq!(headers(&empty, false), vec!["n_iters"]);
}

#[test]
fn newton_stops_at_the_limit() {
    assert_eq!(MAX_ITERS, 100);
    assert_eq!(verdict(0, false), Verdict::Iterate);
    assert_eq!(verdict(99, false), Verdict::Iterate);
    assert_eq!(verdict(7, true), Verdict::Converged);
    assert_eq!(verdict(99, true), Verdict::Converged);
    assert_eq!(verdict(100, true), Verdict::GiveUp);
    assert_eq!(verdict(100, false), Verdict::GiveUp);
    assert_eq!(finish(0), Ok(0));
    assert_eq!(finish(99), Ok(99));
    assert_eq!(finish(100), Err(NotConvergedError));
    assert_eq!(finish(u64::MAX), Err(NotConvergedError));
    assert_eq!(NotConvergedError.message(), "Couldn't converge simulation.");
}

#[test]
fn step_controller_rules() {
    assert_eq!(after_solve(100, 10), StepAction::Halve);
    assert_eq!(after_solve(100, 0), StepAction::Halve);
    assert_eq!(after_solve(3, 0), StepAction::Accept { grow: false });
    assert_eq!(after_solve(3, 2), StepAction::Accept { grow: false });
    assert_eq!(after_solve(3, 3), StepAction::Estimate);
    assert_eq!(after_solve(99, 50), StepAction::Estimate);
    assert_eq!(after_estimate(true, true, true), StepAction::Halve);
    assert_eq!(after_estimate(true, false, false), StepAction::Halve);
    assert_eq!(after_estimate(false, true, true), StepAction::Accept { grow: true });
    assert_eq!(after_estimate(false, true, false), StepAction::Accept { grow: false });
    assert_eq!(after_estimate(false, false, true), StepAction::Accept { grow: false });
}

#[test]
fn error_estimate_reads_the_last_four_points() {
    assert_eq!(window(0), None);
    assert_eq!(window(3), None);
    assert_eq!(window(4), Some((0, 3)));
    assert_eq!(window(9), Some((5, 8)));
}

#[test]
fn analyses_run_in_a_fixed_order() {
    let cmds = vec![Command::Tran, Command::Op, Command::Tran, Command::DC];
    let e = Engine::new(Vec::new(), &cmds);
    assert_eq!(
        e.agenda(),
        vec![(Command::Op, 1), (Command::DC, 3), (Command::Tran, 0)]
    );
    let e = Engine::new(Vec::new(), &vec![Command::Tran]);
    assert_eq!(e.agenda(), vec![(Command::Tran, 0)]);
    let e = Engine::new(Vec::new(), &Vec::new());
    assert!(e.agenda().is_empty());
}

#[test]
fn operating_regions() {
    assert_eq!(State::classify(true, true, true), Some(State::CutOff));
    assert_eq!(State::classify(false, true, true), Some(State::Linear));
    assert_eq!(State::classify(false, false, true), Some(State::Saturated));
    assert_eq!(State::classify(false, false, false), None);
}

#[test]
fn excitation_phases() {
    assert_eq!(PulsePhase::classify(true, true, true, true), PulsePhase::Waiting);
    assert_eq!(PulsePhase::classify(false, true, true, true), PulsePhase::Rising);
    assert_eq!(PulsePhase::classify(false, false, true, true), PulsePhase::High);
    assert_eq!(PulsePhase::classify(false, false, false, true), PulsePhase::Falling);
    assert_eq!(PulsePhase::classify(false, false, false, false), PulsePhase::Low);
    assert_eq!(ExpPhase::classify(true, true), ExpPhase::Waiting);
    assert_eq!(ExpPhase::classify(false, true), ExpPhase::Rising);
    assert_eq!(ExpPhase::classify(false, false), ExpPhase::Falling);
    assert_eq!(Waveform::Sine.params(), 3);
    assert_eq!(Waveform::Pulse.params(), 7);
    assert_eq!(Waveform::Exp.params(), 6);
}

fn words(line: &str) -> Vec<String> {
    line.split(|c: char| c.is_whitespace() || c == '(' || c == ')')
        .filter(|w| !w.is_empty())
        .map(|w| w.to_string())
        .collect()
}

fn element(line: &str) -> Element {
    SpiceParser::parse_element(&words(line)).unwrap()
}

fn number(v: &ValueParts) -> f64 {
    let mult = match v.exponent {
        9 => 1e9,
        6 => 1e6,
        3 => 1e3,
        2 => 1e2,
        1 => 1e1,
        0 => 1.0,
        -1 => 1e-1,
        -2 => 1e-2,
        -3 => 1e-3,
        -6 => 1e-6,
        -9 => 1e-9,
        -12 => 1e-12,
        -15 => 1e-15,
        _ => unreachable!(),
    };
    v.number.parse::<f64>().unwrap() * mult
}

fn value(token: &str) -> f64 {
    number(&SpiceParser::value_parts(token).unwrap())
}

fn val(e: &Element) -> f64 {
    number(e.value.as_ref().unwrap())
}

#[test]
fn parse_res_generic() {
    let elem = element("R1 1 0 R=2.2k");
    assert_eq!(elem.device.kind, DeviceKind::Res);
    assert_eq!(elem.device.name, "R1");
    assert_eq!(elem.device.nodes, ["1", "0"]);
    assert_eq!(val(&elem), 2.2e3);
}

#[test]
fn parse_vdd_generic() {
    let elem = element("V1 1 0 4.0V");
    assert_eq!(elem.device.kind, DeviceKind::Vdd);
    assert_eq!(elem.device.name, "V1");
    assert_eq!(elem.device.nodes, ["0", "1"]);
    assert_eq!(val(&elem), 4.0);
    assert!(matches!(elem.waveform, None));
}

#[test]
fn parse_vdd_sine() {
    let elem = element("V1 1 0 SIN(0.0 1.0 10k)");
    assert_eq!(elem.device.name, "V1");
    assert_eq!(elem.device.nodes, ["0", "1"]);
    assert!(elem.value.is_none());
    assert_eq!(elem.waveform, Some(Waveform::Sine));
    assert_eq!(number(&elem.params[0]), 0.0);
    assert_eq!(number(&elem.params[1]), 1.0);
    assert_eq!(number(&elem.params[2]), 10e3);
}

#[test]
fn parse_idd_generic() {
    let elem = element("I1 1 0 4.0mA");
    assert_eq!(elem.device.kind, DeviceKind::Idd);
    assert_eq!(elem.device.name, "I1");
    assert_eq!(elem.device.nodes, ["1", "0"]);
    assert_eq!(val(&elem), 4.0e-3);
}

#[test]
fn parse_idd_sine() {
    let elem = element("I1 1 0 SIN(0.0 1.0 10k)");
    assert_eq!(elem.device.name, "I1");
    assert_eq!(elem.device.nodes, ["1", "0"]);
    assert_eq!(elem.waveform, Some(Waveform::Sine));
    assert_eq!(number(&elem.params[0]), 0.0);
    assert_eq!(number(&elem.params[1]), 1.0);
    assert_eq!(number(&elem.params[2]), 10e3);
}

#[test]
fn parse_ind_generic() {
    let elem = element("L1 1 0 L=1u");
    assert_eq!(elem.device.kind, DeviceKind::Ind);
    assert_eq!(elem.device.name, "L1");
    assert_eq!(elem.device.nodes, ["0", "1"]);
    assert_eq!(val(&elem), 1e-6);
}

#[test]
fn parse_cap_generic() {
    let elem = element("C1 1 0 C=1u");
    assert_eq!(elem.device.kind, DeviceKind::Cap);
    assert_eq!(elem.device.name, "C1");
    assert_eq!(elem.device.nodes, ["0", "1"]);
    assert_eq!(val(&elem), 1e-6);
}

#[test]
fn parse_dio_generic() {
    let elem = element("D1 1 0 d_model");
    assert_eq!(elem.device.kind, DeviceKind::Diode);
    assert_eq!(elem.device.name, "D1");
    assert_eq!(elem.device.nodes, ["1", "0"]);
}

#[test]
fn parse_bjt_generic() {
    let elem = element("Q1 1 2 3 0 q_model");
    assert_eq!(elem.device.kind, DeviceKind::NPN);
    assert_eq!(elem.device.name, "Q1");
    assert_eq!(elem.device.nodes, ["1", "2", "3"]);
}

#[test]
fn parse_nmos_generic() {
    let elem = element("M1 1 2 3 0 t_model");
    assert_eq!(elem.device.kind, DeviceKind::NMOS);
    assert_eq!(elem.device.name, "M1");
    assert_eq!(elem.device.nodes, ["1", "2", "3"]);
}

#[test]
fn parse_op_cmd_generic() {
    let d = SpiceParser::parse_command(&words(".op")).unwrap();
    assert!(matches!(d.command, Command::Op));
    let cmd = parse_op_cmd();
    assert!(matches!(cmd, Command::Op));
}

#[test]
fn parse_dc_cmd_v_generic() {
    let d = SpiceParser::parse_command(&words(".DC V1 0 1 1m")).unwrap();
    assert!(matches!(d.command, Command::DC));
    assert_eq!(d.source.unwrap(), "V1");
    assert_eq!(number(&d.values[0]), 0.0);
    assert_eq!(number(&d.values[1]), 1.0);
    assert_eq!(number(&d.values[2]), 1e-3);
}

#[test]
fn parse_dc_cmd_i_generic() {
    let d = SpiceParser::parse_command(&words(".DC I1 0 1 1m")).unwrap();
    assert!(matches!(d.command, Command::DC));
    assert_eq!(d.source.unwrap(), "I1");
    assert_eq!(number(&d.values[0]), 0.0);
    assert_eq!(number(&d.values[1]), 1.0);
    assert_eq!(number(&d.values[2]), 1e-3);
}

#[test]
fn parse_tran_cmd_generic() {
    let d = SpiceParser::parse_command(&words(".TRAN 1 1m")).unwrap();
    assert!(matches!(d.command, Command::Tran));
    assert!(d.source.is_none());
    assert_eq!(number(&d.values[0]), 1.0);
    assert_eq!(number(&d.values[1]), 1e-3);
}

#[test]
fn parse_spice_fn_sine() {
    let elem = element("V1 1 0 SIN(0.0 1.0 10k)");
    assert!(matches!(elem.waveform, Some(Waveform::Sine)));
    let p: Vec<f64> = elem.params.iter().map(number).collect();
    assert_eq!(p, vec![0.0, 1.0, 10e3]);
}

#[test]
fn parse_spice_fn_pulse() {
    let elem = element("V1 1 0 PULSE(0.0 1.0 0.0 1p 1p 5n 10n)");
    assert!(matches!(elem.waveform, Some(Waveform::Pulse)));
    let p: Vec<f64> = elem.params.iter().map(number).collect();
    assert_eq!(p[0], 0.0);
    assert_eq!(p[1], 1.0);
    assert_eq!(p[2], 0.0);
    assert_eq!(p[3], 1e-12);
    assert_eq!(p[4], 1e-12);
    assert_eq!(p[5], 5e-9);
    assert_eq!(p[6], 10e-9);
}

#[test]
fn parse_spice_fn_exp() {
    let elem = element("V1 1 0 EXP(0.0 1.0 0.0 1n 5n 1n)");
    assert!(matches!(elem.waveform, Some(Waveform::Exp)));
    let p: Vec<f64> = elem.params.iter().map(number).collect();
    assert_eq!(p[0], 0.0);
    assert_eq!(p[1], 1.0);
    assert_eq!(p[2], 0.0);
    assert_eq!(p[3], 1e-9);
    assert_eq!(p[4], 5e-9);
    assert_eq!(p[5], 1e-9);
}

#[test]
fn parse_value_generic() {
    let test_vals = [("1.23", 1.23), ("-50", -50.0), ("1.3k", 1300.0)];
    for (tgt_str, tgt_val) in test_vals.iter() {
        assert_eq!(&value(tgt_str), tgt_val);
    }
}

#[test]
fn parse_value_prefixes() {
    let test_vals = [
        ("1.0f", 1e-15),
        ("1.0p", 1e-12),
        ("1.0n", 1.0e-9),
        ("1.0u", 1.0e-6),
        ("1.0m", 1.0e-3),
        ("1.0c", 1.0e-2),
        ("1.0d", 1.0e-1),
        ("1.0da", 1.0e1),
        ("1.0h", 1.0e2),
        ("1.0k", 1.0e3),
        ("1.0M", 1.0e6),
        ("1.0G", 1.0e9),
    ];
    for (tgt_str, tgt_val) in test_vals.iter() {
        assert_eq!(&value(tgt_str), tgt_val);
    }
}

#[test]
fn values_as_written() {
    let v = SpiceParser::value_parts("-12.50mA").unwrap();
    assert_eq!(v.number, "-12.50");
    assert_eq!(v.exponent, -3);
    let v = SpiceParser::value_parts("+3.").unwrap();
    assert_eq!(v.number, "+3.");
    assert_eq!(v.exponent, 0);
    let v = SpiceParser::value_parts("7daN").unwrap();
    assert_eq!((v.number.as_str(), v.exponent), ("7", 1));
    let v = SpiceParser::value_parts("7dB").unwrap();
    assert_eq!((v.number.as_str(), v.exponent), ("7", -1));
    let v = SpiceParser::value_parts("7Ohm").unwrap();
    assert_eq!((v.number.as_str(), v.exponent), ("7", 0));
    for bad in ["", "k", "-", ".5", "1.2.3", "1k2", "1 k", "R=1k", "--1", "1_", "1µ"] {
        assert!(SpiceParser::value_parts(bad).is_none(), "{}", bad);
    }
}

#[test]
fn lines_that_are_no_elements() {
    for bad in [
        "",
        "X1 1 0 1k",
        "R1 1 0",
        "R1 1 0 1k 2k",
        "R1 1 0 L=1k",
        "R1 1 0 R=",
        "C1 1 0 c=1n extra",
        "V1 1 0",
        "V1 1 0 volts",
        "V1 1 0 SIN(0 1)",
        "V1 1 0 SIN(0 1 1k 5)",
        "V1 1 0 SAW(0 1 1k)",
        "V1 1 0 PULSE(0 1 0 1p 1p 5n x)",
        "I1 1 0 1m 2m",
        "D1 1",
        "Q1 1 2",
    ] {
        assert!(SpiceParser::parse_element(&words(bad)).is_none(), "{}", bad);
    }
    for good in ["r1 a b r=5", "D 2 0", "Q1 1 b 0", "M1 d g 0", "l1 1 0 3m", "i1 0 1 exp(0 1 0 1n 5n 1n)"] {
        assert!(SpiceParser::parse_element(&words(good)).is_some(), "{}", good);
    }
}

#[test]
fn lines_that_are_no_directives() {
    for bad in [
        "",
        "op",
        ".op 1",
        ".dc V1 0 1",
        ".dc V1 0 1 x",
        ".dc V1 0 1 1m 5",
        ".tran 1",
        ".tran 1 1m 2",
        ".tran a b",
        ".ac 1 2",
    ] {
        assert!(SpiceParser::parse_command(&words(bad)).is_none(), "{}", bad);
    }
}

#[test]
fn magnitude_suffixes() {
    let table = [
        ("G", 9),
        ("M", 6),
        ("k", 3),
        ("h", 2),
        ("da", 1),
        ("d", -1),
        ("c", -2),
        ("m", -3),
        ("u", -6),
        ("n", -9),
        ("p", -12),
        ("f", -15),
    ];
    for (p, e) in table.iter() {
        assert_eq!(SpiceParser::prefix_exponent(p), Some(*e));
    }
    for p in ["", "K", "g", "a", "ad", "dA", "dab", "mm", "µ", "V"] {
        assert_eq!(SpiceParser::prefix_exponent(p), None);
    }
}

#[test]
fn directives_and_functions_ignore_case() {
    assert_eq!(SpiceParser::command_kind(".OP"), Some(Command::Op));
    assert_eq!(SpiceParser::command_kind(".Dc"), Some(Command::DC));
    assert_eq!(SpiceParser::command_kind(".DC"), Some(Command::DC));
    assert_eq!(SpiceParser::command_kind(".TRAN"), Some(Command::Tran));
    assert_eq!(SpiceParser::command_kind(".tran"), Some(Command::Tran));
    assert_eq!(SpiceParser::command_kind("op"), None);
    assert_eq!(SpiceParser::command_kind(".ac"), None);
    assert_eq!(SpiceParser::command_kind(".trans"), None);
    assert_eq!(SpiceParser::command_kind(""), None);
    assert_eq!(SpiceParser::waveform("SIN"), Some(Waveform::Sine));
    assert_eq!(SpiceParser::waveform("Pulse"), Some(Waveform::Pulse));
    assert_eq!(SpiceParser::waveform("exp"), Some(Waveform::Exp));
    assert_eq!(SpiceParser::waveform("sine"), None);
    assert_eq!(SpiceParser::waveform("s\u{49}n"), Some(Waveform::Sine));
    assert_eq!(SpiceParser::waveform("s\u{131}n"), None);
}

#[test]
fn kinds_by_first_letter() {
    let table = [
        ("R1", DeviceKind::Res),
        ("r_load", DeviceKind::Res),
        ("V1", DeviceKind::Vdd),
        ("vdd", DeviceKind::Vdd),
        ("I1", DeviceKind::Idd),
        ("L1", DeviceKind::Ind),
        ("C1", DeviceKind::Cap),
        ("D1", DeviceKind::Diode),
        ("Q1", DeviceKind::NPN),
        ("m1", DeviceKind::NMOS),
    ];
    for (name, kind) in table.iter() {
        assert_eq!(SpiceParser::device_kind(name), Some(*kind));
    }
    assert_eq!(SpiceParser::device_kind(""), None);
    assert_eq!(SpiceParser::device_kind("X1"), None);
    assert_eq!(SpiceParser::device_kind(".op"), None);
    assert!(SpiceParser::element(DeviceKind::NPN, "Q1".to_string(), words("1 b")).is_none());
    let q = SpiceParser::element(DeviceKind::NPN, "Q1".to_string(), words("1 b 0")).unwrap();
    assert_eq!(q.nodes, ["1", "b", "0"]);
}
