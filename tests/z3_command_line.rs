use backend::z3::{Argments, DisplayFlags, Format, Limit};

fn plain_config(format: Format) -> Argments {
    Argments {
        format,
        display: DisplayFlags {
            global_parameters: false,
            global_parameter_descriptions: false,
            statistics: false,
            warnings: false,
        },
        limit: Limit { timeout: None, soft_timeout: None, memory: None },
        global_parameters: vec![],
        module_parameters: vec![],
        others: vec![],
    }
}

#[test]
fn smtlib2_with_nothing_else() {
    assert_eq!(plain_config(Format::Smtlib2).to_commandline(), vec!["-smt2"]);
}

#[test]
fn every_format() {
    let cases = [
        (Format::Smtlib2, "-smt2"),
        (Format::Datalog, "-dl"),
        (Format::Dimacs, "-dimacs"),
        (Format::WeightedCnfDimacs, "-wcnf"),
        (Format::PbOptimization, "-opb"),
        (Format::CplexLp, "-lp"),
        (Format::Z3Log, "-log"),
    ];
    for (format, token) in cases {
        assert_eq!(plain_config(format).to_commandline(), vec![token]);
    }
}

#[test]
fn display_flags_only_when_set() {
    let mut a = plain_config(Format::Smtlib2);
    a.display.global_parameter_descriptions = true;
    a.display.warnings = true;
    assert_eq!(a.to_commandline(), vec!["-smt2", "-pd", "-nw"]);

    let mut b = plain_config(Format::Smtlib2);
    b.display = DisplayFlags {
        global_parameters: true,
        global_parameter_descriptions: true,
        statistics: true,
        warnings: true,
    };
    assert_eq!(b.to_commandline(), vec!["-smt2", "-p", "-pd", "-st", "-nw"]);
}

#[test]
fn limits_as_flag_and_value() {
    let mut a = plain_config(Format::Dimacs);
    a.limit = Limit { timeout: Some(5000), soft_timeout: None, memory: Some(-1) };
    assert_eq!(a.to_commandline(), vec!["-dimacs", "-T", "5000", "-memory", "-1"]);
    let mut b = plain_config(Format::Dimacs);
    b.limit = Limit { timeout: Some(5000), soft_timeout: Some(30), memory: Some(-1) };
    assert_eq!(
        b.to_commandline(),
        vec!["-dimacs", "-T", "5000", "-t", "30", "-memory", "-1"]
    );
}

#[test]
fn parameters_then_passthrough_last() {
    let mut a = plain_config(Format::Smtlib2);
    a.display.statistics = true;
    a.global_parameters = vec![
        ("model".to_string(), "true".to_string()),
        ("timeout".to_string(), "10".to_string()),
    ];
    a.module_parameters = vec![(("sat".to_string(), "random_seed".to_string()), "3".to_string())];
    a.others = vec!["-v:2".to_string(), "a \"b\"".to_string()];
    assert_eq!(
        a.to_commandline(),
        vec![
            "-smt2",
            "-st",
            "model=true",
            "timeout=10",
            "sat.random_seed=3",
            "-v:2",
            "a \"b\""
        ]
    );
}
