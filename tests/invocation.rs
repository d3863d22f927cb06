use backend::{cvc4, outcome, z3, Argments, Failure};

fn z3_config() -> z3::Argments {
    z3::Argments {
        format: z3::Format::Smtlib2,
        display: z3::DisplayFlags {
            global_parameters: false,
            global_parameter_descriptions: false,
            statistics: true,
            warnings: false,
        },
        limit: z3::Limit { timeout: None, soft_timeout: None, memory: None },
        global_parameters: vec![],
        module_parameters: vec![],
        others: vec![],
    }
}

fn cvc4_config() -> cvc4::Argments {
    cvc4::Argments {
        lang: cvc4::Lang::Auto,
        output_lang: cvc4::OutputLang::Auto,
        verbosity: 2,
        stats: true,
        seed: None,
        strict_parsing: false,
        cpu_time: false,
        hard_limit: false,
        incremental: true,
        produce_assertions: false,
        produce_models: true,
        rlimit_per: None,
        rlimit: None,
        tlimit_per: None,
        tlimit: None,
        others: vec![],
    }
}

#[test]
fn z3_run_ends_with_the_staging_path() {
    let run = Argments::Z3(z3_config()).invocation("/tmp/problem.smt2");
    assert_eq!(run.program, "./z3");
    assert_eq!(run.args, vec!["-smt2", "-st", "/tmp/problem.smt2"]);
    assert_eq!(run.library_path, ".:$LD_LIBRARY_PATH");
}

#[test]
fn cvc4_run_ends_with_the_staging_path() {
    let run = Argments::Cvc4(cvc4_config()).invocation("in.smt2");
    assert_eq!(run.program, "./cvc4");
    assert_eq!(
        run.args,
        vec![
            "--lang=auto",
            "--output-lang=auto",
            "--verbose",
            "--verbose",
            "--stats",
            "--no-strict-parsing",
            "--no-cpu-time",
            "--no-hard-limit",
            "--incremental",
            "--no-produce-assertions",
            "--produce-models",
            "in.smt2"
        ]
    );
    assert_eq!(run.library_path, ".:$LD_LIBRARY_PATH");
}

#[test]
fn same_request_same_run() {
    let a = Argments::Cvc4(cvc4_config()).invocation("p");
    let b = Argments::Cvc4(cvc4_config()).invocation("p");
    assert_eq!(a.args, b.args);
    assert_eq!(a.program, b.program);
}

#[test]
fn nonzero_exit_is_a_result() {
    let r = outcome(Some(1), Some("unsat\n".to_string()), Some(String::new())).unwrap();
    assert_eq!(r.exit, 1);
    assert_eq!(r.stdout, "unsat\n");
    assert_eq!(r.stderr, "");
}

#[test]
fn negative_exit_is_a_result() {
    let r = outcome(Some(-2), Some(String::new()), Some("oops".to_string())).unwrap();
    assert_eq!(r.exit, -2);
    assert_eq!(r.stderr, "oops");
}

#[test]
fn missing_exit_code_fails() {
    let r = outcome(None, Some(String::new()), Some(String::new()));
    assert_eq!(r.unwrap_err(), Failure::NoExitCode);
}

#[test]
fn undecodable_stream_fails() {
    assert_eq!(outcome(Some(0), None, Some(String::new())).unwrap_err(), Failure::Decode);
    assert_eq!(outcome(Some(0), Some(String::new()), None).unwrap_err(), Failure::Decode);
}
