use backend::cvc4::{Argments, Lang, OutputLang};

fn quiet_config() -> Argments {
    Argments {
        lang: Lang::Smtlib26,
        output_lang: OutputLang::Smtlib26,
        verbosity: 0,
        stats: false,
        seed: None,
        strict_parsing: false,
        cpu_time: false,
        hard_limit: false,
        incremental: false,
        produce_assertions: false,
        produce_models: false,
        rlimit_per: None,
        rlimit: None,
        tlimit_per: None,
        tlimit: None,
        others: vec![],
    }
}

const ALL_OFF: [&str; 7] = [
    "--no-stats",
    "--no-strict-parsing",
    "--no-cpu-time",
    "--no-hard-limit",
    "--no-incremental",
    "--no-produce-assertions",
    "--no-produce-models",
];

#[test]
fn time_limit_with_every_flag_clear() {
    let mut a = quiet_config();
    a.tlimit = Some(5000);
    let r = a.to_commandline();
    let mut expected = vec!["--lang=smtlib2.6".to_string(), "--output-lang=smtlib2.6".to_string()];
    expected.extend(ALL_OFF.iter().map(|s| s.to_string()));
    expected.push("--tlimit=5000".to_string());
    assert_eq!(r, expected);
}

#[test]
fn every_flag_set() {
    let mut a = quiet_config();
    a.stats = true;
    a.strict_parsing = true;
    a.cpu_time = true;
    a.hard_limit = true;
    a.incremental = true;
    a.produce_assertions = true;
    a.produce_models = true;
    let r = a.to_commandline();
    assert_eq!(
        r[2..],
        [
            "--stats",
            "--strict-parsing",
            "--cpu-time",
            "--hard-limit",
            "--incremental",
            "--produce-assertions",
            "--produce-models"
        ]
    );
}

#[test]
fn positive_verbosity_repeats_verbose() {
    let mut a = quiet_config();
    a.verbosity = 2;
    let r = a.to_commandline();
    assert_eq!(r[2..4], ["--verbose", "--verbose"]);
    assert_eq!(r[4], "--no-stats");
    assert_eq!(r.len(), 11);
    assert!(!r.iter().any(|t| t == "--quiet"));
}

#[test]
fn negative_verbosity_repeats_quiet() {
    let mut a = quiet_config();
    a.verbosity = -3;
    let r = a.to_commandline();
    assert_eq!(r[2..5], ["--quiet", "--quiet", "--quiet"]);
    assert_eq!(r.iter().filter(|t| *t == "--quiet").count(), 3);
    assert!(!r.iter().any(|t| t == "--verbose"));
}

#[test]
fn zero_verbosity_gives_no_token() {
    let r = quiet_config().to_commandline();
    assert_eq!(r.len(), 9);
    assert!(!r.iter().any(|t| t == "--quiet" || t == "--verbose"));
}

#[test]
fn seed_and_limits_in_order() {
    let mut a = quiet_config();
    a.seed = Some(-5);
    a.rlimit_per = Some(10);
    a.rlimit = Some(200);
    a.tlimit_per = Some(0);
    a.tlimit = Some(2147483647);
    let r = a.to_commandline();
    assert_eq!(r[3], "--seed=-5");
    assert_eq!(
        r[10..],
        ["--rlimit-per=10", "--rlimit=200", "--tlimit-per=0", "--tlimit=2147483647"]
    );
}

#[test]
fn input_languages() {
    let cases = [
        (Lang::Auto, "--lang=auto"),
        (Lang::Cvc4, "--lang=cvc4"),
        (Lang::Smtlib1, "--lang=smtlib1"),
        (Lang::Smtlib2, "--lang=smtlib2.0"),
        (Lang::Smtlib25, "--lang=smtlib2.5"),
        (Lang::Smtlib26, "--lang=smtlib2.6"),
        (Lang::Smtlib261, "--lang=smtlib2.6.1"),
        (Lang::Tptp, "--lang=tptp"),
        (Lang::Sygus, "--lang=sygus"),
    ];
    for (lang, token) in cases {
        let mut a = quiet_config();
        a.lang = lang;
        let r = a.to_commandline();
        assert_eq!(r[0], token);
        assert_eq!(r.iter().filter(|t| t.starts_with("--lang=")).count(), 1);
    }
}

#[test]
fn output_languages() {
    let cases = [
        (OutputLang::Auto, "--output-lang=auto"),
        (OutputLang::Cvc4, "--output-lang=cvc4"),
        (OutputLang::Cvc3, "--output-lang=cvc3"),
        (OutputLang::Smtlib2, "--output-lang=smtlib2.0"),
        (OutputLang::Smtlib25, "--output-lang=smtlib2.5"),
        (OutputLang::Smtlib26, "--output-lang=smtlib2.6"),
        (OutputLang::Smtlib261, "--output-lang=smtlib2.6.1"),
        (OutputLang::Tptp, "--output-lang=tptp"),
        (OutputLang::Z3str, "--output-lang=z3str"),
        (OutputLang::Ast, "--output-lang=ast"),
    ];
    for (lang, token) in cases {
        let mut a = quiet_config();
        a.output_lang = lang;
        let r = a.to_commandline();
        assert_eq!(r[1], token);
        assert_eq!(r.iter().filter(|t| t.starts_with("--output-lang=")).count(), 1);
    }
}

#[test]
fn passthrough_options_are_quoted_last() {
    let mut a = quiet_config();
    a.others = vec![
        "--simplification=none".to_string(),
        "say \"hi\"".to_string(),
        String::new(),
    ];
    let r = a.to_commandline();
    assert_eq!(
        r[9..],
        ["\"--simplification=none\"", "\"say \\\"hi\\\"\"", "\"\""]
    );
}

#[test]
fn same_configuration_same_tokens() {
    let mut a = quiet_config();
    a.verbosity = 1;
    a.seed = Some(7);
    a.others = vec!["x".to_string()];
    let mut b = quiet_config();
    b.verbosity = 1;
    b.seed = Some(7);
    b.others = vec!["x".to_string()];
    assert_eq!(a.to_commandline(), b.to_commandline());
}
