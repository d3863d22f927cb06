//! The option surface of CVC4 and its command line.
use vstd::prelude::*;
use vstd::string::*;
use crate::token::{
    assignment, assignment_token, optional, polarity, push_optional, push_polarity, push_token,
    quote, quoted, views, occurrences, lemma_occurrences_add, lemma_occurrences_none,
    lemma_occurrences_all, lemma_occurrences_single, decimal,
};

verus! {

/// Input language of the problem.
#[derive(Clone, Copy, Debug, PartialEq, Eq)]
pub enum Lang {
    Auto,
    Cvc4,
    Smtlib1,
    Smtlib2,
    Smtlib25,
    Smtlib26,
    Smtlib261,
    Tptp,
    Sygus,
}

impl Lang {
    /// The spelling of the language after `--lang=`.
    pub open spec fn spelling(self) -> Seq<char> {
        match self {
            Lang::Auto => "auto"@,
            Lang::Cvc4 => "cvc4"@,
            Lang::Smtlib1 => "smtlib1"@,
            Lang::Smtlib2 => "smtlib2.0"@,
            Lang::Smtlib25 => "smtlib2.5"@,
            Lang::Smtlib26 => "smtlib2.6"@,
            Lang::Smtlib261 => "smtlib2.6.1"@,
            Lang::Tptp => "tptp"@,
            Lang::Sygus => "sygus"@,
        }
    }

    pub fn name(&self) -> (r: &'static str)
        ensures
            r@ == self.spelling(),
    {
        match self {
            Lang::Auto => "auto",
            Lang::Cvc4 => "cvc4",
            Lang::Smtlib1 => "smtlib1",
            Lang::Smtlib2 => "smtlib2.0",
            Lang::Smtlib25 => "smtlib2.5",
            Lang::Smtlib26 => "smtlib2.6",
            Lang::Smtlib261 => "smtlib2.6.1",
            Lang::Tptp => "tptp",
            Lang::Sygus => "sygus",
        }
    }
}

/// Language in which the solver writes its answers.
#[derive(Clone, Copy, Debug, PartialEq, Eq)]
pub enum OutputLang {
    Auto,
    Cvc4,
    Cvc3,
    Smtlib2,
    Smtlib25,
    Smtlib26,
    Smtlib261,
    Tptp,
    Z3str,
    Ast,
}

impl OutputLang {
    /// The spelling of the language after `--output-lang=`.
    pub open spec fn spelling(self) -> Seq<char> {
        match self {
            OutputLang::Auto => "auto"@,
            OutputLang::Cvc4 => "cvc4"@,
            OutputLang::Cvc3 => "cvc3"@,
            OutputLang::Smtlib2 => "smtlib2.0"@,
            OutputLang::Smtlib25 => "smtlib2.5"@,
            OutputLang::Smtlib26 => "smtlib2.6"@,
            OutputLang::Smtlib261 => "smtlib2.6.1"@,
            OutputLang::Tptp => "tptp"@,
            OutputLang::Z3str => "z3str"@,
            OutputLang::Ast => "ast"@,
        }
    }

    pub fn name(&self) -> (r: &'static str)
        ensures
            r@ == self.spelling(),
    {
        match self {
            OutputLang::Auto => "auto",
            OutputLang::Cvc4 => "cvc4",
            OutputLang::Cvc3 => "cvc3",
            OutputLang::Smtlib2 => "smtlib2.0",
            OutputLang::Smtlib25 => "smtlib2.5",
            OutputLang::Smtlib26 => "smtlib2.6",
            OutputLang::Smtlib261 => "smtlib2.6.1",
            OutputLang::Tptp => "tptp",
            OutputLang::Z3str => "z3str",
            OutputLang::Ast => "ast",
        }
    }
}

/// `|n|` tokens: `--verbose` each when `n >= 0`, `--quiet` each otherwise.
pub open spec fn verbosity_tokens(n: int) -> Seq<Seq<char>> {
    let count: nat = if n >= 0 { n as nat } else { (-n) as nat };
    Seq::new(count, |i: int| if n >= 0 { "--verbose"@ } else { "--quiet"@ })
}

/// Appends the tokens of verbosity `v`.
fn push_verbosity(out: &mut Vec<String>, v: i32)
    ensures
        views(final(out)@) == views(old(out)@) + verbosity_tokens(v as int),
{
    let count: u32 = if v >= 0 {
        v as u32
    } else {
        (-(v as i64)) as u32
    };
    let mut i: u32 = 0;
    while i < count
        invariant
            i <= count,
            count as int == verbosity_tokens(v as int).len(),
            views(out@) == views(old(out)@) + verbosity_tokens(v as int).take(i as int),
        decreases count - i,
    {
        let t = if v >= 0 {
            String::from_str("--verbose")
        } else {
            String::from_str("--quiet")
        };
        push_token(out, t);
        assert(verbosity_tokens(v as int).take(i + 1) =~= verbosity_tokens(v as int).take(
            i as int,
        ).push(t@));
        i = i + 1;
    }
    assert(verbosity_tokens(v as int).take(count as int) =~= verbosity_tokens(v as int));
}

/// Appends each passthrough option as one quoted token, in order.
fn push_quoted(out: &mut Vec<String>, others: &Vec<String>)
    ensures
        views(final(out)@) == views(old(out)@) + others@.map_values(|o: String| quoted(o@)),
{
    let ghost quoted_all = others@.map_values(|o: String| quoted(o@));
    let n = others.len();
    let mut j: usize = 0;
    while j < n
        invariant
            n == others@.len(),
            j <= n,
            quoted_all == others@.map_values(|o: String| quoted(o@)),
            views(out@) == views(old(out)@) + quoted_all.take(j as int),
        decreases n - j,
    {
        let t = quote(others[j].as_str());
        push_token(out, t);
        assert(quoted_all.take(j + 1) =~= quoted_all.take(j as int).push(t@));
        j = j + 1;
    }
    assert(quoted_all.take(n as int) =~= quoted_all);
}

/// A CVC4 configuration.
#[derive(Debug)]
pub struct Argments {
    pub lang: Lang,
    pub output_lang: OutputLang,
    /// Positive: that many `--verbose`; negative: that many `--quiet`.
    pub verbosity: i32,
    pub stats: bool,
    pub seed: Option<i32>,
    pub strict_parsing: bool,
    pub cpu_time: bool,
    pub hard_limit: bool,
    pub incremental: bool,
    pub produce_assertions: bool,
    pub produce_models: bool,
    pub rlimit_per: Option<i32>,
    pub rlimit: Option<i32>,
    pub tlimit_per: Option<i32>,
    pub tlimit: Option<i32>,
    /// Further options, each passed as one double-quoted token.
    pub others: Vec<String>,
}

impl Argments {
    /// The two language selectors, always first.
    pub open spec fn language_tokens(self) -> Seq<Seq<char>> {
        seq![
            assignment("lang"@, self.lang.spelling()),
            assignment("output-lang"@, self.output_lang.spelling()),
        ]
    }

    /// The six flags after the seed, each spelled with its polarity.
    pub open spec fn switch_tokens(self) -> Seq<Seq<char>> {
        seq![
            polarity("strict-parsing"@, self.strict_parsing),
            polarity("cpu-time"@, self.cpu_time),
            polarity("hard-limit"@, self.hard_limit),
            polarity("incremental"@, self.incremental),
            polarity("produce-assertions"@, self.produce_assertions),
            polarity("produce-models"@, self.produce_models),
        ]
    }

    /// The polarity-encoded flags with their values, in command-line order.
    pub open spec fn polarity_flags(self) -> Seq<(Seq<char>, bool)> {
        seq![
            ("stats"@, self.stats),
            ("strict-parsing"@, self.strict_parsing),
            ("cpu-time"@, self.cpu_time),
            ("hard-limit"@, self.hard_limit),
            ("incremental"@, self.incremental),
            ("produce-assertions"@, self.produce_assertions),
            ("produce-models"@, self.produce_models),
        ]
    }

    /// The resource and time limits that are set, in this order.
    pub open spec fn limit_tokens(self) -> Seq<Seq<char>> {
        optional("rlimit-per"@, self.rlimit_per) + optional("rlimit"@, self.rlimit)
            + optional("tlimit-per"@, self.tlimit_per) + optional("tlimit"@, self.tlimit)
    }

    /// The passthrough options, each quoted.
    pub open spec fn other_tokens(self) -> Seq<Seq<char>> {
        self.others@.map_values(|o: String| quoted(o@))
    }

    /// The whole command line of this configuration, the problem file aside.
    pub open spec fn command_line(self) -> Seq<Seq<char>> {
        self.language_tokens() + verbosity_tokens(self.verbosity as int) + seq![
            polarity("stats"@, self.stats),
        ] + optional("seed"@, self.seed) + self.switch_tokens() + self.limit_tokens()
            + self.other_tokens()
    }

    fn push_switches(&self, out: &mut Vec<String>)
        ensures
            views(final(out)@) == views(old(out)@) + self.switch_tokens(),
    {
        push_polarity(out, "strict-parsing", self.strict_parsing);
        push_polarity(out, "cpu-time", self.cpu_time);
        push_polarity(out, "hard-limit", self.hard_limit);
        push_polarity(out, "incremental", self.incremental);
        push_polarity(out, "produce-assertions", self.produce_assertions);
        push_polarity(out, "produce-models", self.produce_models);
        assert(views(out@) =~= views(old(out)@) + self.switch_tokens());
    }

    fn push_limits(&self, out: &mut Vec<String>)
        ensures
            views(final(out)@) == views(old(out)@) + self.limit_tokens(),
    {
        push_optional(out, "rlimit-per", self.rlimit_per);
        push_optional(out, "rlimit", self.rlimit);
        push_optional(out, "tlimit-per", self.tlimit_per);
        push_optional(out, "tlimit", self.tlimit);
        assert(views(out@) =~= views(old(out)@) + self.limit_tokens());
    }

    /// The command-line tokens of this configuration, in the solver's order.
    pub fn to_commandline(self) -> (r: Vec<String>)
        ensures
            views(r@) == self.command_line(),
    {
        let mut result: Vec<String> = Vec::new();
        let lang = assignment_token("lang", self.lang.name());
        push_token(&mut result, lang);
        let output = assignment_token("output-lang", self.output_lang.name());
        push_token(&mut result, output);
        assert(views(result@) =~= self.language_tokens());
        let ghost before_verbosity = views(result@);

        push_verbosity(&mut result, self.verbosity);
        let ghost before_stats = views(result@);
        push_polarity(&mut result, "stats", self.stats);
        assert(views(result@) =~= before_stats + seq![polarity("stats"@, self.stats)]);
        push_optional(&mut result, "seed", self.seed);
        let ghost before_switches = views(result@);
        self.push_switches(&mut result);
        let ghost before_limits = views(result@);
        self.push_limits(&mut result);
        let ghost before_others = views(result@);
        push_quoted(&mut result, &self.others);
        assert(views(result@) == before_others + self.other_tokens());
        assert(before_verbosity == self.language_tokens());
        assert(before_stats == self.language_tokens() + verbosity_tokens(self.verbosity as int));
        assert(views(result@) == self.command_line());
        result
    }
}

/// Neither verbosity flag: a token that does not start with `-`, or whose
/// third character is neither `v` nor `q`.
proof fn lemma_not_verbosity(t: Seq<char>)
    requires
        t.len() == 0 || t[0] != '-' || t.len() < 3 || (t[2] != 'v' && t[2] != 'q'),
    ensures
        t != "--verbose"@,
        t != "--quiet"@,
{
    reveal_strlit("--verbose");
    reveal_strlit("--quiet");
}

proof fn lemma_polarity_third(name: Seq<char>, on: bool)
    requires
        name.len() > 0,
    ensures
        polarity(name, on).len() >= 3,
        polarity(name, on)[2] == (if on { name[0] } else { 'n' }),
{
    reveal_strlit("--");
    reveal_strlit("--no-");
}

proof fn lemma_assignment_third(name: Seq<char>, value: Seq<char>)
    requires
        name.len() > 0,
    ensures
        assignment(name, value).len() >= 3,
        assignment(name, value)[2] == name[0],
{
    reveal_strlit("--");
}

proof fn lemma_optional_not_verbosity(name: Seq<char>, value: Option<i32>)
    requires
        name.len() > 0,
        name[0] != 'v' && name[0] != 'q',
    ensures
        forall|i: int|
            0 <= i < optional(name, value).len() ==> optional(name, value)[i] != "--verbose"@
                && optional(name, value)[i] != "--quiet"@,
{
    if let Some(v) = value {
        lemma_assignment_third(name, decimal(v as int));
        lemma_not_verbosity(assignment(name, decimal(v as int)));
    }
}

/// Both language selectors come first, each as its documented token and no
/// other.
pub proof fn lemma_language_tokens(a: Argments)
    ensures
        a.command_line()[0] == assignment("lang"@, a.lang.spelling()),
        a.command_line()[1] == assignment("output-lang"@, a.output_lang.spelling()),
{
}

/// Verbosity `n` appears as exactly `|n|` tokens right after the language
/// selectors: `--verbose` each when `n >= 0`, `--quiet` each when `n < 0`.
/// Nowhere else in the command line does either flag appear.
pub proof fn lemma_verbosity(a: Argments)
    ensures
        ({
            let n = a.verbosity as int;
            let k = if n >= 0 { n } else { -n };
            &&& a.command_line().subrange(2, 2 + k) == verbosity_tokens(n)
            &&& occurrences(a.command_line(), "--verbose"@) == if n >= 0 { k } else { 0 }
            &&& occurrences(a.command_line(), "--quiet"@) == if n < 0 { k } else { 0 }
        }),
{
    let n = a.verbosity as int;
    let k = if n >= 0 { n } else { -n };
    let cl = a.command_line();
    let v = verbosity_tokens(n);
    assert(cl.subrange(2, 2 + k) =~= v);
    let head = a.language_tokens();
    let tail = seq![polarity("stats"@, a.stats)] + optional("seed"@, a.seed) + a.switch_tokens()
        + a.limit_tokens() + a.other_tokens();
    assert(cl =~= head + v + tail);
    reveal_strlit("lang");
    reveal_strlit("output-lang");
    reveal_strlit("stats");
    reveal_strlit("seed");
    reveal_strlit("strict-parsing");
    reveal_strlit("cpu-time");
    reveal_strlit("hard-limit");
    reveal_strlit("incremental");
    reveal_strlit("produce-assertions");
    reveal_strlit("produce-models");
    reveal_strlit("rlimit-per");
    reveal_strlit("rlimit");
    reveal_strlit("tlimit-per");
    reveal_strlit("tlimit");
    lemma_assignment_third("lang"@, a.lang.spelling());
    lemma_assignment_third("output-lang"@, a.output_lang.spelling());
    lemma_not_verbosity(head[0]);
    lemma_not_verbosity(head[1]);
    let sw = a.switch_tokens();
    lemma_polarity_third("stats"@, a.stats);
    lemma_polarity_third("strict-parsing"@, a.strict_parsing);
    lemma_polarity_third("cpu-time"@, a.cpu_time);
    lemma_polarity_third("hard-limit"@, a.hard_limit);
    lemma_polarity_third("incremental"@, a.incremental);
    lemma_polarity_third("produce-assertions"@, a.produce_assertions);
    lemma_polarity_third("produce-models"@, a.produce_models);
    lemma_not_verbosity(polarity("stats"@, a.stats));
    assert forall|i: int| 0 <= i < sw.len() implies sw[i] != "--verbose"@ && sw[i] != "--quiet"@ by {
        lemma_not_verbosity(sw[i]);
    }
    lemma_optional_not_verbosity("seed"@, a.seed);
    lemma_optional_not_verbosity("rlimit-per"@, a.rlimit_per);
    lemma_optional_not_verbosity("rlimit"@, a.rlimit);
    lemma_optional_not_verbosity("tlimit-per"@, a.tlimit_per);
    lemma_optional_not_verbosity("tlimit"@, a.tlimit);
    let others = a.other_tokens();
    assert forall|i: int| 0 <= i < others.len() implies others[i] != "--verbose"@
        && others[i] != "--quiet"@ by {
        lemma_not_verbosity(others[i]);
    }
    assert forall|i: int| 0 <= i < tail.len() implies tail[i] != "--verbose"@ && tail[i]
        != "--quiet"@ by {
    }
    lemma_occurrences_none(head, "--verbose"@);
    lemma_occurrences_none(head, "--quiet"@);
    lemma_occurrences_none(tail, "--verbose"@);
    lemma_occurrences_none(tail, "--quiet"@);
    lemma_occurrences_add(head, v, "--verbose"@);
    lemma_occurrences_add(head + v, tail, "--verbose"@);
    lemma_occurrences_add(head, v, "--quiet"@);
    lemma_occurrences_add(head + v, tail, "--quiet"@);
    if n >= 0 {
        lemma_occurrences_all(v, "--verbose"@);
        assert forall|i: int| 0 <= i < v.len() implies v[i] != "--quiet"@ by {
            reveal_strlit("--verbose");
            reveal_strlit("--quiet");
            assert(v[i].len() != "--quiet"@.len());
        }
        lemma_occurrences_none(v, "--quiet"@);
    } else {
        lemma_occurrences_all(v, "--quiet"@);
        assert forall|i: int| 0 <= i < v.len() implies v[i] != "--verbose"@ by {
            reveal_strlit("--verbose");
            reveal_strlit("--quiet");
            assert(v[i].len() != "--verbose"@.len());
        }
        lemma_occurrences_none(v, "--verbose"@);
    }
}

/// Each polarity-encoded flag gives exactly one token at a fixed place:
/// `stats` right after the verbosity tokens, the six others right after the
/// seed, each `--name` when set and `--no-name` when clear.
pub proof fn lemma_polarity_flags(a: Argments)
    ensures
        ({
            let n = a.verbosity as int;
            let k = 2 + if n >= 0 { n } else { -n };
            let m = k + 1 + optional("seed"@, a.seed).len();
            &&& a.command_line()[k] == polarity("stats"@, a.stats)
            &&& a.command_line().subrange(m, m + 6) == a.switch_tokens()
            &&& a.switch_tokens().len() == 6
        }),
{
    let n = a.verbosity as int;
    let k = 2 + if n >= 0 { n } else { -n };
    let m = k + 1 + optional("seed"@, a.seed).len();
    assert(a.command_line().subrange(m, m + 6) =~= a.switch_tokens());
}

/// The optional integer settings sit at fixed places: the seed right after
/// `stats`, the four limits right after the six flags. Each absent one gives
/// no token, each present one the single token `--name=v`.
pub proof fn lemma_optional_scalars(a: Argments)
    ensures
        ({
            let n = a.verbosity as int;
            let k = 3 + if n >= 0 { n } else { -n };
            let s = optional("seed"@, a.seed).len();
            let l = a.limit_tokens().len();
            &&& a.command_line().subrange(k, k + s) == optional("seed"@, a.seed)
            &&& a.command_line().subrange(k + s + 6, k + s + 6 + l) == a.limit_tokens()
        }),
{
    let n = a.verbosity as int;
    let k = 3 + if n >= 0 { n } else { -n };
    let s = optional("seed"@, a.seed).len();
    let l = a.limit_tokens().len();
    assert(a.command_line().subrange(k, k + s) =~= optional("seed"@, a.seed));
    assert(a.command_line().subrange(k + s + 6, k + s + 6 + l) =~= a.limit_tokens());
}

proof fn lemma_differ_at(t: Seq<char>, u: Seq<char>, k: int)
    requires
        0 <= k < t.len(),
        k >= u.len() || t[k] != u[k],
    ensures
        t != u,
{
}

/// A polarity token of one of the flags differs from every token of the
/// command line that is not a polarity token.
proof fn lemma_polarity_not_elsewhere(a: Argments, i: int, on: bool)
    requires
        0 <= i < 7,
    ensures
        ({
            let t = polarity(a.polarity_flags()[i].0, on);
            let rest = a.language_tokens() + verbosity_tokens(a.verbosity as int) + optional(
                "seed"@,
                a.seed,
            ) + a.limit_tokens() + a.other_tokens();
            forall|j: int| 0 <= j < rest.len() ==> rest[j] != t
        }),
{
    let name = a.polarity_flags()[i].0;
    let t = polarity(name, on);
    reveal_strlit("--");
    reveal_strlit("--no-");
    reveal_strlit("stats");
    reveal_strlit("strict-parsing");
    reveal_strlit("cpu-time");
    reveal_strlit("hard-limit");
    reveal_strlit("incremental");
    reveal_strlit("produce-assertions");
    reveal_strlit("produce-models");
    reveal_strlit("lang");
    reveal_strlit("output-lang");
    reveal_strlit("seed");
    reveal_strlit("rlimit-per");
    reveal_strlit("rlimit");
    reveal_strlit("tlimit-per");
    reveal_strlit("tlimit");
    reveal_strlit("--verbose");
    reveal_strlit("--quiet");
    assert(t.len() >= 4 && t[0] == '-');
    assert(t[2] == (if on { name[0] } else { 'n' }));
    assert(t[3] == (if on { name[1] } else { 'o' }));
    let rest = a.language_tokens() + verbosity_tokens(a.verbosity as int) + optional(
        "seed"@,
        a.seed,
    ) + a.limit_tokens() + a.other_tokens();
    assert forall|j: int| 0 <= j < rest.len() implies rest[j] != t by {
        let u = rest[j];
        if u.len() > 0 && u[0] == '"' {
            lemma_differ_at(t, u, 0);
        } else if u.len() > 2 && (u[2] == 's') {
            lemma_differ_at(t, u, 3);
        } else {
            lemma_differ_at(t, u, 2);
        }
    }
}

/// Each polarity-encoded flag appears exactly once in the whole command
/// line, spelled `--name` when set and `--no-name` when clear; its other
/// spelling never appears.
pub proof fn lemma_polarity_counts(a: Argments)
    ensures
        forall|i: int|
            #![trigger a.polarity_flags()[i]]
            0 <= i < 7 ==> {
                let (name, on) = a.polarity_flags()[i];
                &&& occurrences(a.command_line(), polarity(name, on)) == 1
                &&& occurrences(a.command_line(), polarity(name, !on)) == 0
            },
{
    assert forall|i: int| #![trigger a.polarity_flags()[i]] 0 <= i < 7 implies {
        let (name, on) = a.polarity_flags()[i];
        &&& occurrences(a.command_line(), polarity(name, on)) == 1
        &&& occurrences(a.command_line(), polarity(name, !on)) == 0
    } by {
        lemma_polarity_count(a, i, true);
        lemma_polarity_count(a, i, false);
    }
}

proof fn lemma_polarity_count(a: Argments, i: int, on: bool)
    requires
        0 <= i < 7,
    ensures
        occurrences(a.command_line(), polarity(a.polarity_flags()[i].0, on)) == if on
            == a.polarity_flags()[i].1 {
            1nat
        } else {
            0nat
        },
{
    let flags = a.polarity_flags();
    let t = polarity(flags[i].0, on);
    let ps = Seq::new(7, |j: int| polarity(flags[j].0, flags[j].1));
    let head = a.language_tokens();
    let v = verbosity_tokens(a.verbosity as int);
    let seed = optional("seed"@, a.seed);
    let sw = a.switch_tokens();
    let lim = a.limit_tokens();
    let oth = a.other_tokens();
    let cl = a.command_line();
    assert(cl =~= head + v + ps.take(1) + seed + ps.skip(1) + lim + oth);
    lemma_polarity_not_elsewhere(a, i, on);
    let rest = head + v + seed + lim + oth;
    assert forall|j: int| 0 <= j < head.len() implies head[j] != t by {
        assert(head[j] == rest[j]);
    }
    assert forall|j: int| 0 <= j < v.len() implies v[j] != t by {
        assert(v[j] == rest[head.len() + j]);
    }
    assert forall|j: int| 0 <= j < seed.len() implies seed[j] != t by {
        assert(seed[j] == rest[head.len() + v.len() + j]);
    }
    assert forall|j: int| 0 <= j < lim.len() implies lim[j] != t by {
        assert(lim[j] == rest[head.len() + v.len() + seed.len() + j]);
    }
    assert forall|j: int| 0 <= j < oth.len() implies oth[j] != t by {
        assert(oth[j] == rest[head.len() + v.len() + seed.len() + lim.len() + j]);
    }
    lemma_occurrences_none(head, t);
    lemma_occurrences_none(v, t);
    lemma_occurrences_none(seed, t);
    lemma_occurrences_none(lim, t);
    lemma_occurrences_none(oth, t);
    lemma_occurrences_add(head, v, t);
    lemma_occurrences_add(head + v, ps.take(1), t);
    lemma_occurrences_add(head + v + ps.take(1), seed, t);
    lemma_occurrences_add(head + v + ps.take(1) + seed, ps.skip(1), t);
    lemma_occurrences_add(head + v + ps.take(1) + seed + ps.skip(1), lim, t);
    lemma_occurrences_add(head + v + ps.take(1) + seed + ps.skip(1) + lim, oth, t);
    lemma_occurrences_add(ps.take(1), ps.skip(1), t);
    assert(ps.take(1) + ps.skip(1) =~= ps);
    lemma_polarity_distinct(a, i, on);
    if on == flags[i].1 {
        lemma_occurrences_single(ps, t, i);
    } else {
        lemma_occurrences_none(ps, t);
    }
}

/// Distinct flags, or one flag with two values, never share a token.
proof fn lemma_polarity_distinct(a: Argments, i: int, on: bool)
    requires
        0 <= i < 7,
    ensures
        forall|j: int|
            0 <= j < 7 ==> (polarity(a.polarity_flags()[j].0, a.polarity_flags()[j].1)
                == polarity(a.polarity_flags()[i].0, on) <==> (j == i && a.polarity_flags()[j].1
                == on)),
{
    let flags = a.polarity_flags();
    reveal_strlit("--");
    reveal_strlit("--no-");
    reveal_strlit("stats");
    reveal_strlit("strict-parsing");
    reveal_strlit("cpu-time");
    reveal_strlit("hard-limit");
    reveal_strlit("incremental");
    reveal_strlit("produce-assertions");
    reveal_strlit("produce-models");
    assert forall|j: int| 0 <= j < 7 implies (polarity(flags[j].0, flags[j].1) == polarity(
        flags[i].0,
        on,
    ) <==> (j == i && flags[j].1 == on)) by {
        let t = polarity(flags[i].0, on);
        let u = polarity(flags[j].0, flags[j].1);
        if u == t {
            assert(flags[j].0[0] != 'n' && flags[i].0[0] != 'n');
            if flags[j].1 != on {
                assert(u[2] != t[2]);
            } else {
                let k: int = if on { 2 } else { 5 };
                assert(flags[j].0 =~= u.skip(k));
                assert(flags[i].0 =~= t.skip(k));
                if j != i {
                    assert(flags[j].0 != flags[i].0) by {
                        if flags[j].0.len() == flags[i].0.len() {
                            assert(flags[j].0[0] != flags[i].0[0]);
                        }
                    }
                }
            }
        }
    }
}

} // verus!
