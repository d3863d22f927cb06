//! The option surface of Z3 and its command line.
use vstd::prelude::*;
use vstd::string::*;
use crate::token::{decimal, decimal_string, push_token, views};

verus! {

/// Input format of the problem.
#[derive(Clone, Copy, Debug, PartialEq, Eq)]
pub enum Format {
    Smtlib2,
    Datalog,
    Dimacs,
    WeightedCnfDimacs,
    PbOptimization,
    CplexLp,
    Z3Log,
}

impl Format {
    /// The flag that selects the format.
    pub open spec fn flag(self) -> Seq<char> {
        match self {
            Format::Smtlib2 => "-smt2"@,
            Format::Datalog => "-dl"@,
            Format::Dimacs => "-dimacs"@,
            Format::WeightedCnfDimacs => "-wcnf"@,
            Format::PbOptimization => "-opb"@,
            Format::CplexLp => "-lp"@,
            Format::Z3Log => "-log"@,
        }
    }

    pub fn token(&self) -> (r: String)
        ensures
            r@ == self.flag(),
    {
        match self {
            Format::Smtlib2 => String::from_str("-smt2"),
            Format::Datalog => String::from_str("-dl"),
            Format::Dimacs => String::from_str("-dimacs"),
            Format::WeightedCnfDimacs => String::from_str("-wcnf"),
            Format::PbOptimization => String::from_str("-opb"),
            Format::CplexLp => String::from_str("-lp"),
            Format::Z3Log => String::from_str("-log"),
        }
    }
}

/// What the solver is asked to print besides its answer. Each flag gives
/// one token when set and none when clear.
#[derive(Clone, Copy, Debug, PartialEq, Eq)]
pub struct DisplayFlags {
    /// `-p`
    pub global_parameters: bool,
    /// `-pd`
    pub global_parameter_descriptions: bool,
    /// `-st`
    pub statistics: bool,
    /// `-nw`
    pub warnings: bool,
}

/// One token when `on`, none otherwise.
pub open spec fn when(on: bool, t: Seq<char>) -> Seq<Seq<char>> {
    if on {
        seq![t]
    } else {
        Seq::empty()
    }
}

impl DisplayFlags {
    pub open spec fn tokens(self) -> Seq<Seq<char>> {
        when(self.global_parameters, "-p"@) + when(self.global_parameter_descriptions, "-pd"@)
            + when(self.statistics, "-st"@) + when(self.warnings, "-nw"@)
    }
}

/// Limits on the run; each one that is set gives a flag and its value as two
/// tokens.
#[derive(Clone, Copy, Debug, PartialEq, Eq)]
pub struct Limit {
    /// `-T`
    pub timeout: Option<i32>,
    /// `-t`
    pub soft_timeout: Option<i32>,
    /// `-memory`
    pub memory: Option<i32>,
}

/// The flag and the value as two tokens when present, nothing when absent.
pub open spec fn flag_value(flag: Seq<char>, value: Option<i32>) -> Seq<Seq<char>> {
    match value {
        Some(v) => seq![flag, decimal(v as int)],
        None => Seq::empty(),
    }
}

impl Limit {
    pub open spec fn tokens(self) -> Seq<Seq<char>> {
        flag_value("-T"@, self.timeout) + flag_value("-t"@, self.soft_timeout) + flag_value(
            "-memory"@,
            self.memory,
        )
    }
}

/// `name=value`, a global parameter.
pub open spec fn global_token(p: (String, String)) -> Seq<char> {
    p.0@ + "="@ + p.1@
}

/// `module.name=value`, a parameter of one module.
pub open spec fn module_token(p: ((String, String), String)) -> Seq<char> {
    p.0.0@ + "."@ + p.0.1@ + "="@ + p.1@
}

/// A Z3 configuration.
#[derive(Debug)]
pub struct Argments {
    pub format: Format,
    pub display: DisplayFlags,
    pub limit: Limit,
    /// Global parameters as (name, value), each passed as `name=value`.
    pub global_parameters: Vec<(String, String)>,
    /// Module parameters as ((module, name), value), each passed as
    /// `module.name=value`.
    pub module_parameters: Vec<((String, String), String)>,
    /// Further options, passed as they are.
    pub others: Vec<String>,
}

/// Appends `-f v` when the value is present.
fn push_flag_value(out: &mut Vec<String>, flag: &str, value: Option<i32>)
    ensures
        views(final(out)@) == views(old(out)@) + flag_value(flag@, value),
{
    if let Some(v) = value {
        push_token(out, String::from_str(flag));
        push_token(out, decimal_string(v));
    }
    assert(views(out@) =~= views(old(out)@) + flag_value(flag@, value));
}

/// Appends `-f` when `on`.
fn push_when(out: &mut Vec<String>, on: bool, flag: &str)
    ensures
        views(final(out)@) == views(old(out)@) + when(on, flag@),
{
    if on {
        push_token(out, String::from_str(flag));
    }
    assert(views(out@) =~= views(old(out)@) + when(on, flag@));
}

impl Argments {
    /// The global parameters, in the order given.
    pub open spec fn global_tokens(self) -> Seq<Seq<char>> {
        self.global_parameters@.map_values(|p: (String, String)| global_token(p))
    }

    /// The module parameters, in the order given.
    pub open spec fn module_tokens(self) -> Seq<Seq<char>> {
        self.module_parameters@.map_values(|p: ((String, String), String)| module_token(p))
    }

    /// The whole command line of this configuration, the problem file aside.
    pub open spec fn command_line(self) -> Seq<Seq<char>> {
        seq![self.format.flag()] + self.display.tokens() + self.limit.tokens()
            + self.global_tokens() + self.module_tokens() + views(self.others@)
    }

    fn push_display(&self, out: &mut Vec<String>)
        ensures
            views(final(out)@) == views(old(out)@) + self.display.tokens(),
    {
        push_when(out, self.display.global_parameters, "-p");
        push_when(out, self.display.global_parameter_descriptions, "-pd");
        push_when(out, self.display.statistics, "-st");
        push_when(out, self.display.warnings, "-nw");
        assert(views(out@) =~= views(old(out)@) + self.display.tokens());
    }

    fn push_limits(&self, out: &mut Vec<String>)
        ensures
            views(final(out)@) == views(old(out)@) + self.limit.tokens(),
    {
        push_flag_value(out, "-T", self.limit.timeout);
        push_flag_value(out, "-t", self.limit.soft_timeout);
        push_flag_value(out, "-memory", self.limit.memory);
        assert(views(out@) =~= views(old(out)@) + self.limit.tokens());
    }

    fn push_globals(&self, out: &mut Vec<String>)
        ensures
            views(final(out)@) == views(old(out)@) + self.global_tokens(),
    {
        let n = self.global_parameters.len();
        let mut i: usize = 0;
        while i < n
            invariant
                n == self.global_parameters@.len(),
                i <= n,
                views(out@) == views(old(out)@) + self.global_tokens().take(i as int),
            decreases n - i,
        {
            let p = &self.global_parameters[i];
            let mut t = p.0.clone();
            t.append("=");
            t.append(p.1.as_str());
            push_token(out, t);
            assert(self.global_tokens().take(i + 1) =~= self.global_tokens().take(i as int).push(
                t@,
            ));
            i = i + 1;
        }
        assert(self.global_tokens().take(n as int) =~= self.global_tokens());
    }

    fn push_modules(&self, out: &mut Vec<String>)
        ensures
            views(final(out)@) == views(old(out)@) + self.module_tokens(),
    {
        let n = self.module_parameters.len();
        let mut i: usize = 0;
        while i < n
            invariant
                n == self.module_parameters@.len(),
                i <= n,
                views(out@) == views(old(out)@) + self.module_tokens().take(i as int),
            decreases n - i,
        {
            let p = &self.module_parameters[i];
            let mut t = p.0.0.clone();
            t.append(".");
            t.append(p.0.1.as_str());
            t.append("=");
            t.append(p.1.as_str());
            push_token(out, t);
            assert(self.module_tokens().take(i + 1) =~= self.module_tokens().take(i as int).push(
                t@,
            ));
            i = i + 1;
        }
        assert(self.module_tokens().take(n as int) =~= self.module_tokens());
    }

    /// The command-line tokens of this configuration, in the solver's order.
    pub fn to_commandline(self) -> (r: Vec<String>)
        ensures
            views(r@) == self.command_line(),
    {
        let mut result: Vec<String> = Vec::new();
        push_token(&mut result, self.format.token());
        assert(views(result@) =~= seq![self.format.flag()]);
        self.push_display(&mut result);
        self.push_limits(&mut result);
        self.push_globals(&mut result);
        self.push_modules(&mut result);
        let ghost before_others = views(result@);
        let mut others = self.others;
        result.append(&mut others);
        assert(views(result@) =~= before_others + views(self.others@));
        result
    }
}

/// The format comes first, as its documented flag and no other.
pub proof fn lemma_format_token(a: Argments)
    ensures
        a.command_line()[0] == a.format.flag(),
{
}

/// The display flags follow the format: each one set gives its flag once,
/// each one clear gives nothing.
pub proof fn lemma_display_flags(a: Argments)
    ensures
        ({
            let d = a.display.tokens();
            &&& a.command_line().subrange(1, 1 + d.len() as int) == d
            &&& d.len() == (if a.display.global_parameters { 1int } else { 0 }) + (if a.display.global_parameter_descriptions { 1int } else { 0 }) + (if a.display.statistics { 1int } else { 0 }) + (if a.display.warnings { 1int } else { 0 })
            &&& d.contains("-p"@) <==> a.display.global_parameters
            &&& d.contains("-pd"@) <==> a.display.global_parameter_descriptions
            &&& d.contains("-st"@) <==> a.display.statistics
            &&& d.contains("-nw"@) <==> a.display.warnings
        }),
{
    let d = a.display.tokens();
    assert(a.command_line().subrange(1, 1 + d.len() as int) =~= d);
    reveal_strlit("-p");
    reveal_strlit("-pd");
    reveal_strlit("-st");
    reveal_strlit("-nw");
    assert("-p"@.len() == 2 && "-pd"@.len() == 3 && "-st"@.len() == 3 && "-nw"@.len() == 3);
    assert("-pd"@[1] != "-st"@[1] && "-pd"@[1] != "-nw"@[1] && "-st"@[1] != "-nw"@[1]);
    if a.display.global_parameters {
        assert(d[0] == "-p"@);
    }
    if a.display.global_parameter_descriptions {
        let i = if a.display.global_parameters { 1int } else { 0 };
        assert(d[i] == "-pd"@);
    }
    if a.display.statistics {
        let i = (if a.display.global_parameters { 1int } else { 0 }) + (if a.display.global_parameter_descriptions { 1int } else { 0 });
        assert(d[i] == "-st"@);
    }
    if a.display.warnings {
        assert(d[d.len() - 1] == "-nw"@);
    }
}

/// The limits follow the display flags: each absent one gives no token, each
/// present one its flag and then its value, two tokens.
pub proof fn lemma_limits(a: Argments)
    ensures
        ({
            let k = 1 + a.display.tokens().len() as int;
            let l = a.limit.tokens();
            &&& a.command_line().subrange(k, k + l.len() as int) == l
            &&& l == flag_value("-T"@, a.limit.timeout) + flag_value("-t"@, a.limit.soft_timeout)
                + flag_value("-memory"@, a.limit.memory)
        }),
        forall|f: Seq<char>, v: Option<i32>|
            #![trigger flag_value(f, v)]
            (v is None ==> flag_value(f, v).len() == 0) && (v matches Some(x) ==> flag_value(f, v)
                == seq![f, decimal(x as int)]),
{
    let k = 1 + a.display.tokens().len() as int;
    let l = a.limit.tokens();
    assert(a.command_line().subrange(k, k + l.len() as int) =~= l);
}

} // verus!
