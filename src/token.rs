//! Building blocks of command-line tokens: decimal numbers, flags with a
//! polarity, and double-quoted passthrough values.
use vstd::prelude::*;
use vstd::string::*;

verus! {

/// The views of a sequence of owned strings.
pub open spec fn views(v: Seq<String>) -> Seq<Seq<char>> {
    v.map_values(|s: String| s@)
}

/// One decimal digit, `0 <= d < 10`.
pub open spec fn digit(d: nat) -> char {
    if d == 0 { '0' }
    else if d == 1 { '1' }
    else if d == 2 { '2' }
    else if d == 3 { '3' }
    else if d == 4 { '4' }
    else if d == 5 { '5' }
    else if d == 6 { '6' }
    else if d == 7 { '7' }
    else if d == 8 { '8' }
    else { '9' }
}

/// The decimal digits of a natural number, most significant first, without
/// leading zeros.
pub open spec fn digits(n: nat) -> Seq<char>
    decreases n,
{
    if n < 10 {
        seq![digit(n)]
    } else {
        digits(n / 10) + seq![digit(n % 10)]
    }
}

/// The decimal spelling of an integer: a minus sign before the digits of a
/// negative one.
pub open spec fn decimal(n: int) -> Seq<char> {
    if n < 0 {
        seq!['-'] + digits((-n) as nat)
    } else {
        digits(n as nat)
    }
}

/// Relies on `i32::to_string` (std's `Display` for integers): the number in
/// decimal, with a leading `-` when negative.
#[verifier::external_body]
pub fn decimal_string(n: i32) -> (r: String)
    ensures
        r@ == decimal(n as int),
{
    n.to_string()
}

/// `--name` when `on`, `--no-name` otherwise.
pub open spec fn polarity(name: Seq<char>, on: bool) -> Seq<char> {
    if on {
        "--"@ + name
    } else {
        "--no-"@ + name
    }
}

/// A token of its own in `--name=value` form.
pub open spec fn assignment(name: Seq<char>, value: Seq<char>) -> Seq<char> {
    "--"@ + name + "="@ + value
}

/// The token of an optional integer setting: none when absent, `--name=v`
/// when present with `v`.
pub open spec fn optional(name: Seq<char>, value: Option<i32>) -> Seq<Seq<char>> {
    match value {
        Some(v) => seq![assignment(name, decimal(v as int))],
        None => Seq::empty(),
    }
}

/// An absent setting gives no token; one present with `v` gives exactly
/// one, `--name=v`.
pub proof fn lemma_optional(name: Seq<char>, value: Option<i32>)
    ensures
        value is None ==> optional(name, value).len() == 0,
        value matches Some(v) ==> optional(name, value) == seq![
            "--"@ + name + "="@ + decimal(v as int),
        ],
{
}

/// Appends one token.
pub fn push_token(out: &mut Vec<String>, t: String)
    ensures
        views(final(out)@) == views(old(out)@).push(t@),
{
    out.push(t);
    assert(views(out@) =~= views(old(out)@).push(t@));
}

/// Appends `--name` or `--no-name`, as `on` says.
pub fn push_polarity(out: &mut Vec<String>, name: &str, on: bool)
    ensures
        views(final(out)@) == views(old(out)@).push(polarity(name@, on)),
{
    let mut t = if on {
        String::from_str("--")
    } else {
        String::from_str("--no-")
    };
    t.append(name);
    proof {
        reveal_strlit("--");
        reveal_strlit("--no-");
    }
    push_token(out, t);
}

/// The token `--name=value`.
pub fn assignment_token(name: &str, value: &str) -> (r: String)
    ensures
        r@ == assignment(name@, value@),
{
    let mut t = String::from_str("--");
    t.append(name);
    t.append("=");
    t.append(value);
    proof {
        reveal_strlit("--");
        reveal_strlit("=");
    }
    t
}

/// Appends the token of an optional integer setting.
pub fn push_optional(out: &mut Vec<String>, name: &str, value: Option<i32>)
    ensures
        views(final(out)@) == views(old(out)@) + optional(name@, value),
{
    match value {
        Some(v) => {
            let d = decimal_string(v);
            let t = assignment_token(name, d.as_str());
            push_token(out, t);
            assert(views(out@) =~= views(old(out)@) + optional(name@, value));
        },
        None => {
            assert(views(out@) =~= views(old(out)@) + optional(name@, value));
        },
    }
}

/// How many tokens of `s` equal `t`.
pub open spec fn occurrences(s: Seq<Seq<char>>, t: Seq<char>) -> nat
    decreases s.len(),
{
    if s.len() == 0 {
        0
    } else {
        occurrences(s.drop_last(), t) + if s.last() == t {
            1nat
        } else {
            0nat
        }
    }
}

pub proof fn lemma_occurrences_add(a: Seq<Seq<char>>, b: Seq<Seq<char>>, t: Seq<char>)
    ensures
        occurrences(a + b, t) == occurrences(a, t) + occurrences(b, t),
    decreases b.len(),
{
    if b.len() == 0 {
        assert(a + b =~= a);
    } else {
        assert((a + b).drop_last() =~= a + b.drop_last());
        lemma_occurrences_add(a, b.drop_last(), t);
    }
}

pub proof fn lemma_occurrences_none(s: Seq<Seq<char>>, t: Seq<char>)
    requires
        forall|i: int| 0 <= i < s.len() ==> s[i] != t,
    ensures
        occurrences(s, t) == 0,
    decreases s.len(),
{
    if s.len() > 0 {
        lemma_occurrences_none(s.drop_last(), t);
    }
}

pub proof fn lemma_occurrences_all(s: Seq<Seq<char>>, t: Seq<char>)
    requires
        forall|i: int| 0 <= i < s.len() ==> s[i] == t,
    ensures
        occurrences(s, t) == s.len(),
    decreases s.len(),
{
    if s.len() > 0 {
        lemma_occurrences_all(s.drop_last(), t);
    }
}

pub proof fn lemma_occurrences_single(s: Seq<Seq<char>>, t: Seq<char>, i: int)
    requires
        0 <= i < s.len(),
        s[i] == t,
        forall|j: int| 0 <= j < s.len() && j != i ==> s[j] != t,
    ensures
        occurrences(s, t) == 1,
    decreases s.len(),
{
    if i == s.len() - 1 {
        lemma_occurrences_none(s.drop_last(), t);
    } else {
        lemma_occurrences_single(s.drop_last(), t, i);
    }
}

/// What one character becomes inside a quoted token.
pub open spec fn escape_char(c: char) -> Seq<char> {
    if c == '"' {
        seq!['\\', '"']
    } else {
        seq![c]
    }
}

/// Every double quote of `s` prefixed by a backslash.
pub open spec fn escape_body(s: Seq<char>) -> Seq<char>
    decreases s.len(),
{
    if s.len() == 0 {
        Seq::empty()
    } else {
        escape_body(s.drop_last()) + escape_char(s.last())
    }
}

/// A free-form value as one double-quoted token.
pub open spec fn quoted(s: Seq<char>) -> Seq<char> {
    seq!['"'] + escape_body(s) + seq!['"']
}

/// Reads the inside of a double-quoted argument the way a shell does: a
/// backslash before `"` or `\` stands for that character, any other backslash
/// stands for itself, and a bare `"` would end the argument early.
pub open spec fn unescape_body(t: Seq<char>) -> Option<Seq<char>>
    decreases t.len(),
{
    if t.len() == 0 {
        Some(Seq::empty())
    } else if t[0] == '\\' && t.len() >= 2 && (t[1] == '"' || t[1] == '\\') {
        match unescape_body(t.skip(2)) {
            Some(r) => Some(seq![t[1]] + r),
            None => None,
        }
    } else if t[0] == '"' {
        None
    } else {
        match unescape_body(t.skip(1)) {
            Some(r) => Some(seq![t[0]] + r),
            None => None,
        }
    }
}

/// The value that a shell reads from one double-quoted argument, if the
/// argument is a single well-formed quoted string.
pub open spec fn unquote(t: Seq<char>) -> Option<Seq<char>> {
    if t.len() >= 2 && t[0] == '"' && t.last() == '"' {
        unescape_body(t.subrange(1, t.len() - 1))
    } else {
        None
    }
}

proof fn lemma_escape_body_cons(c: char, s: Seq<char>)
    ensures
        escape_body(seq![c] + s) == escape_char(c) + escape_body(s),
    decreases s.len(),
{
    let cs = seq![c] + s;
    if s.len() == 0 {
        assert(cs.drop_last() =~= Seq::<char>::empty());
        assert(escape_body(Seq::<char>::empty()) == Seq::<char>::empty());
        assert(escape_char(c) + Seq::<char>::empty() =~= escape_char(c));
        assert(Seq::<char>::empty() + escape_char(c) =~= escape_char(c));
    } else {
        assert(cs.drop_last() =~= seq![c] + s.drop_last());
        assert(cs.last() == s.last());
        lemma_escape_body_cons(c, s.drop_last());
        assert(escape_body(s) == escape_body(s.drop_last()) + escape_char(s.last()));
        assert(escape_body(cs) =~= escape_char(c) + escape_body(s));
    }
}

proof fn lemma_unescape_escape(s: Seq<char>)
    requires
        !s.contains('\\'),
    ensures
        unescape_body(escape_body(s)) == Some(s),
    decreases s.len(),
{
    if s.len() == 0 {
        assert(escape_body(s) == Seq::<char>::empty());
    } else {
        let c = s[0];
        let rest = s.skip(1);
        assert(s =~= seq![c] + rest);
        lemma_escape_body_cons(c, rest);
        assert(!rest.contains('\\')) by {
            if rest.contains('\\') {
                let k = choose|k: int| 0 <= k < rest.len() && rest[k] == '\\';
                assert(s[k + 1] == '\\');
            }
        }
        lemma_unescape_escape(rest);
        let t = escape_body(s);
        assert(c != '\\') by {
            assert(s[0] == c);
        }
        if c == '"' {
            assert(t =~= seq!['\\', '"'] + escape_body(rest));
            assert(t.skip(2) =~= escape_body(rest));
        } else {
            assert(t =~= seq![c] + escape_body(rest));
            assert(t.skip(1) =~= escape_body(rest));
        }
        assert(seq![c] + rest =~= s);
    }
}

/// Quoting a value that holds no backslash can be undone: a shell reading
/// the quoted token gets back exactly the original value, whatever double
/// quotes it holds.
pub proof fn lemma_quote_round_trip(s: Seq<char>)
    requires
        !s.contains('\\'),
    ensures
        unquote(quoted(s)) == Some(s),
{
    let t = quoted(s);
    lemma_unescape_escape(s);
    assert(t.subrange(1, t.len() - 1) =~= escape_body(s));
}

/// The value wrapped in double quotes, each double quote inside it escaped
/// with a backslash.
pub fn quote(s: &str) -> (r: String)
    ensures
        r@ == quoted(s@),
{
    let n = s.unicode_len();
    let mut out = String::from_str("\"");
    let mut i: usize = 0;
    proof {
        reveal_strlit("\"");
        assert(s@.take(0) =~= Seq::<char>::empty());
        assert(out@ =~= seq!['"'] + escape_body(s@.take(0)));
    }
    while i < n
        invariant
            n == s@.len(),
            i <= n,
            out@ == seq!['"'] + escape_body(s@.take(i as int)),
        decreases n - i,
    {
        let c = s.get_char(i);
        proof {
            assert(s@.take(i + 1).drop_last() =~= s@.take(i as int));
            assert(s@.take(i + 1).last() == c);
        }
        if c == '"' {
            out.append("\\\"");
            proof { reveal_strlit("\\\""); }
        } else {
            out.append(s.substring_char(i, i + 1));
            assert(s@.subrange(i as int, i + 1) =~= seq![c]);
        }
        assert(out@ =~= seq!['"'] + escape_body(s@.take(i + 1)));
        i = i + 1;
    }
    assert(s@.take(n as int) =~= s@);
    out.append("\"");
    proof { reveal_strlit("\""); }
    assert(out@ =~= quoted(s@));
    out
}

} // verus!
