//! The argument scanner shared by the command grammars: long options with a
//! value, long flags, positionals, `--`, and help.
use vstd::prelude::*;

use crate::text::{cat2, chars_of, spec_split_once, spec_starts_with, split_once, starts_with, str_eq, string_of};

verus! {

/// Why the command line is not accepted, or that it asks for help or the version.
#[derive(Debug, Clone, PartialEq, Eq)]
pub enum ParseError {
    Help,
    Version,
    UnknownArgument(String),
    UnexpectedArgument(String),
    MissingValue(String),
    RepeatedArgument(String),
    FlagWithValue(String),
    UnknownSubcommand(String),
    MissingSubcommand,
    MissingRequired(String),
    Conflict { first: String, second: String },
}

pub enum ParseErrorView {
    Help,
    Version,
    UnknownArgument(Seq<char>),
    UnexpectedArgument(Seq<char>),
    MissingValue(Seq<char>),
    RepeatedArgument(Seq<char>),
    FlagWithValue(Seq<char>),
    UnknownSubcommand(Seq<char>),
    MissingSubcommand,
    MissingRequired(Seq<char>),
    Conflict { first: Seq<char>, second: Seq<char> },
}

impl View for ParseError {
    type V = ParseErrorView;

    open spec fn view(&self) -> ParseErrorView {
        match self {
            ParseError::Help => ParseErrorView::Help,
            ParseError::Version => ParseErrorView::Version,
            ParseError::UnknownArgument(a) => ParseErrorView::UnknownArgument(a@),
            ParseError::UnexpectedArgument(a) => ParseErrorView::UnexpectedArgument(a@),
            ParseError::MissingValue(a) => ParseErrorView::MissingValue(a@),
            ParseError::RepeatedArgument(a) => ParseErrorView::RepeatedArgument(a@),
            ParseError::FlagWithValue(a) => ParseErrorView::FlagWithValue(a@),
            ParseError::UnknownSubcommand(a) => ParseErrorView::UnknownSubcommand(a@),
            ParseError::MissingSubcommand => ParseErrorView::MissingSubcommand,
            ParseError::MissingRequired(a) => ParseErrorView::MissingRequired(a@),
            ParseError::Conflict { first, second } => ParseErrorView::Conflict { first: first@, second: second@ },
        }
    }
}

impl ParseError {
    pub open spec fn spec_message(self) -> Seq<char> {
        match self {
            ParseError::Help => "help was requested"@,
            ParseError::Version => "the version was requested"@,
            ParseError::UnknownArgument(a) => "unexpected argument '"@ + a@ + "' found"@,
            ParseError::UnexpectedArgument(a) => "unexpected argument '"@ + a@ + "' found"@,
            ParseError::MissingValue(a) => "a value is required for '"@ + a@ + "' but none was supplied"@,
            ParseError::RepeatedArgument(a) => "the argument '"@ + a@ + "' cannot be used multiple times"@,
            ParseError::FlagWithValue(a) => "the argument '"@ + a@ + "' does not take a value"@,
            ParseError::UnknownSubcommand(a) => "unrecognized subcommand '"@ + a@ + "'"@,
            ParseError::MissingSubcommand => "a subcommand is required"@,
            ParseError::MissingRequired(a) => "the following required argument was not provided: "@ + a@,
            ParseError::Conflict { first, second } => "the argument '"@ + first@ + "' cannot be used with '"@
                + second@ + "'"@,
        }
    }

    /// The message for the error, as the command line reports it.
    pub fn message(&self) -> (r: String)
        ensures
            r@ == self.spec_message(),
    {
        match self {
            ParseError::Help => "help was requested".to_string(),
            ParseError::Version => "the version was requested".to_string(),
            ParseError::UnknownArgument(a) => crate::text::cat3("unexpected argument '", a.as_str(), "' found"),
            ParseError::UnexpectedArgument(a) => crate::text::cat3("unexpected argument '", a.as_str(), "' found"),
            ParseError::MissingValue(a) => crate::text::cat3(
                "a value is required for '",
                a.as_str(),
                "' but none was supplied",
            ),
            ParseError::RepeatedArgument(a) => crate::text::cat3(
                "the argument '",
                a.as_str(),
                "' cannot be used multiple times",
            ),
            ParseError::FlagWithValue(a) => crate::text::cat3("the argument '", a.as_str(), "' does not take a value"),
            ParseError::UnknownSubcommand(a) => crate::text::cat3("unrecognized subcommand '", a.as_str(), "'"),
            ParseError::MissingSubcommand => "a subcommand is required".to_string(),
            ParseError::MissingRequired(a) => cat2("the following required argument was not provided: ", a.as_str()),
            ParseError::Conflict { first, second } => crate::text::cat5(
                "the argument '",
                first.as_str(),
                "' cannot be used with '",
                second.as_str(),
                "'",
            ),
        }
    }
}

/// What scanning found so far.
pub struct ScanState {
    pub positionals: Seq<Seq<char>>,
    pub values: Seq<Option<Seq<char>>>,
    pub flags: Seq<bool>,
    /// After `--`, every token is a positional.
    pub rest: bool,
    /// The option whose value the next token is.
    pub pending: Option<int>,
}

/// Nothing seen yet.
pub open spec fn initial_state(options: Seq<Seq<char>>, flags: Seq<Seq<char>>) -> ScanState {
    ScanState {
        positionals: seq![],
        values: Seq::new(options.len(), |i: int| None),
        flags: Seq::new(flags.len(), |i: int| false),
        rest: false,
        pending: None,
    }
}

/// The position of the first name equal to `name`.
pub open spec fn name_index(names: Seq<Seq<char>>, name: Seq<char>) -> Option<int> {
    if exists|i: int| 0 <= i < names.len() && names[i] == name {
        Some(choose|i: int| 0 <= i < names.len() && names[i] == name && forall|j: int| 0 <= j < i ==> names[j] != name)
    } else {
        None
    }
}

/// A token that stands for an option: a hyphen followed by something.
pub open spec fn looks_like_option(token: Seq<char>) -> bool {
    token.len() > 1 && token[0] == '-'
}

pub open spec fn spec_positional(s: ScanState, token: Seq<char>, max: nat) -> Result<ScanState, ParseErrorView> {
    if s.positionals.len() < max {
        Ok(ScanState { positionals: s.positionals.push(token), ..s })
    } else {
        Err(ParseErrorView::UnexpectedArgument(token))
    }
}

/// The name and inline value of a long option token `--name[=value]`.
pub open spec fn long_parts(token: Seq<char>) -> (Seq<char>, Option<Seq<char>>) {
    let body = token.subrange(2, token.len() as int);
    match spec_split_once(body, '=') {
        Some((name, value)) => (name, Some(value)),
        None => (body, None),
    }
}

/// A long option token `--name[=value]`.
pub open spec fn spec_long(options: Seq<Seq<char>>, flags: Seq<Seq<char>>, s: ScanState, token: Seq<char>) -> Result<
    ScanState,
    ParseErrorView,
> {
    let (name, value) = long_parts(token);
    match name_index(options, name) {
        Some(k) => if s.values[k] is Some {
            Err(ParseErrorView::RepeatedArgument("--"@ + name))
        } else {
            match value {
                Some(v) => Ok(ScanState { values: s.values.update(k, Some(v)), ..s }),
                None => Ok(ScanState { pending: Some(k), ..s }),
            }
        },
        None => match name_index(flags, name) {
            Some(k) => if value is Some {
                Err(ParseErrorView::FlagWithValue("--"@ + name))
            } else if s.flags[k] {
                Err(ParseErrorView::RepeatedArgument("--"@ + name))
            } else {
                Ok(ScanState { flags: s.flags.update(k, true), ..s })
            },
            None => Err(ParseErrorView::UnknownArgument(token)),
        },
    }
}

/// One token of a command's arguments, given its options with a value, its
/// flags, and how many positionals it takes.
pub open spec fn spec_token(
    options: Seq<Seq<char>>,
    flags: Seq<Seq<char>>,
    max: nat,
    s: ScanState,
    token: Seq<char>,
) -> Result<ScanState, ParseErrorView> {
    match s.pending {
        Some(k) => if looks_like_option(token) {
            Err(ParseErrorView::MissingValue("--"@ + options[k]))
        } else {
            Ok(ScanState { values: s.values.update(k, Some(token)), pending: None, ..s })
        },
        None => if s.rest {
            spec_positional(s, token, max)
        } else if token == "--"@ {
            Ok(ScanState { rest: true, ..s })
        } else if token == "--help"@ || token == "-h"@ {
            Err(ParseErrorView::Help)
        } else if spec_starts_with(token, "--"@) {
            spec_long(options, flags, s, token)
        } else if looks_like_option(token) {
            Err(ParseErrorView::UnknownArgument(token))
        } else {
            spec_positional(s, token, max)
        },
    }
}

/// Scan the remaining tokens; an option still waiting for its value at the end is an error.
pub open spec fn spec_scan_from(
    options: Seq<Seq<char>>,
    flags: Seq<Seq<char>>,
    max: nat,
    s: ScanState,
    tokens: Seq<Seq<char>>,
) -> Result<ScanState, ParseErrorView>
    decreases tokens.len(),
{
    if tokens.len() == 0 {
        match s.pending {
            Some(k) => Err(ParseErrorView::MissingValue("--"@ + options[k])),
            None => Ok(s),
        }
    } else {
        match spec_token(options, flags, max, s, tokens[0]) {
            Err(e) => Err(e),
            Ok(n) => spec_scan_from(options, flags, max, n, tokens.drop_first()),
        }
    }
}

/// Scan a command's tokens from the start.
pub open spec fn spec_scan(
    options: Seq<Seq<char>>,
    flags: Seq<Seq<char>>,
    max: nat,
    tokens: Seq<Seq<char>>,
) -> Result<ScanState, ParseErrorView> {
    spec_scan_from(options, flags, max, initial_state(options, flags), tokens)
}

/// What scanning a command's tokens found.
pub struct Scanned {
    pub positionals: Vec<String>,
    pub values: Vec<Option<String>>,
    pub flags: Vec<bool>,
}

pub open spec fn opt_views(v: Seq<Option<String>>) -> Seq<Option<Seq<char>>> {
    v.map_values(|o: Option<String>| match o {
        Some(s) => Some(s@),
        None => None,
    })
}

/// `scanned` holds what `s` found.
pub open spec fn scanned_is(scanned: Scanned, s: ScanState) -> bool {
    &&& crate::git::views(scanned.positionals@) == s.positionals
    &&& opt_views(scanned.values@) == s.values
    &&& scanned.flags@ == s.flags
}

struct Cursor {
    positionals: Vec<String>,
    values: Vec<Option<String>>,
    flags: Vec<bool>,
    rest: bool,
    pending: Option<usize>,
}

spec fn cursor_view(c: Cursor) -> ScanState {
    ScanState {
        positionals: crate::git::views(c.positionals@),
        values: opt_views(c.values@),
        flags: c.flags@,
        rest: c.rest,
        pending: match c.pending {
            Some(k) => Some(k as int),
            None => None,
        },
    }
}

fn index_of(names: &[&str], name: &Vec<char>) -> (r: Option<usize>)
    ensures
        r matches Some(i) ==> name_index(names@.map_values(|n: &str| n@), name@) == Some(i as int) && i < names@.len(),
        r is None ==> name_index(names@.map_values(|n: &str| n@), name@) is None,
{
    let ghost ns = names@.map_values(|n: &str| n@);
    let mut i: usize = 0;
    while i < names.len()
        invariant
            i <= names.len(),
            ns == names@.map_values(|n: &str| n@),
            forall|j: int| 0 <= j < i ==> ns[j] != name@,
        decreases names.len() - i,
    {
        if crate::text::eq(&chars_of(names[i]), name) {
            assert(ns[i as int] == name@);
            assert(name_index(ns, name@) == Some(i as int)) by {
                let k = choose|k: int| 0 <= k < ns.len() && ns[k] == name@ && forall|j: int| 0 <= j < k ==> ns[j] != name@;
                assert(k == i);
            }
            return Some(i);
        }
        i = i + 1;
    }
    None
}

fn looks_like_option_exec(token: &Vec<char>) -> (r: bool)
    ensures
        r == looks_like_option(token@),
{
    token.len() > 1 && token[0] == '-'
}

#[verifier::spinoff_prover]
#[verifier::rlimit(60)]
fn take_long(c: &mut Cursor, token: &Vec<char>, options: &[&str], flags: &[&str]) -> (r: Result<(), ParseError>)
    requires
        old(c).values@.len() == options@.len(),
        old(c).flags@.len() == flags@.len(),
        old(c).pending is None,
        spec_starts_with(token@, "--"@),
    ensures
        final(c).values@.len() == options@.len(),
        final(c).flags@.len() == flags@.len(),
        final(c).pending matches Some(p) ==> p < options@.len(),
        match r {
            Ok(()) => spec_long(
                options@.map_values(|n: &str| n@),
                flags@.map_values(|n: &str| n@),
                cursor_view(*old(c)),
                token@,
            ) == Ok::<ScanState, ParseErrorView>(cursor_view(*final(c))),
            Err(e) => spec_long(
                options@.map_values(|n: &str| n@),
                flags@.map_values(|n: &str| n@),
                cursor_view(*old(c)),
                token@,
            ) == Err::<ScanState, ParseErrorView>(e@),
        },
{
    proof {
        reveal_strlit("--");
    }
                let body = crate::text::subvec(token, 2, token.len());
                let (name, value) = match split_once(&body, '=') {
                    Some((n, v)) => (n, Some(v)),
                    None => (body, None),
                };
                assert(name@ == long_parts(token@).0);
                match index_of(options, &name) {
                    Some(o) => {
                        if c.values[o].is_some() {
                            return Err(ParseError::RepeatedArgument(cat2("--", string_of(&name).as_str())));
                        }
                        match value {
                            Some(v) => {
                                let ghost old_values = c.values@;
                                c.values.set(o, Some(string_of(&v)));
                                assert(opt_views(c.values@) =~= opt_views(old_values).update(o as int, Some(v@)));
                            },
                            None => {
                                c.pending = Some(o);
                            },
                        }
                        Ok(())
                    },
                    None => match index_of(flags, &name) {
                        Some(f) => {
                            if value.is_some() {
                                return Err(ParseError::FlagWithValue(cat2("--", string_of(&name).as_str())));
                            }
                            if c.flags[f] {
                                return Err(ParseError::RepeatedArgument(cat2("--", string_of(&name).as_str())));
                            }
                            c.flags.set(f, true);
                            Ok(())
                        },
                        None => Err(ParseError::UnknownArgument(string_of(token))),
                    },
                }
}

fn push_positional(c: &mut Cursor, token: &Vec<char>, max: usize) -> (r: Result<(), ParseError>)
    ensures
        match r {
            Ok(()) => spec_positional(cursor_view(*old(c)), token@, max as nat) == Ok::<ScanState, ParseErrorView>(
                cursor_view(*final(c)),
            ),
            Err(e) => spec_positional(cursor_view(*old(c)), token@, max as nat) == Err::<ScanState, ParseErrorView>(
                e@,
            ),
        },
        final(c).values == old(c).values,
        final(c).flags == old(c).flags,
        final(c).pending == old(c).pending,
{
    if c.positionals.len() < max {
        let ghost old_pos = c.positionals@;
        let s = string_of(token);
        proof {
            crate::git::lemma_views_push(c.positionals@, s);
        }
        c.positionals.push(s);
        assert(crate::git::views(c.positionals@) =~= crate::git::views(old_pos).push(token@));
        Ok(())
    } else {
        Err(ParseError::UnexpectedArgument(string_of(token)))
    }
}

/// Take one token.
#[verifier::spinoff_prover]
fn advance(c: &mut Cursor, token: &Vec<char>, options: &[&str], flags: &[&str], max: usize) -> (r: Result<
    (),
    ParseError,
>)
    requires
        old(c).values@.len() == options@.len(),
        old(c).flags@.len() == flags@.len(),
        old(c).pending matches Some(p) ==> p < options@.len(),
    ensures
        final(c).values@.len() == options@.len(),
        final(c).flags@.len() == flags@.len(),
        final(c).pending matches Some(p) ==> p < options@.len(),
        match r {
            Ok(()) => spec_token(
                options@.map_values(|n: &str| n@),
                flags@.map_values(|n: &str| n@),
                max as nat,
                cursor_view(*old(c)),
                token@,
            ) == Ok::<ScanState, ParseErrorView>(cursor_view(*final(c))),
            Err(e) => spec_token(
                options@.map_values(|n: &str| n@),
                flags@.map_values(|n: &str| n@),
                max as nat,
                cursor_view(*old(c)),
                token@,
            ) == Err::<ScanState, ParseErrorView>(e@),
        },
{
    proof {
        reveal_strlit("--");
    }
    match c.pending {
        Some(p) => {
            if looks_like_option_exec(token) {
                let name = cat2("--", options[p]);
                return Err(ParseError::MissingValue(name));
            }
            let ghost old_values = c.values@;
            c.values.set(p, Some(string_of(token)));
            c.pending = None;
            assert(opt_views(c.values@) =~= opt_views(old_values).update(p as int, Some(token@)));
            Ok(())
        },
        None => {
            if c.rest {
                push_positional(c, token, max)
            } else if crate::text::eq(token, &chars_of("--")) {
                c.rest = true;
                Ok(())
            } else if crate::text::eq(token, &chars_of("--help")) || crate::text::eq(token, &chars_of("-h")) {
                Err(ParseError::Help)
            } else if starts_with(token, &chars_of("--")) {
                take_long(c, token, options, flags)
            } else if looks_like_option_exec(token) {
                Err(ParseError::UnknownArgument(string_of(token)))
            } else {
                push_positional(c, token, max)
            }
        },
    }
}

/// Scan `tokens` for a command with these options, flags and positional count.
pub fn scan(tokens: &[&str], options: &[&str], flags: &[&str], max: usize) -> (r: Result<Scanned, ParseError>)
    ensures
        match r {
            Ok(s) => spec_scan(
                options@.map_values(|n: &str| n@),
                flags@.map_values(|n: &str| n@),
                max as nat,
                tokens@.map_values(|t: &str| t@),
            ) matches Ok(state) && scanned_is(s, state) && state.pending is None,
            Err(e) => spec_scan(
                options@.map_values(|n: &str| n@),
                flags@.map_values(|n: &str| n@),
                max as nat,
                tokens@.map_values(|t: &str| t@),
            ) == Err::<ScanState, ParseErrorView>(e@),
        },
        r matches Ok(s) ==> s.values@.len() == options@.len() && s.flags@.len() == flags@.len(),
{
    let ghost os = options@.map_values(|n: &str| n@);
    let ghost fs = flags@.map_values(|n: &str| n@);
    let ghost ts = tokens@.map_values(|t: &str| t@);
    let mut values: Vec<Option<String>> = Vec::new();
    let mut k: usize = 0;
    while k < options.len()
        invariant
            k <= options.len(),
            values@.len() == k,
            forall|j: int| 0 <= j < k ==> values@[j] is None,
        decreases options.len() - k,
    {
        values.push(None);
        k = k + 1;
    }
    let mut seen: Vec<bool> = Vec::new();
    k = 0;
    while k < flags.len()
        invariant
            k <= flags.len(),
            seen@.len() == k,
            forall|j: int| 0 <= j < k ==> !seen@[j],
        decreases flags.len() - k,
    {
        seen.push(false);
        k = k + 1;
    }
    let mut c = Cursor { positionals: Vec::new(), values, flags: seen, rest: false, pending: None };
    assert(cursor_view(c).positionals =~= seq![]);
    assert(cursor_view(c).values =~= initial_state(os, fs).values);
    assert(cursor_view(c).flags =~= initial_state(os, fs).flags);
    let ghost goal = spec_scan(os, fs, max as nat, ts);
    assert(ts.subrange(0, ts.len() as int) =~= ts);
    let mut i: usize = 0;
    while i < tokens.len()
        invariant
            i <= tokens.len(),
            os == options@.map_values(|n: &str| n@),
            fs == flags@.map_values(|n: &str| n@),
            ts == tokens@.map_values(|t: &str| t@),
            c.values@.len() == os.len(),
            c.flags@.len() == fs.len(),
            c.pending matches Some(p) ==> p < os.len(),
            goal == spec_scan(os, fs, max as nat, ts),
            goal == spec_scan_from(os, fs, max as nat, cursor_view(c), ts.subrange(i as int, ts.len() as int)),
        decreases tokens.len() - i,
    {
        let ghost rest_tokens = ts.subrange(i as int, ts.len() as int);
        assert(rest_tokens[0] == ts[i as int]);
        assert(rest_tokens.drop_first() =~= ts.subrange(i + 1, ts.len() as int));
        let token = chars_of(tokens[i]);
        assert(token@ == ts[i as int]);
        match advance(&mut c, &token, options, flags, max) {
            Ok(()) => {},
            Err(e) => {
                return Err(e);
            },
        }
        i = i + 1;
    }
    if let Some(p) = c.pending {
        return Err(ParseError::MissingValue(cat2("--", options[p])));
    }
    Ok(Scanned { positionals: c.positionals, values: c.values, flags: c.flags })
}

/// The positional at `i`, if there is one.
pub open spec fn spec_item(s: ScanState, i: int) -> Option<Seq<char>> {
    if 0 <= i < s.positionals.len() {
        Some(s.positionals[i])
    } else {
        None
    }
}

pub open spec fn opt_view(o: Option<String>) -> Option<Seq<char>> {
    match o {
        Some(s) => Some(s@),
        None => None,
    }
}

/// The positional at `i`, if there is one.
pub fn item(s: &Scanned, i: usize) -> (r: Option<String>)
    ensures
        opt_view(r) == (if i < s.positionals@.len() { Some(s.positionals@[i as int]@) } else { None }),
{
    if i < s.positionals.len() {
        Some(s.positionals[i].clone())
    } else {
        None
    }
}

/// The value given for option `k`.
pub fn value(s: &Scanned, k: usize) -> (r: Option<String>)
    requires
        k < s.values@.len(),
    ensures
        opt_view(r) == opt_views(s.values@)[k as int],
{
    match &s.values[k] {
        Some(v) => Some(v.clone()),
        None => None,
    }
}

/// The arguments of a command that names a tool: an optional name and `--catalog`.
pub open spec fn spec_tool_target(tokens: Seq<Seq<char>>) -> Result<(Option<Seq<char>>, Option<Seq<char>>), ParseErrorView> {
    match spec_scan(seq!["catalog"@], seq![], 1, tokens) {
        Ok(s) => Ok((spec_item(s, 0), s.values[0])),
        Err(e) => Err(e),
    }
}

/// Parse the arguments of a command that names a tool.
pub fn tool_target(tokens: &[&str]) -> (r: Result<(Option<String>, Option<String>), ParseError>)
    ensures
        match r {
            Ok((name, catalog)) => spec_tool_target(tokens@.map_values(|t: &str| t@)) == Ok::<
                (Option<Seq<char>>, Option<Seq<char>>),
                ParseErrorView,
            >((opt_view(name), opt_view(catalog))),
            Err(e) => spec_tool_target(tokens@.map_values(|t: &str| t@)) == Err::<
                (Option<Seq<char>>, Option<Seq<char>>),
                ParseErrorView,
            >(e@),
        },
{
    let options = ["catalog"];
    let flags: [&str; 0] = [];
    assert(options@.map_values(|n: &str| n@) =~= seq!["catalog"@]);
    assert(flags@.map_values(|n: &str| n@) =~= seq![]);
    match scan(tokens, &options, &flags, 1) {
        Ok(s) => {
            let name = item(&s, 0);
            let catalog = value(&s, 0);
            Ok((name, catalog))
        },
        Err(e) => Err(e),
    }
}

/// The arguments of a command that takes at most `max` positionals and nothing else.
pub open spec fn spec_positionals(tokens: Seq<Seq<char>>, max: nat) -> Result<Seq<Seq<char>>, ParseErrorView> {
    match spec_scan(seq![], seq![], max, tokens) {
        Ok(s) => Ok(s.positionals),
        Err(e) => Err(e),
    }
}

/// Parse the arguments of a command that takes at most `max` positionals.
pub fn positionals(tokens: &[&str], max: usize) -> (r: Result<Vec<String>, ParseError>)
    ensures
        match r {
            Ok(v) => spec_positionals(tokens@.map_values(|t: &str| t@), max as nat) == Ok::<
                Seq<Seq<char>>,
                ParseErrorView,
            >(crate::git::views(v@)),
            Err(e) => spec_positionals(tokens@.map_values(|t: &str| t@), max as nat) == Err::<
                Seq<Seq<char>>,
                ParseErrorView,
            >(e@),
        },
{
    let none: [&str; 0] = [];
    assert(none@.map_values(|n: &str| n@) =~= seq![]);
    match scan(tokens, &none, &none, max) {
        Ok(s) => Ok(s.positionals),
        Err(e) => Err(e),
    }
}

/// `tokens` without its first `n`.
pub fn skip<'a>(tokens: &'a [&'a str], n: usize) -> (r: &'a [&'a str])
    requires
        n <= tokens@.len(),
    ensures
        r@ == tokens@.subrange(n as int, tokens@.len() as int),
{
    tokens.split_at(n).1
}

pub fn is_word(token: &str, word: &str) -> (r: bool)
    ensures
        r == (token@ == word@),
{
    str_eq(token, word)
}

pub fn is_help(token: &str) -> (r: bool)
    ensures
        r == (token@ == "help"@ || token@ == "--help"@ || token@ == "-h"@),
{
    is_word(token, "help") || is_word(token, "--help") || is_word(token, "-h")
}

pub fn is_option_like(token: &str) -> (r: bool)
    ensures
        r == looks_like_option(token@),
{
    let t = crate::text::chars_of(token);
    t.len() > 1 && t[0] == '-'
}

pub fn item_of(p: &Vec<String>, i: usize) -> (r: Option<String>)
    ensures
        opt_view(r) == (if i < p@.len() { Some(crate::git::views(p@)[i as int]) } else { None::<Seq<char>> }),
{
    if i < p.len() {
        Some(p[i].clone())
    } else {
        None
    }
}

pub fn all_strings(tokens: &[&str]) -> (r: Vec<String>)
    ensures
        crate::git::views(r@) == tokens@.map_values(|t: &str| t@),
{
    let mut r: Vec<String> = Vec::new();
    let mut i: usize = 0;
    while i < tokens.len()
        invariant
            i <= tokens.len(),
            crate::git::views(r@) == tokens@.map_values(|t: &str| t@).subrange(0, i as int),
        decreases tokens.len() - i,
    {
        let s = tokens[i].to_string();
        proof {
            crate::git::lemma_views_push(r@, s);
        }
        r.push(s);
        assert(tokens@.map_values(|t: &str| t@).subrange(0, i + 1) =~= tokens@.map_values(|t: &str| t@).subrange(
            0,
            i as int,
        ).push(tokens@[i as int]@));
        i = i + 1;
    }
    assert(tokens@.map_values(|t: &str| t@).subrange(0, tokens.len() as int) =~= tokens@.map_values(|t: &str| t@));
    r
}

} // verus!
