//! The command line of the `introspect` client: global options, then a
//! subcommand with its own options and arguments.
//!
//! Grammar. The first token is the program name and is skipped. Global
//! options (`--url`/`-u`, `--token`/`-t`, each with a value) come first; the
//! first other token names the subcommand. After it come that subcommand's
//! options and its positional argument, in any order. An option with a value
//! takes it as `--name value`, `--name=value`, `-c value`, `-cvalue` or
//! `-c=value`; the value given as a separate token must not itself look like
//! an option. A token of the form `-x...` or `--...` that names no option of
//! the place where it stands is refused, as is an option given twice. After
//! `--` every token of a subcommand is positional. `--help` and `-h` ask for
//! the usage text.

use vstd::prelude::*;
use crate::text::{chars_of, chars_eq, string_of, slice_chars, concat_chars};
use crate::urls::pieces_view;

verus! {

/// What the client is asked to do.
#[derive(Debug, Clone, PartialEq, Eq)]
pub enum IntrospectCommand {
    /// List all open windows.
    ListWindows,
    /// List all tabs in the active window.
    ListTabs,
    /// Get a full automation snapshot of the running instance.
    Snapshot,
    /// Get the DOM of the active tab.
    GetDom { selector: String },
    /// Take a screenshot of the active tab.
    Screenshot { output: String },
    /// Stream live browser logs.
    Logs { follow: bool },
    /// Evaluate JavaScript in the active tab.
    EvaluateJs { script: String },
    /// Request the running instance to shut down.
    Shutdown,
    /// Create a new profile.
    ProfileCreate { id: String },
    /// Switch to a profile.
    ProfileSwitch { id: String },
    /// Export a profile bundle.
    ProfileExport { id: String, output: String, include_cache_blobs: bool },
    /// Import a profile bundle.
    ProfileImport { id: String, input: String, overwrite: bool },
}

/// The parsed command line.
#[derive(Debug, Clone, PartialEq, Eq)]
pub struct IntrospectArgs {
    pub command: IntrospectCommand,
    /// Override of the automation server URL.
    pub url: Option<String>,
    /// Authentication token.
    pub token: Option<String>,
}

/// Why a command line was refused.
#[derive(Debug, Clone, PartialEq, Eq)]
pub enum IntrospectParseError {
    /// A token that is not expected where it stands.
    UnexpectedArgument(String),
    /// An option (named with its long form) given without its value.
    MissingValue(String),
    /// An option (named with its long form) given twice.
    Repeated(String),
    /// No subcommand.
    MissingCommand,
    /// A subcommand that does not exist.
    UnknownCommand(String),
    /// A required argument or option that is missing.
    MissingArgument(String),
    /// The usage text was asked for.
    HelpRequested,
}

/// A subcommand as plain values.
pub enum CommandView {
    ListWindows,
    ListTabs,
    Snapshot,
    GetDom(Seq<char>),
    Screenshot(Seq<char>),
    Logs(bool),
    EvaluateJs(Seq<char>),
    Shutdown,
    ProfileCreate(Seq<char>),
    ProfileSwitch(Seq<char>),
    ProfileExport(Seq<char>, Seq<char>, bool),
    ProfileImport(Seq<char>, Seq<char>, bool),
}

/// A refusal as plain values.
pub enum ParseErrorView {
    UnexpectedArgument(Seq<char>),
    MissingValue(Seq<char>),
    Repeated(Seq<char>),
    MissingCommand,
    UnknownCommand(Seq<char>),
    MissingArgument(Seq<char>),
    HelpRequested,
}

/// A parsed command line as plain values: (command, url, token).
pub type ArgsView = (CommandView, Option<Seq<char>>, Option<Seq<char>>);

/// Where the global options are read: the options table of the top level.
pub const TOP_LEVEL: u8 = 12;

/// The number of the subcommand with the given name, or -1.
pub open spec fn command_index(name: Seq<char>) -> int {
    if name == "list-windows"@ { 0 }
    else if name == "list-tabs"@ { 1 }
    else if name == "snapshot"@ { 2 }
    else if name == "get-dom"@ { 3 }
    else if name == "screenshot"@ { 4 }
    else if name == "logs"@ { 5 }
    else if name == "evaluate-js"@ { 6 }
    else if name == "shutdown"@ { 7 }
    else if name == "profile-create"@ { 8 }
    else if name == "profile-switch"@ { 9 }
    else if name == "profile-export"@ { 10 }
    else if name == "profile-import"@ { 11 }
    else { -1 }
}

/// The slot (0 or 1) of the option with the given long name at `place`
/// (a subcommand number, or the top level), or -1.
pub open spec fn long_option(place: int, name: Seq<char>) -> int {
    if place == TOP_LEVEL {
        if name == "url"@ { 0 } else if name == "token"@ { 1 } else { -1 }
    } else if place == 3 {
        if name == "selector"@ { 0 } else { -1 }
    } else if place == 4 {
        if name == "output"@ { 0 } else { -1 }
    } else if place == 5 {
        if name == "follow"@ { 0 } else { -1 }
    } else if place == 10 {
        if name == "output"@ { 0 } else if name == "include-cache-blobs"@ { 1 } else { -1 }
    } else if place == 11 {
        if name == "input"@ { 0 } else if name == "overwrite"@ { 1 } else { -1 }
    } else {
        -1
    }
}

/// The slot of the option with the given short letter at `place`, or -1.
pub open spec fn short_option(place: int, c: char) -> int {
    if place == TOP_LEVEL {
        if c == 'u' { 0 } else if c == 't' { 1 } else { -1 }
    } else if place == 3 {
        if c == 's' { 0 } else { -1 }
    } else if place == 4 || place == 10 {
        if c == 'o' { 0 } else { -1 }
    } else if place == 5 {
        if c == 'f' { 0 } else { -1 }
    } else if place == 11 {
        if c == 'i' { 0 } else { -1 }
    } else {
        -1
    }
}

/// The long name of the option in slot `k` at `place`.
pub open spec fn option_name(place: int, k: int) -> Seq<char> {
    if place == TOP_LEVEL {
        if k == 0 { "url"@ } else { "token"@ }
    } else if place == 3 {
        "selector"@
    } else if place == 4 {
        "output"@
    } else if place == 5 {
        "follow"@
    } else if place == 10 {
        if k == 0 { "output"@ } else { "include-cache-blobs"@ }
    } else {
        if k == 0 { "input"@ } else { "overwrite"@ }
    }
}

/// Whether the option in slot `k` at `place` takes a value (else it is a flag).
pub open spec fn takes_value(place: int, k: int) -> bool {
    !(place == 5 || (place == 10 && k == 1) || (place == 11 && k == 1))
}

/// A token that looks like an option: '-' followed by something.
pub open spec fn option_like(t: Seq<char>) -> bool {
    t.len() > 1 && t[0] == '-'
}

/// The position of the first '=' in `t` at or after `from`, or its length.
pub open spec fn eq_pos(t: Seq<char>, from: int) -> int
    decreases t.len() - from,
{
    if from < 0 || from >= t.len() {
        t.len() as int
    } else if t[from] == '=' {
        from
    } else {
        eq_pos(t, from + 1)
    }
}

/// What has been read: the values of the two option slots (a flag that is
/// present holds the empty value), the positional arguments, and whether
/// `--` has been seen.
pub type ScanState = (Option<Seq<char>>, Option<Seq<char>>, Seq<Seq<char>>, bool);

/// Where the reading stopped, and what it gathered.
pub type ScanOutcome = (int, Option<Seq<char>>, Option<Seq<char>>, Seq<Seq<char>>);

pub open spec fn slot(st: ScanState, k: int) -> Option<Seq<char>> {
    if k == 0 { st.0 } else { st.1 }
}

pub open spec fn set_slot(st: ScanState, k: int, v: Seq<char>) -> ScanState {
    if k == 0 { (Some(v), st.1, st.2, st.3) } else { (st.0, Some(v), st.2, st.3) }
}

pub open spec fn dashed(name: Seq<char>) -> Seq<char> {
    "--"@ + name
}

/// Reads tokens from position `i` on with the options of `place`. At the top
/// level the reading stops at the first token that is not an option (the
/// subcommand); in a subcommand it goes to the end.
pub open spec fn scan(toks: Seq<Seq<char>>, i: int, place: int, st: ScanState) -> Result<ScanOutcome, ParseErrorView>
    decreases toks.len() - i,
{
    if i < 0 || i >= toks.len() {
        Ok((toks.len() as int, st.0, st.1, st.2))
    } else {
        let t = toks[i];
        if st.3 {
            scan(toks, i + 1, place, (st.0, st.1, st.2.push(t), true))
        } else if place != TOP_LEVEL && t == "--"@ {
            scan(toks, i + 1, place, (st.0, st.1, st.2, true))
        } else if t == "--help"@ || t == "-h"@ {
            Err(ParseErrorView::HelpRequested)
        } else if option_like(t) {
            let long = t.len() >= 2 && t[1] == '-';
            let e = eq_pos(t, 2);
            let k = if long { long_option(place, t.subrange(2, e)) } else { short_option(place, t[1]) };
            if k < 0 {
                Err(ParseErrorView::UnexpectedArgument(t))
            } else if slot(st, k) is Some {
                Err(ParseErrorView::Repeated(dashed(option_name(place, k))))
            } else if takes_value(place, k) {
                if long && e < t.len() {
                    scan(toks, i + 1, place, set_slot(st, k, t.subrange(e + 1, t.len() as int)))
                } else if !long && t.len() > 2 {
                    let v = if t[2] == '=' { t.subrange(3, t.len() as int) } else { t.subrange(2, t.len() as int) };
                    scan(toks, i + 1, place, set_slot(st, k, v))
                } else if i + 1 < toks.len() && !option_like(toks[i + 1]) {
                    scan(toks, i + 2, place, set_slot(st, k, toks[i + 1]))
                } else {
                    Err(ParseErrorView::MissingValue(dashed(option_name(place, k))))
                }
            } else if (long && e < t.len()) || (!long && t.len() > 2) {
                Err(ParseErrorView::UnexpectedArgument(t))
            } else {
                scan(toks, i + 1, place, set_slot(st, k, Seq::empty()))
            }
        } else if place == TOP_LEVEL {
            Ok((i, st.0, st.1, st.2))
        } else {
            scan(toks, i + 1, place, (st.0, st.1, st.2.push(t), st.3))
        }
    }
}

/// How many positional arguments subcommand `c` takes.
pub open spec fn positional_count(c: int) -> int {
    if c == 6 || c == 8 || c == 9 || c == 10 || c == 11 { 1 } else { 0 }
}

/// The name under which a missing positional argument is reported.
pub open spec fn positional_name(c: int) -> Seq<char> {
    if c == 6 { "<SCRIPT>"@ } else { "<ID>"@ }
}

/// Builds subcommand `c` from what its reading gathered: the selector
/// defaults to "body", the screenshot path to "screenshot.png", and the
/// bundle paths of export and import are required.
pub open spec fn build_command(c: int, o0: Option<Seq<char>>, o1: Option<Seq<char>>, pos: Seq<Seq<char>>) -> Result<CommandView, ParseErrorView> {
    let n = positional_count(c);
    if pos.len() > n {
        Err(ParseErrorView::UnexpectedArgument(pos[n]))
    } else if pos.len() < n {
        Err(ParseErrorView::MissingArgument(positional_name(c)))
    } else if c == 0 {
        Ok(CommandView::ListWindows)
    } else if c == 1 {
        Ok(CommandView::ListTabs)
    } else if c == 2 {
        Ok(CommandView::Snapshot)
    } else if c == 3 {
        Ok(CommandView::GetDom(match o0 { Some(s) => s, None => "body"@ }))
    } else if c == 4 {
        Ok(CommandView::Screenshot(match o0 { Some(s) => s, None => "screenshot.png"@ }))
    } else if c == 5 {
        Ok(CommandView::Logs(o0 is Some))
    } else if c == 6 {
        Ok(CommandView::EvaluateJs(pos[0]))
    } else if c == 7 {
        Ok(CommandView::Shutdown)
    } else if c == 8 {
        Ok(CommandView::ProfileCreate(pos[0]))
    } else if c == 9 {
        Ok(CommandView::ProfileSwitch(pos[0]))
    } else if c == 10 {
        match o0 {
            Some(out) => Ok(CommandView::ProfileExport(pos[0], out, o1 is Some)),
            None => Err(ParseErrorView::MissingArgument("--output"@)),
        }
    } else {
        match o0 {
            Some(inp) => Ok(CommandView::ProfileImport(pos[0], inp, o1 is Some)),
            None => Err(ParseErrorView::MissingArgument("--input"@)),
        }
    }
}

pub open spec fn empty_state() -> ScanState {
    (None, None, Seq::empty(), false)
}

/// The meaning of a whole command line, program name first.
pub open spec fn introspect_args(toks: Seq<Seq<char>>) -> Result<ArgsView, ParseErrorView> {
    match scan(toks, 1, TOP_LEVEL as int, empty_state()) {
        Err(e) => Err(e),
        Ok(top) => {
            let j = top.0;
            if j >= toks.len() {
                Err(ParseErrorView::MissingCommand)
            } else {
                let c = command_index(toks[j]);
                if c < 0 {
                    Err(ParseErrorView::UnknownCommand(toks[j]))
                } else {
                    match scan(toks, j + 1, c, empty_state()) {
                        Err(e) => Err(e),
                        Ok(sub) => match build_command(c, sub.1, sub.2, sub.3) {
                            Err(e) => Err(e),
                            Ok(cmd) => Ok((cmd, top.1, top.2)),
                        },
                    }
                }
            }
        }
    }
}

/// The views of the tokens.
pub open spec fn tokens_view(args: Seq<&str>) -> Seq<Seq<char>> {
    Seq::new(args.len(), |i: int| args[i]@)
}

impl IntrospectCommand {
    pub open spec fn view(&self) -> CommandView {
        match self {
            IntrospectCommand::ListWindows => CommandView::ListWindows,
            IntrospectCommand::ListTabs => CommandView::ListTabs,
            IntrospectCommand::Snapshot => CommandView::Snapshot,
            IntrospectCommand::GetDom { selector } => CommandView::GetDom(selector@),
            IntrospectCommand::Screenshot { output } => CommandView::Screenshot(output@),
            IntrospectCommand::Logs { follow } => CommandView::Logs(*follow),
            IntrospectCommand::EvaluateJs { script } => CommandView::EvaluateJs(script@),
            IntrospectCommand::Shutdown => CommandView::Shutdown,
            IntrospectCommand::ProfileCreate { id } => CommandView::ProfileCreate(id@),
            IntrospectCommand::ProfileSwitch { id } => CommandView::ProfileSwitch(id@),
            IntrospectCommand::ProfileExport { id, output, include_cache_blobs } =>
                CommandView::ProfileExport(id@, output@, *include_cache_blobs),
            IntrospectCommand::ProfileImport { id, input, overwrite } =>
                CommandView::ProfileImport(id@, input@, *overwrite),
        }
    }
}

impl IntrospectParseError {
    pub open spec fn view(&self) -> ParseErrorView {
        match self {
            IntrospectParseError::UnexpectedArgument(s) => ParseErrorView::UnexpectedArgument(s@),
            IntrospectParseError::MissingValue(s) => ParseErrorView::MissingValue(s@),
            IntrospectParseError::Repeated(s) => ParseErrorView::Repeated(s@),
            IntrospectParseError::MissingCommand => ParseErrorView::MissingCommand,
            IntrospectParseError::UnknownCommand(s) => ParseErrorView::UnknownCommand(s@),
            IntrospectParseError::MissingArgument(s) => ParseErrorView::MissingArgument(s@),
            IntrospectParseError::HelpRequested => ParseErrorView::HelpRequested,
        }
    }
}

impl IntrospectArgs {
    pub open spec fn view(&self) -> ArgsView {
        (self.command.view(), crate::urls::opt_view(self.url), crate::urls::opt_view(self.token))
    }
}

/// The view of a parse outcome.
pub open spec fn outcome_view(r: Result<IntrospectArgs, IntrospectParseError>) -> Result<ArgsView, ParseErrorView> {
    match r {
        Ok(a) => Ok(a.view()),
        Err(e) => Err(e.view()),
    }
}

pub open spec fn opt_chars_view(o: Option<Vec<char>>) -> Option<Seq<char>> {
    match o {
        Some(v) => Some(v@),
        None => None,
    }
}

/// The view of what a scan gathered.
pub open spec fn scan_result_view(r: Result<(usize, Option<Vec<char>>, Option<Vec<char>>, Vec<Vec<char>>), IntrospectParseError>) -> Result<ScanOutcome, ParseErrorView> {
    match r {
        Ok(o) => Ok((o.0 as int, opt_chars_view(o.1), opt_chars_view(o.2), pieces_view(o.3@))),
        Err(e) => Err(e.view()),
    }
}

fn chars_eq_str(a: &[char], s: &str) -> (r: bool)
    ensures
        r == (a@ == s@),
{
    let b = chars_of(s);
    chars_eq(a, b.as_slice())
}

fn copy_chars(a: &[char]) -> (r: Vec<char>)
    ensures
        r@ == a@,
{
    let r = slice_chars(a, 0, a.len());
    assert(a@.subrange(0, a@.len() as int) =~= a@);
    r
}

fn is_option_like(t: &[char]) -> (r: bool)
    ensures
        r == option_like(t@),
{
    t.len() > 1 && t[0] == '-'
}

fn eq_index(t: &[char], from: usize) -> (r: usize)
    requires
        from <= t.len(),
    ensures
        r as int == eq_pos(t@, from as int),
        from <= r <= t.len(),
{
    let mut j = from;
    while j < t.len()
        invariant
            from <= j <= t.len(),
            eq_pos(t@, j as int) == eq_pos(t@, from as int),
        decreases t.len() - j,
    {
        if t[j] == '=' {
            return j;
        }
        j = j + 1;
    }
    j
}

fn command_index_of(name: &[char]) -> (r: i8)
    ensures
        r as int == command_index(name@),
{
    if chars_eq_str(name, "list-windows") { 0 }
    else if chars_eq_str(name, "list-tabs") { 1 }
    else if chars_eq_str(name, "snapshot") { 2 }
    else if chars_eq_str(name, "get-dom") { 3 }
    else if chars_eq_str(name, "screenshot") { 4 }
    else if chars_eq_str(name, "logs") { 5 }
    else if chars_eq_str(name, "evaluate-js") { 6 }
    else if chars_eq_str(name, "shutdown") { 7 }
    else if chars_eq_str(name, "profile-create") { 8 }
    else if chars_eq_str(name, "profile-switch") { 9 }
    else if chars_eq_str(name, "profile-export") { 10 }
    else if chars_eq_str(name, "profile-import") { 11 }
    else { -1 }
}

fn long_option_of(place: u8, name: &[char]) -> (r: i8)
    ensures
        r as int == long_option(place as int, name@),
{
    if place == TOP_LEVEL {
        if chars_eq_str(name, "url") { 0 } else if chars_eq_str(name, "token") { 1 } else { -1 }
    } else if place == 3 {
        if chars_eq_str(name, "selector") { 0 } else { -1 }
    } else if place == 4 {
        if chars_eq_str(name, "output") { 0 } else { -1 }
    } else if place == 5 {
        if chars_eq_str(name, "follow") { 0 } else { -1 }
    } else if place == 10 {
        if chars_eq_str(name, "output") { 0 } else if chars_eq_str(name, "include-cache-blobs") { 1 } else { -1 }
    } else if place == 11 {
        if chars_eq_str(name, "input") { 0 } else if chars_eq_str(name, "overwrite") { 1 } else { -1 }
    } else {
        -1
    }
}

fn short_option_of(place: u8, c: char) -> (r: i8)
    ensures
        r as int == short_option(place as int, c),
{
    if place == TOP_LEVEL {
        if c == 'u' { 0 } else if c == 't' { 1 } else { -1 }
    } else if place == 3 {
        if c == 's' { 0 } else { -1 }
    } else if place == 4 || place == 10 {
        if c == 'o' { 0 } else { -1 }
    } else if place == 5 {
        if c == 'f' { 0 } else { -1 }
    } else if place == 11 {
        if c == 'i' { 0 } else { -1 }
    } else {
        -1
    }
}

fn option_name_of(place: u8, k: i8) -> (r: Vec<char>)
    ensures
        r@ == option_name(place as int, k as int),
{
    if place == TOP_LEVEL {
        if k == 0 { chars_of("url") } else { chars_of("token") }
    } else if place == 3 {
        chars_of("selector")
    } else if place == 4 {
        chars_of("output")
    } else if place == 5 {
        chars_of("follow")
    } else if place == 10 {
        if k == 0 { chars_of("output") } else { chars_of("include-cache-blobs") }
    } else {
        if k == 0 { chars_of("input") } else { chars_of("overwrite") }
    }
}

fn dashed_name(place: u8, k: i8) -> (r: String)
    ensures
        r@ == dashed(option_name(place as int, k as int)),
{
    let d = chars_of("--");
    let n = option_name_of(place, k);
    let all = concat_chars(d.as_slice(), n.as_slice());
    string_of(all.as_slice())
}

/// Reads tokens from `start` on with the options of `place`.
fn scan_tokens(toks: &Vec<Vec<char>>, start: usize, place: u8) -> (r: Result<(usize, Option<Vec<char>>, Option<Vec<char>>, Vec<Vec<char>>), IntrospectParseError>)
    requires
        start <= toks.len(),
    ensures
        scan_result_view(r) == scan(pieces_view(toks@), start as int, place as int, empty_state()),
{
    let ghost tv = pieces_view(toks@);
    let ghost target = scan(tv, start as int, place as int, empty_state());
    let mut i: usize = start;
    let mut o0: Option<Vec<char>> = None;
    let mut o1: Option<Vec<char>> = None;
    let mut pos: Vec<Vec<char>> = Vec::new();
    let mut dashes = false;
    assert(pieces_view(pos@) =~= Seq::<Seq<char>>::empty());
    loop
        invariant
            i <= toks.len(),
            tv == pieces_view(toks@),
            target == scan(tv, start as int, place as int, empty_state()),
            scan(tv, i as int, place as int, (opt_chars_view(o0), opt_chars_view(o1), pieces_view(pos@), dashes)) == target,
        decreases toks.len() - i,
    {
        let ghost st: ScanState = (opt_chars_view(o0), opt_chars_view(o1), pieces_view(pos@), dashes);
        if i >= toks.len() {
            return Ok((toks.len(), o0, o1, pos));
        }
        let t = toks[i].as_slice();
        assert(tv[i as int] == t@);
        if dashes {
            let c = copy_chars(t);
            pos.push(c);
            assert(pieces_view(pos@) =~= st.2.push(t@));
            i = i + 1;
        } else if place != TOP_LEVEL && chars_eq_str(t, "--") {
            dashes = true;
            i = i + 1;
        } else if chars_eq_str(t, "--help") || chars_eq_str(t, "-h") {
            return Err(IntrospectParseError::HelpRequested);
        } else if is_option_like(t) {
            let long = t.len() >= 2 && t[1] == '-';
            let e = if t.len() >= 2 { eq_index(t, 2) } else { t.len() };
            let k = if long {
                let name = slice_chars(t, 2, e);
                long_option_of(place, name.as_slice())
            } else {
                short_option_of(place, t[1])
            };
            if k < 0 {
                return Err(IntrospectParseError::UnexpectedArgument(string_of(t)));
            }
            if (k == 0 && o0.is_some()) || (k != 0 && o1.is_some()) {
                return Err(IntrospectParseError::Repeated(dashed_name(place, k)));
            }
            let value = place != 5 && !(place == 10 && k == 1) && !(place == 11 && k == 1);
            if value {
                let v: Vec<char>;
                if long && e < t.len() {
                    v = slice_chars(t, e + 1, t.len());
                    i = i + 1;
                } else if !long && t.len() > 2 {
                    if t[2] == '=' {
                        v = slice_chars(t, 3, t.len());
                    } else {
                        v = slice_chars(t, 2, t.len());
                    }
                    i = i + 1;
                } else if i + 1 < toks.len() && !is_option_like(toks[i + 1].as_slice()) {
                    assert(tv[i + 1] == toks@[i + 1]@);
                    v = copy_chars(toks[i + 1].as_slice());
                    i = i + 2;
                } else {
                    return Err(IntrospectParseError::MissingValue(dashed_name(place, k)));
                }
                if k == 0 {
                    o0 = Some(v);
                } else {
                    o1 = Some(v);
                }
            } else {
                if (long && e < t.len()) || (!long && t.len() > 2) {
                    return Err(IntrospectParseError::UnexpectedArgument(string_of(t)));
                }
                let v: Vec<char> = Vec::new();
                assert(v@ =~= Seq::<char>::empty());
                if k == 0 {
                    o0 = Some(v);
                } else {
                    o1 = Some(v);
                }
                i = i + 1;
            }
        } else if place == TOP_LEVEL {
            return Ok((i, o0, o1, pos));
        } else {
            let c = copy_chars(t);
            pos.push(c);
            assert(pieces_view(pos@) =~= st.2.push(t@));
            i = i + 1;
        }
    }
}

fn build_command_of(c: i8, o0: Option<Vec<char>>, o1: Option<Vec<char>>, pos: Vec<Vec<char>>) -> (r: Result<IntrospectCommand, IntrospectParseError>)
    requires
        0 <= c <= 11,
    ensures
        match r {
            Ok(cmd) => build_command(c as int, opt_chars_view(o0), opt_chars_view(o1), pieces_view(pos@)) == Ok::<CommandView, ParseErrorView>(cmd.view()),
            Err(e) => build_command(c as int, opt_chars_view(o0), opt_chars_view(o1), pieces_view(pos@)) == Err::<CommandView, ParseErrorView>(e.view()),
        },
{
    let n: usize = if c == 6 || c == 8 || c == 9 || c == 10 || c == 11 { 1 } else { 0 };
    if pos.len() > n {
        return Err(IntrospectParseError::UnexpectedArgument(string_of(pos[n].as_slice())));
    }
    if pos.len() < n {
        let name = if c == 6 { chars_of("<SCRIPT>") } else { chars_of("<ID>") };
        return Err(IntrospectParseError::MissingArgument(string_of(name.as_slice())));
    }
    let first = if n == 1 { string_of(pos[0].as_slice()) } else { String::new() };
    let has0 = o0.is_some();
    let has1 = o1.is_some();
    let given0 = match o0 {
        Some(v) => Some(string_of(v.as_slice())),
        None => None,
    };
    if c == 0 {
        Ok(IntrospectCommand::ListWindows)
    } else if c == 1 {
        Ok(IntrospectCommand::ListTabs)
    } else if c == 2 {
        Ok(IntrospectCommand::Snapshot)
    } else if c == 3 {
        let selector = match given0 {
            Some(s) => s,
            None => crate::text::owned("body"),
        };
        Ok(IntrospectCommand::GetDom { selector })
    } else if c == 4 {
        let output = match given0 {
            Some(s) => s,
            None => crate::text::owned("screenshot.png"),
        };
        Ok(IntrospectCommand::Screenshot { output })
    } else if c == 5 {
        Ok(IntrospectCommand::Logs { follow: has0 })
    } else if c == 6 {
        Ok(IntrospectCommand::EvaluateJs { script: first })
    } else if c == 7 {
        Ok(IntrospectCommand::Shutdown)
    } else if c == 8 {
        Ok(IntrospectCommand::ProfileCreate { id: first })
    } else if c == 9 {
        Ok(IntrospectCommand::ProfileSwitch { id: first })
    } else if c == 10 {
        match given0 {
            Some(output) => Ok(IntrospectCommand::ProfileExport { id: first, output, include_cache_blobs: has1 }),
            None => Err(IntrospectParseError::MissingArgument(crate::text::owned("--output"))),
        }
    } else {
        match given0 {
            Some(input) => Ok(IntrospectCommand::ProfileImport { id: first, input, overwrite: has1 }),
            None => Err(IntrospectParseError::MissingArgument(crate::text::owned("--input"))),
        }
    }
}

impl IntrospectArgs {
    /// Parses a command line, program name first.
    pub fn try_parse_from(args: &[&str]) -> (r: Result<IntrospectArgs, IntrospectParseError>)
        ensures
            outcome_view(r) == introspect_args(tokens_view(args@)),
    {
        let mut toks: Vec<Vec<char>> = Vec::new();
        let mut i: usize = 0;
        while i < args.len()
            invariant
                i <= args.len(),
                toks.len() == i,
                pieces_view(toks@) == tokens_view(args@).subrange(0, i as int),
            decreases args.len() - i,
        {
            let a: &str = args[i];
            let t = chars_of(a);
            let ghost before = toks@;
            toks.push(t);
            assert forall|k: int| 0 <= k < i + 1 implies #[trigger] pieces_view(toks@)[k] == tokens_view(args@)[k] by {
                if k < i {
                    assert(pieces_view(before)[k] == tokens_view(args@).subrange(0, i as int)[k]);
                }
            }
            assert(pieces_view(toks@) =~= tokens_view(args@).subrange(0, i as int + 1));
            i = i + 1;
        }
        let ghost tv = tokens_view(args@);
        assert(pieces_view(toks@) =~= tv);
        let start: usize = if toks.len() >= 1 { 1 } else { 0 };
        assert(scan(tv, start as int, TOP_LEVEL as int, empty_state()) == scan(tv, 1, TOP_LEVEL as int, empty_state()));
        let top = scan_tokens(&toks, start, TOP_LEVEL);
        let (j, url, token, _rest) = match top {
            Err(e) => return Err(e),
            Ok(t) => t,
        };
        if j >= toks.len() {
            return Err(IntrospectParseError::MissingCommand);
        }
        let c = command_index_of(toks[j].as_slice());
        if c < 0 {
            return Err(IntrospectParseError::UnknownCommand(string_of(toks[j].as_slice())));
        }
        let sub = scan_tokens(&toks, j + 1, c as u8);
        let (_end, o0, o1, pos) = match sub {
            Err(e) => return Err(e),
            Ok(s) => s,
        };
        let command = build_command_of(c, o0, o1, pos);
        match command {
            Err(e) => Err(e),
            Ok(command) => {
                let url = match url {
                    Some(v) => Some(string_of(v.as_slice())),
                    None => None,
                };
                let token = match token {
                    Some(v) => Some(string_of(v.as_slice())),
                    None => None,
                };
                Ok(IntrospectArgs { command, url, token })
            },
        }
    }

    /// Parses a command line that is known to be well formed.
    pub fn parse_from(args: &[&str]) -> (r: IntrospectArgs)
        requires
            introspect_args(tokens_view(args@)) is Ok,
        ensures
            introspect_args(tokens_view(args@)) == Ok::<ArgsView, ParseErrorView>(r.view()),
    {
        match IntrospectArgs::try_parse_from(args) {
            Ok(a) => a,
            Err(_) => {
                assert(false);
                IntrospectArgs { command: IntrospectCommand::Shutdown, url: None, token: None }
            },
        }
    }
}

} // verus!
