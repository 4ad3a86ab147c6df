//! Riot Client launch arguments, install locations and process names.
use vstd::prelude::*;

use crate::json::{get, json_parse, json_view, lemma_members_view_index, members_view, parse_json, JsonValue, JsonView};
use crate::models::{launch_product_of, LaunchGame};
use crate::state::comma_joined;
use crate::tally::{counts_below, lemma_tally_insert_counts, tally_add, tally_of, tally_view};
use crate::text::{
    blank, chars_of, concat2, decimal, decimal_string, eq_ignore_ascii_case, eq_ignore_case, is_blank,
    is_whitespace, is_ws, lower_seq, lowercase, push_str, rfind_char, seq_eq, slice_vec, string_of,
    trim, trim_vec,
};

verus! {

/// Why launch parameters were refused.
#[derive(Debug, Clone, PartialEq, Eq)]
pub enum LaunchError {
    EmptyPatchline,
    PatchlineWhitespace,
    UnclosedQuote(char),
    RiotClientNotFound,
}

/// The message shown to the user for a launch error.
pub open spec fn launch_error_text(e: LaunchError) -> Seq<char> {
    match e {
        LaunchError::EmptyPatchline => "Game patchline cannot be empty"@,
        LaunchError::PatchlineWhitespace => "Game patchline cannot contain whitespace"@,
        LaunchError::UnclosedQuote(q) => "Unclosed quote in launch parameters: "@.push(q),
        LaunchError::RiotClientNotFound => "Unable to find RiotClientServices.exe. Expected RiotClientInstalls.json under ProgramData or a Riot Client install under C:\\Riot Games."@,
    }
}

impl LaunchError {
    /// The message shown to the user.
    pub fn message(&self) -> (r: String)
        ensures
            r@ == launch_error_text(*self),
    {
        match self {
            LaunchError::EmptyPatchline => "Game patchline cannot be empty".to_owned(),
            LaunchError::PatchlineWhitespace => "Game patchline cannot contain whitespace".to_owned(),
            LaunchError::UnclosedQuote(q) => {
                let mut m = "Unclosed quote in launch parameters: ".to_owned();
                crate::external::push_char(&mut m, *q);
                m
            },
            LaunchError::RiotClientNotFound => "Unable to find RiotClientServices.exe. Expected RiotClientInstalls.json under ProgramData or a Riot Client install under C:\\Riot Games.".to_owned(),
        }
    }
}

pub open spec fn views(v: Seq<String>) -> Seq<Seq<char>> {
    v.map_values(|s: String| s@)
}

pub open spec fn vec_views(v: Seq<Vec<char>>) -> Seq<Seq<char>> {
    v.map_values(|s: Vec<char>| s@)
}

/// `String`s holding the given character vectors.
pub fn strings_of(v: &Vec<Vec<char>>) -> (r: Vec<String>)
    ensures
        views(r@) == vec_views(v@),
{
    let mut r: Vec<String> = Vec::new();
    let mut i: usize = 0;
    while i < v.len()
        invariant
            i <= v@.len(),
            views(r@) == vec_views(v@.take(i as int)),
        decreases v@.len() - i,
    {
        let s = string_of(v[i].as_slice());
        let ghost prev = r@;
        r.push(s);
        assert(r@ == prev.push(s));
        assert(views(prev.push(s)) =~= views(prev).push(s@));
        assert(vec_views(v@.take(i + 1)) =~= vec_views(v@.take(i as int)).push(v@[i as int]@));
        assert(views(r@) =~= vec_views(v@.take(i + 1)));
        i += 1;
    }
    assert(v@.take(v@.len() as int) =~= v@);
    r
}

// ---------------------------------------------------------------------------
// Splitting launch parameters
// ---------------------------------------------------------------------------

/// The state of the launch-parameter scanner.
pub struct ArgScan {
    pub args: Seq<Seq<char>>,
    pub current: Seq<char>,
    pub quote: Option<char>,
    pub has_current: bool,
}

pub open spec fn arg_scan_init() -> ArgScan {
    ArgScan { args: seq![], current: seq![], quote: None, has_current: false }
}

/// One step of the scanner at `s[i]`: the next state and how many characters
/// it consumed.
pub open spec fn arg_step(s: Seq<char>, i: int, st: ArgScan) -> (ArgScan, int) {
    let ch = s[i];
    match st.quote {
        Some(active) => {
            if ch == '\\' {
                if i + 1 < s.len() && (s[i + 1] == active || s[i + 1] == '\\') {
                    (ArgScan { current: st.current.push(s[i + 1]), has_current: true, ..st }, 2)
                } else {
                    (ArgScan { current: st.current.push(ch), has_current: true, ..st }, 1)
                }
            } else if ch == active {
                (ArgScan { quote: None, has_current: true, ..st }, 1)
            } else {
                (ArgScan { current: st.current.push(ch), has_current: true, ..st }, 1)
            }
        },
        None => {
            if ch == '"' || ch == '\'' {
                (ArgScan { quote: Some(ch), has_current: true, ..st }, 1)
            } else if is_ws(ch) {
                if st.has_current {
                    (ArgScan { args: st.args.push(st.current), current: seq![], has_current: false, ..st }, 1)
                } else {
                    (st, 1)
                }
            } else {
                (ArgScan { current: st.current.push(ch), has_current: true, ..st }, 1)
            }
        },
    }
}

pub open spec fn arg_scan(s: Seq<char>, i: int, st: ArgScan) -> ArgScan
    decreases s.len() - i,
{
    if i < 0 || i >= s.len() {
        st
    } else {
        let (next, n) = arg_step(s, i, st);
        if n >= 1 {
            arg_scan(s, i + n, next)
        } else {
            st
        }
    }
}

/// The arguments that `s` splits into: whitespace separates arguments, single
/// or double quotes group characters (an empty pair gives an empty argument),
/// and inside quotes a backslash escapes the active quote or a backslash.
/// `None` when a quote is left open.
pub open spec fn launch_args(s: Seq<char>) -> Option<Seq<Seq<char>>> {
    let st = arg_scan(s, 0, arg_scan_init());
    if st.quote.is_some() {
        None
    } else if st.has_current {
        Some(st.args.push(st.current))
    } else {
        Some(st.args)
    }
}

/// No quote character in `s`.
pub open spec fn quote_free(s: Seq<char>) -> bool {
    forall|k: int| 0 <= k < s.len() ==> #[trigger] s[k] != '"' && s[k] != '\''
}

/// No whitespace in `s`.
pub open spec fn no_ws(s: Seq<char>) -> bool {
    forall|k: int| 0 <= k < s.len() ==> !is_ws(#[trigger] s[k])
}

/// The arguments a scanner state ends with.
pub open spec fn scan_result(st: ArgScan) -> Seq<Seq<char>> {
    if st.has_current {
        st.args.push(st.current)
    } else {
        st.args
    }
}

proof fn lemma_word_len_append(w: Seq<char>, r: Seq<char>)
    requires
        no_ws(w),
        r.len() == 0 || is_ws(r[0]),
    ensures
        crate::text::word_len(w + r) == w.len(),
    decreases w.len(),
{
    if w.len() > 0 {
        assert((w + r).drop_first() =~= w.drop_first() + r);
        lemma_word_len_append(w.drop_first(), r);
    } else {
        assert(w + r =~= r);
    }
}

proof fn lemma_words_after_word(w: Seq<char>, r: Seq<char>)
    requires
        no_ws(w),
        w.len() > 0,
        r.len() == 0 || is_ws(r[0]),
    ensures
        crate::text::words(w + r) == seq![w] + crate::text::words(r),
{
    lemma_word_len_append(w, r);
    assert((w + r).take(w.len() as int) =~= w);
    assert((w + r).skip(w.len() as int) =~= r);
}

proof fn lemma_quote_free_scan(s: Seq<char>, i: int, st: ArgScan)
    requires
        0 <= i <= s.len(),
        quote_free(s),
        st.quote is None,
        st.has_current == (st.current.len() > 0),
        no_ws(st.current),
    ensures
        arg_scan(s, i, st).quote is None,
        scan_result(arg_scan(s, i, st)) == st.args + crate::text::words(st.current + s.skip(i)),
    decreases s.len() - i,
{
    if i == s.len() {
        assert(st.current + s.skip(i) =~= st.current);
        if st.has_current {
            lemma_words_after_word(st.current, seq![]);
            assert(st.current + Seq::<char>::empty() =~= st.current);
            assert(crate::text::words(Seq::<char>::empty()) == Seq::<Seq<char>>::empty());
            assert(st.args.push(st.current) =~= st.args + seq![st.current]);
        } else {
            assert(st.current =~= Seq::<char>::empty());
            assert(st.args + Seq::<Seq<char>>::empty() =~= st.args);
        }
    } else {
        let ch = s[i];
        let rest = s.skip(i);
        assert(rest[0] == ch);
        assert(rest.drop_first() =~= s.skip(i + 1));
        if is_ws(ch) {
            if st.has_current {
                let next = ArgScan { args: st.args.push(st.current), current: seq![], has_current: false, ..st };
                lemma_quote_free_scan(s, i + 1, next);
                lemma_words_after_word(st.current, rest);
                assert(Seq::<char>::empty() + s.skip(i + 1) =~= s.skip(i + 1));
                assert(st.args.push(st.current) + crate::text::words(s.skip(i + 1)) =~= st.args + (seq![st.current]
                    + crate::text::words(s.skip(i + 1))));
            } else {
                lemma_quote_free_scan(s, i + 1, st);
                assert(st.current =~= Seq::<char>::empty());
                assert(st.current + rest =~= rest);
                assert(st.current + s.skip(i + 1) =~= s.skip(i + 1));
            }
        } else {
            let next = ArgScan { current: st.current.push(ch), has_current: true, ..st };
            lemma_quote_free_scan(s, i + 1, next);
            assert(st.current.push(ch) + s.skip(i + 1) =~= st.current + rest);
        }
    }
}

/// Parameters without quotes split on whitespace alone, as
/// `str::split_whitespace` splits them (see `words`).
pub proof fn lemma_quote_free_args_are_words(s: Seq<char>)
    requires
        quote_free(s),
    ensures
        launch_args(s) == Some(crate::text::words(s)),
{
    lemma_quote_free_scan(s, 0, arg_scan_init());
    assert(Seq::<char>::empty() + s.skip(0) =~= s);
    assert(Seq::<Seq<char>>::empty() + crate::text::words(s) =~= crate::text::words(s));
}

/// Splits launch parameters the way a shell would.
pub fn parse_launch_args(value: &str) -> (r: Result<Vec<String>, LaunchError>)
    ensures
        match r {
            Ok(args) => launch_args(value@) == Some(views(args@)),
            Err(e) => launch_args(value@).is_none() && arg_scan(value@, 0, arg_scan_init()).quote
                == Some(e->UnclosedQuote_0) && e is UnclosedQuote,
        },
{
    let s = chars_of(value);
    let n = s.len();
    let mut args: Vec<Vec<char>> = Vec::new();
    let mut current: Vec<char> = Vec::new();
    let mut quote: Option<char> = None;
    let mut has_current = false;
    let mut i: usize = 0;
    assert(vec_views(args@) =~= seq![]);
    assert(current@ =~= seq![]);
    while i < n
        invariant
            n == s@.len(),
            s@ == value@,
            i <= n,
            arg_scan(s@, 0, arg_scan_init()) == arg_scan(
                s@,
                i as int,
                ArgScan { args: vec_views(args@), current: current@, quote, has_current },
            ),
        decreases n - i,
    {
        let ghost st = ArgScan { args: vec_views(args@), current: current@, quote, has_current };
        let ch = s[i];
        let mut step: usize = 1;
        match quote {
            Some(active) => {
                if ch == '\\' {
                    if i + 1 < n && (s[i + 1] == active || s[i + 1] == '\\') {
                        current.push(s[i + 1]);
                        step = 2;
                    } else {
                        current.push(ch);
                    }
                    has_current = true;
                } else if ch == active {
                    quote = None;
                    has_current = true;
                } else {
                    current.push(ch);
                    has_current = true;
                }
            },
            None => {
                if ch == '"' || ch == '\'' {
                    quote = Some(ch);
                    has_current = true;
                } else if is_whitespace(ch) {
                    if has_current {
                        let done = current;
                        args.push(done);
                        current = Vec::new();
                        has_current = false;
                        assert(vec_views(args@) =~= st.args.push(st.current));
                    }
                } else {
                    current.push(ch);
                    has_current = true;
                }
            },
        }
        assert(arg_step(s@, i as int, st) == (
        ArgScan { args: vec_views(args@), current: current@, quote, has_current },
        step as int,
        ));
        i += step;
    }
    match quote {
        Some(q) => Err(LaunchError::UnclosedQuote(q)),
        None => {
            if has_current {
                let ghost before = vec_views(args@);
                args.push(current);
                assert(vec_views(args@) =~= before.push(current@));
            }
            Ok(strings_of(&args))
        },
    }
}

// ---------------------------------------------------------------------------
// Patchline and launch arguments
// ---------------------------------------------------------------------------

pub open spec fn has_ws(s: Seq<char>) -> bool {
    exists|k: int| 0 <= k < s.len() && is_ws(s[k])
}

/// The trimmed patchline, or why it is refused.
pub open spec fn checked_patchline(p: Seq<char>) -> Result<Seq<char>, LaunchError> {
    if trim(p).len() == 0 {
        Err(LaunchError::EmptyPatchline)
    } else if has_ws(trim(p)) {
        Err(LaunchError::PatchlineWhitespace)
    } else {
        Ok(trim(p))
    }
}

/// Trims the patchline and refuses an empty one or one with inner whitespace.
pub fn validate_game_patchline(game_patchline: &str) -> (r: Result<String, LaunchError>)
    ensures
        match r {
            Ok(p) => checked_patchline(game_patchline@) == Ok::<Seq<char>, LaunchError>(p@),
            Err(e) => checked_patchline(game_patchline@) == Err::<Seq<char>, LaunchError>(e),
        },
{
    let cv = chars_of(game_patchline);
    let v = trim_vec(cv.as_slice());
    assert(v@ == trim(game_patchline@));
    if v.len() == 0 {
        return Err(LaunchError::EmptyPatchline);
    }
    let mut i: usize = 0;
    while i < v.len()
        invariant
            i <= v@.len(),
            v@ == trim(game_patchline@),
            forall|k: int| 0 <= k < i ==> !is_ws(v@[k]),
        decreases v@.len() - i,
    {
        if is_whitespace(v[i]) {
            let ghost t = trim(game_patchline@);
            assert(0 <= i < t.len() && is_ws(t[i as int]));
            assert(has_ws(t));
            return Err(LaunchError::PatchlineWhitespace);
        }
        i += 1;
    }
    Ok(string_of(v.as_slice()))
}

/// Optional parameters count only when they hold more than whitespace.
pub open spec fn given(p: Option<Seq<char>>) -> Option<Seq<char>> {
    match p {
        Some(s) => if is_blank(s) {
            None
        } else {
            Some(s)
        },
        None => None,
    }
}

pub open spec fn opt_view(p: Option<&str>) -> Option<Seq<char>> {
    match p {
        Some(s) => Some(s@),
        None => None,
    }
}

/// Whether `p` is given and splits into arguments.
pub open spec fn params_ok(p: Option<Seq<char>>) -> bool {
    match given(p) {
        Some(s) => launch_args(s).is_some(),
        None => true,
    }
}

/// The arguments that given parameters split into, empty when not given.
pub open spec fn params_args(p: Option<Seq<char>>) -> Seq<Seq<char>> {
    match given(p) {
        Some(s) => launch_args(s).unwrap(),
        None => seq![],
    }
}

pub open spec fn launch_params_valid(
    game: LaunchGame,
    patchline: Seq<char>,
    riot_client_params: Option<Seq<char>>,
    game_params: Option<Seq<char>>,
) -> bool {
    &&& (launch_product_of(game).is_some() ==> checked_patchline(patchline) is Ok)
    &&& params_ok(riot_client_params)
    &&& params_ok(game_params)
}

fn given_params(p: Option<&str>) -> (r: Option<Vec<String>>)
    ensures
        params_ok(opt_view(p)) ==> match r {
            Some(a) => given(opt_view(p)).is_some() && views(a@) == params_args(opt_view(p)),
            None => given(opt_view(p)).is_none(),
        },
        !params_ok(opt_view(p)) ==> r.is_some(),
{
    match p {
        Some(s) => {
            if blank(s) {
                None
            } else {
                match parse_launch_args(s) {
                    Ok(a) => Some(a),
                    Err(_) => Some(Vec::new()),
                }
            }
        },
        None => None,
    }
}

/// The error given parameters are refused with: the quote they leave open.
pub open spec fn params_error(p: Option<Seq<char>>) -> Option<LaunchError> {
    match given(p) {
        Some(s) => match arg_scan(s, 0, arg_scan_init()).quote {
            Some(q) => Some(LaunchError::UnclosedQuote(q)),
            None => None,
        },
        None => None,
    }
}

/// The error launch parameters are refused with, checked in order: the
/// patchline (when a game is launched), the Riot Client parameters, the game
/// parameters; `None` when they are valid.
pub open spec fn launch_params_error(
    game: LaunchGame,
    patchline: Seq<char>,
    riot_client_params: Option<Seq<char>>,
    game_params: Option<Seq<char>>,
) -> Option<LaunchError> {
    if launch_product_of(game).is_some() && checked_patchline(patchline) is Err {
        Some(checked_patchline(patchline)->Err_0)
    } else if params_error(riot_client_params) is Some {
        params_error(riot_client_params)
    } else {
        params_error(game_params)
    }
}

fn check_params(p: Option<&str>) -> (r: Result<(), LaunchError>)
    ensures
        r is Ok <==> params_ok(opt_view(p)),
        r matches Err(e) ==> e is UnclosedQuote,
        match params_error(opt_view(p)) {
            Some(e) => r == Err::<(), LaunchError>(e),
            None => r is Ok,
        },
{
    match p {
        Some(s) => {
            if blank(s) {
                Ok(())
            } else {
                match parse_launch_args(s) {
                    Ok(_) => Ok(()),
                    Err(e) => Err(e),
                }
            }
        },
        None => Ok(()),
    }
}

/// Checks launch parameters before anything starts: the patchline when a game
/// is launched, and that given parameter strings close their quotes.
pub fn validate_launch_params(
    game: LaunchGame,
    game_patchline: &str,
    riot_client_params: Option<&str>,
    game_params: Option<&str>,
) -> (r: Result<(), LaunchError>)
    ensures
        r is Ok <==> launch_params_valid(
            game,
            game_patchline@,
            opt_view(riot_client_params),
            opt_view(game_params),
        ),
        match launch_params_error(game, game_patchline@, opt_view(riot_client_params), opt_view(game_params)) {
            Some(e) => r == Err::<(), LaunchError>(e),
            None => r is Ok,
        },
{
    if game.launch_product().is_some() {
        match validate_game_patchline(game_patchline) {
            Ok(_) => {},
            Err(e) => {
                return Err(e);
            },
        }
    }
    match check_params(riot_client_params) {
        Ok(()) => {},
        Err(e) => {
            return Err(e);
        },
    }
    check_params(game_params)
}

/// `--client-config-url=http://127.0.0.1:<port>`.
pub open spec fn config_url_arg(port: u16) -> Seq<char> {
    "--client-config-url=http://127.0.0.1:"@ + decimal(port as nat)
}

/// The arguments passed to `RiotClientServices.exe`.
pub open spec fn launch_arg_list(
    config_port: u16,
    game: LaunchGame,
    patchline: Seq<char>,
    riot_client_params: Option<Seq<char>>,
    game_params: Option<Seq<char>>,
) -> Seq<Seq<char>> {
    let product = match launch_product_of(game) {
        Some(p) => seq!["--launch-product="@ + p, "--launch-patchline="@ + trim(patchline)],
        None => seq![],
    };
    let game_part = match given(game_params) {
        Some(_) => seq!["--"@] + params_args(game_params),
        None => seq![],
    };
    seq![config_url_arg(config_port)] + product + params_args(riot_client_params) + game_part
}

/// The patchline is checked only when a game is launched: the Riot Client by
/// itself takes none.
pub open spec fn build_args_ok(
    game: LaunchGame,
    patchline: Seq<char>,
    riot_client_params: Option<Seq<char>>,
    game_params: Option<Seq<char>>,
) -> bool {
    &&& (launch_product_of(game).is_some() ==> checked_patchline(patchline) is Ok)
    &&& params_ok(riot_client_params)
    &&& params_ok(game_params)
}

/// Parameters that pass `validate_launch_params` always build a command line:
/// what is checked before the start is what the launch needs.
pub proof fn lemma_validated_params_build(
    game: LaunchGame,
    patchline: Seq<char>,
    riot_client_params: Option<Seq<char>>,
    game_params: Option<Seq<char>>,
)
    requires
        launch_params_valid(game, patchline, riot_client_params, game_params),
    ensures
        build_args_ok(game, patchline, riot_client_params, game_params),
{
}

fn push_all(out: &mut Vec<String>, items: Vec<String>)
    ensures
        views(final(out)@) == views(old(out)@) + views(items@),
{
    let mut i: usize = 0;
    while i < items.len()
        invariant
            i <= items@.len(),
            views(out@) == views(old(out)@) + views(items@.take(i as int)),
        decreases items@.len() - i,
    {
        let s = items[i].clone();
        let ghost prev = out@;
        out.push(s);
        assert(out@ == prev.push(s));
        assert(views(prev.push(s)) =~= views(prev).push(s@));
        assert(views(items@.take(i + 1)) =~= views(items@.take(i as int)).push(items@[i as int]@));
        assert(views(out@) =~= views(old(out)@) + views(items@.take(i + 1)));
        i += 1;
    }
    assert(items@.take(items@.len() as int) =~= items@);
}

/// The command line for the Riot Client: the patched config URL, the product
/// and trimmed patchline when a game is launched, the Riot Client parameters,
/// then `--` and the game parameters when given.
pub fn build_launch_args(
    config_port: u16,
    game: LaunchGame,
    game_patchline: &str,
    riot_client_params: Option<&str>,
    game_params: Option<&str>,
) -> (r: Result<Vec<String>, LaunchError>)
    ensures
        r is Ok <==> build_args_ok(game, game_patchline@, opt_view(riot_client_params), opt_view(game_params)),
        r matches Ok(args) ==> views(args@) == launch_arg_list(
            config_port,
            game,
            game_patchline@,
            opt_view(riot_client_params),
            opt_view(game_params),
        ),
{
    let mut patchline = String::new();
    if game.launch_product().is_some() {
        patchline = validate_game_patchline(game_patchline)?;
    }
    check_params(riot_client_params)?;
    check_params(game_params)?;
    let ghost rc = opt_view(riot_client_params);
    let ghost gp = opt_view(game_params);
    let ghost product_part = match launch_product_of(game) {
        Some(p) => seq!["--launch-product="@ + p, "--launch-patchline="@ + trim(game_patchline@)],
        None => seq![],
    };
    let ghost game_part = match given(gp) {
        Some(_) => seq!["--"@] + params_args(gp),
        None => seq![],
    };
    let mut args: Vec<String> = Vec::new();
    let port = decimal_string(config_port as u64);
    let first = concat2("--client-config-url=http://127.0.0.1:", port.as_str());
    args.push(first);
    assert(views(args@) =~= seq![config_url_arg(config_port)]);
    if let Some(product) = game.launch_product() {
        let a1 = concat2("--launch-product=", product);
        let a2 = concat2("--launch-patchline=", patchline.as_str());
        let ghost prev = args@;
        args.push(a1);
        args.push(a2);
        assert(args@ == prev.push(a1).push(a2));
        assert(views(args@) =~= views(prev) + seq![a1@, a2@]);
    }
    assert(views(args@) =~= seq![config_url_arg(config_port)] + product_part);
    if let Some(a) = given_params(riot_client_params) {
        push_all(&mut args, a);
    }
    assert(views(args@) =~= seq![config_url_arg(config_port)] + product_part + params_args(rc));
    if let Some(a) = given_params(game_params) {
        let ghost prev = args@;
        let sep = "--".to_owned();
        args.push(sep);
        assert(views(args@) =~= views(prev).push("--"@));
        push_all(&mut args, a);
        assert(views(args@) =~= views(prev) + game_part);
    }
    assert(views(args@) =~= seq![config_url_arg(config_port)] + product_part + params_args(rc) + game_part);
    Ok(args)
}

// ---------------------------------------------------------------------------
// Riot Client install paths (Windows path text)
// ---------------------------------------------------------------------------

/// `/` replaced by `\`.
pub open spec fn backslashed(s: Seq<char>) -> Seq<char> {
    s.map_values(|c: char| if c == '/' { '\\' } else { c })
}

pub fn normalize_riot_path(path: &str) -> (r: Vec<char>)
    ensures
        r@ == backslashed(path@),
{
    let v = chars_of(path);
    let mut r: Vec<char> = Vec::new();
    let mut i: usize = 0;
    while i < v.len()
        invariant
            i <= v@.len(),
            v@ == path@,
            r@ == backslashed(v@.take(i as int)),
        decreases v@.len() - i,
    {
        let c = if v[i] == '/' {
            '\\'
        } else {
            v[i]
        };
        r.push(c);
        assert(backslashed(v@.take(i + 1)) =~= backslashed(v@.take(i as int)).push(c));
        i += 1;
    }
    assert(v@.take(v@.len() as int) =~= v@);
    r
}

/// The last component of a Windows path: what follows the last `\`.
pub open spec fn file_name_start(p: Seq<char>) -> int {
    if exists|k: int| 0 <= k < p.len() && p[k] == '\\' {
        (choose|k: int| 0 <= k < p.len() && p[k] == '\\' && forall|m: int| k < m < p.len() ==> p[m] != '\\') + 1
    } else {
        0
    }
}

pub open spec fn executable_name() -> Seq<char> {
    "RiotClientServices.exe"@
}

/// The executable for a configured Riot Client location: the path itself when
/// it already names `RiotClientServices.exe` (in any case), else that file
/// inside it.
pub open spec fn executable_candidate(path: Seq<char>) -> Seq<char> {
    let p = backslashed(path);
    if eq_ignore_case(p.subrange(file_name_start(p), p.len() as int), executable_name()) {
        p
    } else if p.len() > 0 && p.last() == '\\' {
        p + executable_name()
    } else {
        p + "\\"@ + executable_name()
    }
}

pub fn riot_client_executable_candidate(path: &str) -> (r: String)
    ensures
        r@ == executable_candidate(path@),
{
    let p = normalize_riot_path(path);
    let start: usize = match rfind_char(p.as_slice(), '\\') {
        Some(k) => {
            assert(k < p.len());
            proof {
                let q = p@;
                let w = choose|w: int| 0 <= w < q.len() && q[w] == '\\' && forall|m: int| w < m < q.len() ==> q[m] != '\\';
                assert(w == k) by {
                    if w < k {
                    } else if w > k {
                    }
                }
            }
            k + 1
        },
        None => 0,
    };
    assert(start == file_name_start(p@));
    let name = slice_vec(p.as_slice(), start, p.len());
    let exe = chars_of("RiotClientServices.exe");
    let mut out = string_of(p.as_slice());
    if eq_ignore_ascii_case(name.as_slice(), exe.as_slice()) {
        return out;
    }
    if p.len() == 0 || p[p.len() - 1] != '\\' {
        push_str(&mut out, "\\");
    }
    push_str(&mut out, "RiotClientServices.exe");
    out
}

// ---------------------------------------------------------------------------
// Riot process names
// ---------------------------------------------------------------------------

/// The Riot Client and game processes that Ghosty stops and reports.
pub const RIOT_PROCESS_NAMES: [&'static str; 8] = [
    "LeagueClient",
    "LeagueClientUx",
    "LeagueClientUxRender",
    "LoR",
    "RiotClientCrashHandler",
    "VALORANT-Win64-Shipping",
    "RiotClientServices",
    "RiotClientUx",
];

pub open spec fn riot_process_names() -> Seq<Seq<char>> {
    seq![
        "LeagueClient"@,
        "LeagueClientUx"@,
        "LeagueClientUxRender"@,
        "LoR"@,
        "RiotClientCrashHandler"@,
        "VALORANT-Win64-Shipping"@,
        "RiotClientServices"@,
        "RiotClientUx"@,
    ]
}

fn riot_process_name(i: usize) -> (r: &'static str)
    requires
        i < 8,
    ensures
        r@ == riot_process_names()[i as int],
{
    if i == 0 {
        "LeagueClient"
    } else if i == 1 {
        "LeagueClientUx"
    } else if i == 2 {
        "LeagueClientUxRender"
    } else if i == 3 {
        "LoR"
    } else if i == 4 {
        "RiotClientCrashHandler"
    } else if i == 5 {
        "VALORANT-Win64-Shipping"
    } else if i == 6 {
        "RiotClientServices"
    } else {
        "RiotClientUx"
    }
}

/// The executable name matched for a process: lower case, with `.exe`.
pub open spec fn process_target(name: Seq<char>) -> Seq<char> {
    lower_seq(name) + ".exe"@
}

pub open spec fn riot_targets() -> Seq<Seq<char>> {
    riot_process_names().map_values(|n: Seq<char>| process_target(n))
}

/// The lower-case executable names of the Riot processes, in list order.
pub fn riot_process_targets() -> (r: Vec<String>)
    ensures
        views(r@) == riot_targets(),
{
    let mut r: Vec<String> = Vec::new();
    let mut i: usize = 0;
    while i < 8
        invariant
            i <= 8,
            views(r@) == riot_targets().take(i as int),
        decreases 8 - i,
    {
        let name = chars_of(riot_process_name(i));
        let mut t = string_of(lowercase(name.as_slice()).as_slice());
        push_str(&mut t, ".exe");
        assert(t@ == process_target(riot_process_names()[i as int]));
        assert(riot_targets()[i as int] == process_target(riot_process_names()[i as int]));
        let ghost prev = r@;
        r.push(t);
        assert(r@ == prev.push(t));
        assert(views(prev.push(t)) =~= views(prev).push(t@));
        assert(riot_targets().take(i + 1) =~= riot_targets().take(i as int).push(riot_targets()[i as int]));
        assert(views(r@) =~= riot_targets().take(i + 1));
        i += 1;
    }
    assert(riot_targets().take(8) =~= riot_targets());
    r
}

/// Whether a process name is one of the Riot executables, ignoring ASCII case.
pub open spec fn is_riot_process(name: Seq<char>) -> bool {
    exists|i: int| 0 <= i < 8 && riot_targets()[i] == lower_seq(name)
}

fn index_of_target(name: &str) -> (r: Option<usize>)
    ensures
        match r {
            Some(i) => i < 8 && riot_targets()[i as int] == lower_seq(name@),
            None => !is_riot_process(name@),
        },
{
    let targets = riot_process_targets();
    let normalized = lowercase(chars_of(name).as_slice());
    let mut i: usize = 0;
    assert(targets@.len() == views(targets@).len());
    while i < 8
        invariant
            i <= 8,
            targets@.len() == 8,
            views(targets@) == riot_targets(),
            normalized@ == lower_seq(name@),
            forall|k: int| 0 <= k < i ==> riot_targets()[k] != lower_seq(name@),
        decreases 8 - i,
    {
        let t = chars_of(targets[i].as_str());
        assert(views(targets@)[i as int] == targets@[i as int]@);
        assert(t@ == riot_targets()[i as int]);
        if seq_eq(t.as_slice(), normalized.as_slice()) {
            return Some(i);
        }
        i += 1;
    }
    None
}

/// Whether `name` is exactly one of the Riot executables, ignoring ASCII case.
pub fn process_name_matches_riot_target(name: &str) -> (r: bool)
    ensures
        r == is_riot_process(name@),
{
    index_of_target(name).is_some()
}

/// The Riot process names in sorted order, with their position in the list.
pub open spec fn sorted_riot_indices() -> Seq<int> {
    seq![0, 1, 2, 3, 4, 6, 7, 5]
}

/// Whether some running process is the Riot process at index `i`.
pub open spec fn is_running(running: Seq<Seq<char>>, i: int) -> bool {
    exists|k: int| 0 <= k < running.len() && lower_seq(#[trigger] running[k]) == riot_targets()[i]
}

/// The canonical names of the running Riot processes, sorted and without
/// duplicates.
pub open spec fn running_riot_names(running: Seq<Seq<char>>) -> Seq<Seq<char>> {
    sorted_riot_indices().filter(|i: int| is_running(running, i)).map_values(
        |i: int| riot_process_names()[i],
    )
}

/// From the names of all running processes, the Riot ones by their canonical
/// names, sorted and deduplicated.
pub fn running_riot_processes(process_names: &[String]) -> (r: Vec<String>)
    ensures
        views(r@) == running_riot_names(views(process_names@)),
{
    let targets = riot_process_targets();
    assert(targets@.len() == views(targets@).len());
    let mut found: Vec<bool> = Vec::new();
    let mut j: usize = 0;
    while j < 8
        invariant
            j <= 8,
            found@.len() == j,
            forall|k: int| 0 <= k < j ==> found@[k] == false,
        decreases 8 - j,
    {
        found.push(false);
        j += 1;
    }
    let mut p: usize = 0;
    while p < process_names.len()
        invariant
            p <= process_names@.len(),
            targets@.len() == 8,
            views(targets@) == riot_targets(),
            found@.len() == 8,
            forall|i: int|
                0 <= i < 8 ==> found@[i] == is_running(views(process_names@.take(p as int)), i),
        decreases process_names@.len() - p,
    {
        let ghost before = views(process_names@.take(p as int));
        let ghost after = views(process_names@.take(p + 1));
        assert(after =~= before.push(process_names@[p as int]@));
        let normalized = lowercase(chars_of(process_names[p].as_str()).as_slice());
        let mut t: usize = 0;
        while t < 8
            invariant
                t <= 8,
                targets@.len() == 8,
                views(targets@) == riot_targets(),
                found@.len() == 8,
                normalized@ == lower_seq(process_names@[p as int]@),
                after == before.push(process_names@[p as int]@),
                forall|i: int| 0 <= i < t ==> found@[i] == is_running(after, i),
                forall|i: int| t <= i < 8 ==> found@[i] == is_running(before, i),
            decreases 8 - t,
        {
            let tv = chars_of(targets[t].as_str());
            assert(views(targets@)[t as int] == targets@[t as int]@);
            let hit = seq_eq(tv.as_slice(), normalized.as_slice());
            let was = found[t];
            found.set(t, was || hit);
            proof {
                let i = t as int;
                if is_running(after, i) && !is_running(before, i) {
                    let k = choose|k: int| 0 <= k < after.len() && lower_seq(#[trigger] after[k]) == riot_targets()[i];
                    if k < before.len() {
                        assert(after[k] == before[k]);
                    }
                }
                if is_running(before, i) {
                    let k = choose|k: int| 0 <= k < before.len() && lower_seq(#[trigger] before[k]) == riot_targets()[i];
                    assert(after[k] == before[k]);
                }
                if hit {
                    assert(lower_seq(after[before.len() as int]) == riot_targets()[i]);
                }
            }
            t += 1;
        }
        p += 1;
    }
    assert(process_names@.take(process_names@.len() as int) =~= process_names@);
    let order: [usize; 8] = [0, 1, 2, 3, 4, 6, 7, 5];
    let ghost running = views(process_names@);
    let mut r: Vec<String> = Vec::new();
    let mut q: usize = 0;
    while q < 8
        invariant
            q <= 8,
            found@.len() == 8,
            order@ == seq![0usize, 1, 2, 3, 4, 6, 7, 5],
            forall|i: int| 0 <= i < 8 ==> found@[i] == is_running(running, i),
            views(r@) == sorted_riot_indices().take(q as int).filter(|i: int| is_running(running, i)).map_values(
                |i: int| riot_process_names()[i],
            ),
        decreases 8 - q,
    {
        let idx = order[q];
        let ghost prev = sorted_riot_indices().take(q as int);
        assert(sorted_riot_indices().take(q + 1) =~= prev.push(idx as int));
        assert(prev.push(idx as int).drop_last() =~= prev);
        let ghost pred = |i: int| is_running(running, i);
        let ghost f = |i: int| riot_process_names()[i];
        proof {
            prev.lemma_filter_push(idx as int, pred);
        }
        let ghost old_r = r@;
        if found[idx] {
            let name = riot_process_name(idx).to_owned();
            r.push(name);
            assert(r@ == old_r.push(name));
            assert(views(old_r.push(name)) =~= views(old_r).push(name@));
            assert(prev.filter(pred).push(idx as int).map_values(f) =~= prev.filter(pred).map_values(f).push(f(idx as int)));
        }
        assert(views(r@) =~= prev.push(idx as int).filter(pred).map_values(f));
        q += 1;
    }
    assert(sorted_riot_indices().take(8) =~= sorted_riot_indices());
    r
}

/// Where a Riot Client is installed when no install list names it.
pub open spec fn common_install_paths() -> Seq<Seq<char>> {
    seq![
        "C:\\Riot Games\\Riot Client\\RiotClientServices.exe"@,
        "D:\\Riot Games\\Riot Client\\RiotClientServices.exe"@,
        "B:\\Riot Games\\Riot Client\\RiotClientServices.exe"@,
        "E:\\Riot Games\\Riot Client\\RiotClientServices.exe"@,
        "F:\\Riot Games\\Riot Client\\RiotClientServices.exe"@,
    ]
}

pub fn riot_client_path_from_common_installs() -> (r: Vec<String>)
    ensures
        views(r@) == common_install_paths(),
{
    let mut r: Vec<String> = Vec::new();
    r.push("C:\\Riot Games\\Riot Client\\RiotClientServices.exe".to_owned());
    r.push("D:\\Riot Games\\Riot Client\\RiotClientServices.exe".to_owned());
    r.push("B:\\Riot Games\\Riot Client\\RiotClientServices.exe".to_owned());
    r.push("E:\\Riot Games\\Riot Client\\RiotClientServices.exe".to_owned());
    r.push("F:\\Riot Games\\Riot Client\\RiotClientServices.exe".to_owned());
    assert(views(r@) =~= common_install_paths());
    r
}

/// The first candidate that exists, in order.
pub open spec fn first_existing(candidates: Seq<(Seq<char>, bool)>) -> Option<Seq<char>>
    decreases candidates.len(),
{
    if candidates.len() == 0 {
        None
    } else if candidates[0].1 {
        Some(candidates[0].0)
    } else {
        first_existing(candidates.drop_first())
    }
}

pub open spec fn candidate_views(c: Seq<(String, bool)>) -> Seq<(Seq<char>, bool)> {
    c.map_values(|p: (String, bool)| (p.0@, p.1))
}

/// The Riot Client executable: the first candidate path, in the order the
/// install lists and common install folders give them, that exists.
pub fn riot_client_path(candidates: &[(String, bool)]) -> (r: Option<String>)
    ensures
        match r {
            Some(p) => first_existing(candidate_views(candidates@)) == Some(p@),
            None => first_existing(candidate_views(candidates@)).is_none(),
        },
{
    let mut i: usize = 0;
    assert(candidate_views(candidates@).skip(0) =~= candidate_views(candidates@));
    while i < candidates.len()
        invariant
            i <= candidates@.len(),
            first_existing(candidate_views(candidates@)) == first_existing(
                candidate_views(candidates@).skip(i as int),
            ),
        decreases candidates@.len() - i,
    {
        let ghost rest = candidate_views(candidates@).skip(i as int);
        assert(rest.drop_first() =~= candidate_views(candidates@).skip(i + 1));
        if candidates[i].1 {
            return Some(candidates[i].0.clone());
        }
        i += 1;
    }
    None
}

/// The Riot Client executable, or the error that explains where it was looked for.
pub fn ensure_riot_client(candidates: &[(String, bool)]) -> (r: Result<String, LaunchError>)
    ensures
        match r {
            Ok(p) => first_existing(candidate_views(candidates@)) == Some(p@),
            Err(e) => first_existing(candidate_views(candidates@)).is_none() && e
                == LaunchError::RiotClientNotFound,
        },
{
    match riot_client_path(candidates) {
        Some(p) => Ok(p),
        None => Err(LaunchError::RiotClientNotFound),
    }
}

// ---------------------------------------------------------------------------
// RiotClientInstalls.json
// ---------------------------------------------------------------------------

/// The string values of an object's members, in order.
pub open spec fn str_values(members: Seq<(Seq<char>, JsonView)>) -> Seq<Seq<char>>
    decreases members.len(),
{
    if members.len() == 0 {
        seq![]
    } else {
        str_values(members.drop_last()) + match members.last().1 {
            JsonView::Str(s) => seq![s],
            _ => seq![],
        }
    }
}

/// The string values of a member that is an object; none otherwise.
pub open spec fn object_str_values(v: Option<JsonView>) -> Seq<Seq<char>> {
    match v {
        Some(JsonView::Object(m)) => str_values(m),
        _ => seq![],
    }
}

/// A member that is a string, as a list of zero or one paths.
pub open spec fn str_member(config: JsonView, key: Seq<char>) -> Seq<Seq<char>> {
    match get(config, key) {
        Some(JsonView::Str(s)) => seq![s],
        _ => seq![],
    }
}

/// The install paths a `RiotClientInstalls.json` names, in the order they
/// are tried: `rc_default`, `rc_live`, `rc_beta`, then the `patchlines`,
/// then the `associated_client` entries.
pub open spec fn install_config_paths(config: JsonView) -> Seq<Seq<char>> {
    str_member(config, "rc_default"@) + str_member(config, "rc_live"@) + str_member(config, "rc_beta"@)
        + object_str_values(get(config, "patchlines"@)) + object_str_values(get(config, "associated_client"@))
}

fn push_candidate(out: &mut Vec<String>, v: Option<&JsonValue>)
    ensures
        views(final(out)@) == views(old(out)@) + match opt_json(v) {
            Some(JsonView::Str(s)) => seq![executable_candidate(s)],
            _ => seq![],
        },
{
    match v {
        Some(JsonValue::Str(s)) => {
            let ghost prev = out@;
            out.push(riot_client_executable_candidate(s.as_str()));
            assert(views(out@) =~= views(prev) + seq![executable_candidate(s@)]);
        },
        _ => {
            assert(views(out@) =~= views(out@) + Seq::<Seq<char>>::empty());
        },
    }
}

pub open spec fn opt_json(v: Option<&JsonValue>) -> Option<JsonView> {
    match v {
        Some(j) => Some(json_view(*j)),
        None => None,
    }
}

fn push_object_candidates(out: &mut Vec<String>, v: Option<&JsonValue>)
    ensures
        views(final(out)@) == views(old(out)@) + object_str_values(opt_json(v)).map_values(
            |p: Seq<char>| executable_candidate(p),
        ),
{
    match v {
        Some(JsonValue::Object(members)) => {
            let ghost m = members_view(members@);
            let ghost start = views(out@);
            proof {
                crate::json::lemma_members_view_len(members@);
            }
            let mut i: usize = 0;
            while i < members.len()
                invariant
                    i <= members@.len(),
                    m == members_view(members@),
                    m.len() == members@.len(),
                    views(out@) == start + str_values(m.take(i as int)).map_values(
                        |p: Seq<char>| executable_candidate(p),
                    ),
                decreases members@.len() - i,
            {
                proof {
                    lemma_members_view_index(members@, i as int);
                    assert(m.take(i + 1).drop_last() =~= m.take(i as int));
                }
                let ghost before = views(out@);
                push_candidate(out, Some(&members[i].1));
                assert(views(out@) =~= start + str_values(m.take(i + 1)).map_values(
                    |p: Seq<char>| executable_candidate(p),
                ));
                i += 1;
            }
            assert(m.take(members@.len() as int) =~= m);
        },
        _ => {
            assert(views(out@) =~= views(out@) + Seq::<Seq<char>>::empty());
        },
    }
}

/// The Riot Client executables a `RiotClientInstalls.json` points at, in the
/// order they are tried (see `install_config_paths`), each as
/// `riot_client_executable_candidate` makes it.
pub fn install_config_candidates(config: &JsonValue) -> (r: Vec<String>)
    ensures
        views(r@) == install_config_paths(config@).map_values(|p: Seq<char>| executable_candidate(p)),
{
    let mut out: Vec<String> = Vec::new();
    push_candidate(&mut out, config.get("rc_default"));
    push_candidate(&mut out, config.get("rc_live"));
    push_candidate(&mut out, config.get("rc_beta"));
    push_object_candidates(&mut out, config.get("patchlines"));
    push_object_candidates(&mut out, config.get("associated_client"));
    let ghost f = |p: Seq<char>| executable_candidate(p);
    let ghost c = config@;
    assert(views(out@) =~= install_config_paths(c).map_values(f));
    out
}

/// The Riot Client executables named by the bytes of a
/// `RiotClientInstalls.json` file (see `install_config_candidates`); none
/// where the bytes are not JSON.
pub fn install_config_candidates_from_bytes(bytes: &[u8]) -> (r: Vec<String>)
    ensures
        match json_parse(bytes@) {
            Some(v) => views(r@) == install_config_paths(v).map_values(|p: Seq<char>| executable_candidate(p)),
            None => r@.len() == 0,
        },
{
    match parse_json(bytes) {
        Some(config) => install_config_candidates(&config),
        None => Vec::new(),
    }
}

// ---------------------------------------------------------------------------
// Stopping the Riot processes
// ---------------------------------------------------------------------------

/// The error of a request to stop the Riot processes, from the names of
/// those that could not be stopped: sorted, each once, joined by `, `; none
/// where every one stopped.
pub open spec fn kill_failure_spec(failures: Seq<Seq<char>>) -> Option<Seq<char>> {
    if failures.len() == 0 {
        None
    } else {
        Some("Unable to stop Riot processes: "@ + comma_joined(tally_of(failures).map_values(
            |e: (Seq<char>, nat)| e.0,
        )))
    }
}

pub fn kill_failure_message(failures: &[String]) -> (r: Option<String>)
    ensures
        match r {
            Some(m) => kill_failure_spec(views(failures@)) == Some(m@),
            None => kill_failure_spec(views(failures@)) is None,
        },
{
    if failures.len() == 0 {
        return None;
    }
    let ghost kv = views(failures@);
    let mut t: Vec<(String, usize)> = Vec::new();
    let mut i: usize = 0;
    assert(tally_view(t@) =~= Seq::<(Seq<char>, nat)>::empty());
    while i < failures.len()
        invariant
            i <= failures@.len(),
            kv == views(failures@),
            tally_view(t@) == tally_of(kv.take(i as int)),
            counts_below(tally_view(t@), i as nat),
        decreases failures@.len() - i,
    {
        assert(kv.take(i + 1).drop_last() =~= kv.take(i as int));
        assert(kv[i as int] == failures@[i as int]@);
        proof {
            lemma_tally_insert_counts(tally_view(t@), failures@[i as int]@, i as nat);
            assert forall|m: int| 0 <= m < t@.len() implies t@[m].1 < usize::MAX by {
                assert(tally_view(t@)[m].1 == t@[m].1);
            }
        }
        tally_add(&mut t, failures[i].as_str());
        i += 1;
    }
    assert(kv.take(failures@.len() as int) =~= kv);
    let ghost names = tally_of(kv).map_values(|e: (Seq<char>, nat)| e.0);
    assert(names.len() == t@.len());
    let mut joined = String::new();
    let mut j: usize = 0;
    while j < t.len()
        invariant
            j <= t@.len(),
            names.len() == t@.len(),
            tally_view(t@) == tally_of(kv),
            names == tally_of(kv).map_values(|e: (Seq<char>, nat)| e.0),
            joined@ == comma_joined(names.take(j as int)),
        decreases t@.len() - j,
    {
        assert(names.take(j + 1).drop_last() =~= names.take(j as int));
        assert(names[j as int] == tally_view(t@)[j as int].0);
        if j > 0 {
            push_str(&mut joined, ", ");
        } else {
            assert(joined@ =~= Seq::<char>::empty());
        }
        push_str(&mut joined, t[j].0.as_str());
        j += 1;
    }
    assert(names.take(t@.len() as int) =~= names);
    Some(concat2("Unable to stop Riot processes: ", joined.as_str()))
}

} // verus!
