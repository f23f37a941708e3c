//! Command-line arguments and environment settings: which flags exist, how their values are
//! found, and what each setting becomes (flags take priority over environment variables).

use vstd::prelude::*;
use crate::clock::{
    chrono_date_parse, chrono_time_parse, naive_date_parse, naive_time_parse, CalendarDate,
    TimeOfDay,
};
use crate::text::{
    decimal, is_text, lemma_parse_decimal, parse_unsigned, parse_unsigned_decimal, starts_with_char,
};
use crate::theme::{dark_palette, dark_theme, detect_theme, detected_palette, light_palette, light_theme, Theme};

verus! {

/// The settings of one run.
pub struct Args {
    pub watch: bool,
    pub theme: Theme,
    pub birth: Option<CalendarDate>,
    pub lifespan: u32,
    pub day_start: TimeOfDay,
    pub day_end: TimeOfDay,
}

/// The environment variables that the settings may come from (`None` when unset).
pub struct EnvVars {
    /// `HOURGLASS_BIRTH`
    pub birth: Option<String>,
    /// `HOURGLASS_LIFESPAN`
    pub lifespan: Option<String>,
    /// `HOURGLASS_DAY_START`
    pub day_start: Option<String>,
    /// `HOURGLASS_DAY_END`
    pub day_end: Option<String>,
    /// `COLORFGBG`
    pub colorfgbg: Option<String>,
}

/// Why the arguments are refused.
#[derive(PartialEq, Eq, Debug)]
pub enum ArgError {
    /// A flag that takes a value has none (the flag is given).
    MissingValue(String),
    /// An argument that is no known flag (the argument is given).
    UnknownArgument(String),
    /// A `--theme` value other than `dark`, `light` or `auto` (the value is given).
    UnknownTheme(String),
}

/// A setting that could not be read and fell back to midnight.
#[derive(PartialEq, Eq, Debug)]
pub enum ArgWarning {
    InvalidDayStart(String),
    InvalidDayEnd(String),
}

/// What the arguments ask for.
pub enum ParseOutcome {
    /// `--help` or `-h` was given: show the help text.
    Help,
    /// The arguments are refused.
    Fail(ArgError),
    /// Run with these settings, after reporting the warnings.
    Run(Args, Vec<ArgWarning>),
}

pub open spec fn is_help_flag(a: Seq<char>) -> bool {
    a == "--help"@ || a == "-h"@
}

pub open spec fn is_watch_flag(a: Seq<char>) -> bool {
    a == "--watch"@ || a == "-w"@
}

/// Flags that take the next argument as their value.
pub open spec fn is_value_flag(a: Seq<char>) -> bool {
    a == "--theme"@ || a == "--birth"@ || a == "--lifespan"@ || a == "--day-start"@ || a
        == "--day-end"@
}

pub open spec fn is_known_flag(a: Seq<char>) -> bool {
    is_value_flag(a) || is_watch_flag(a) || is_help_flag(a)
}

pub open spec fn starts_with_dash(a: Seq<char>) -> bool {
    a.len() > 0 && a[0] == '-'
}

pub open spec fn help_requested(raw: Seq<Seq<char>>) -> bool {
    exists|i: int| 0 <= i < raw.len() && is_help_flag(#[trigger] raw[i])
}

pub open spec fn watch_requested(raw: Seq<Seq<char>>) -> bool {
    exists|i: int| 0 <= i < raw.len() && is_watch_flag(#[trigger] raw[i])
}

/// Scanning the arguments from position `i`: the first one that is refused, as (whether it is
/// a value flag without a value, its position). A value flag takes the next argument as its
/// value unless that argument starts with `-`.
pub open spec fn first_bad_arg(raw: Seq<Seq<char>>, i: int) -> Option<(bool, int)>
    decreases raw.len() - i,
{
    if i < 0 || i >= raw.len() {
        None
    } else if is_value_flag(raw[i]) {
        if i + 1 >= raw.len() || starts_with_dash(raw[i + 1]) {
            Some((true, i))
        } else {
            first_bad_arg(raw, i + 2)
        }
    } else if !is_known_flag(raw[i]) {
        Some((false, i))
    } else {
        first_bad_arg(raw, i + 1)
    }
}

proof fn lemma_first_bad_arg_in_range(raw: Seq<Seq<char>>, i: int)
    ensures
        first_bad_arg(raw, i) matches Some((_, k)) ==> i <= k < raw.len(),
    decreases raw.len() - i,
{
    if 0 <= i < raw.len() {
        if is_value_flag(raw[i]) {
            if !(i + 1 >= raw.len() || starts_with_dash(raw[i + 1])) {
                lemma_first_bad_arg_in_range(raw, i + 2);
            }
        } else if is_known_flag(raw[i]) {
            lemma_first_bad_arg_in_range(raw, i + 1);
        }
    }
}

/// The argument after the first occurrence of `flag` from position `i` on that has one.
pub open spec fn flag_value_from(raw: Seq<Seq<char>>, flag: Seq<char>, i: int) -> Option<Seq<char>>
    decreases raw.len() - i,
{
    if i < 0 || i + 1 >= raw.len() {
        None
    } else if raw[i] == flag {
        Some(raw[i + 1])
    } else {
        flag_value_from(raw, flag, i + 1)
    }
}

pub open spec fn flag_value(raw: Seq<Seq<char>>, flag: Seq<char>) -> Option<Seq<char>> {
    flag_value_from(raw, flag, 0)
}

/// The value of `flag` among the arguments, else the environment value.
pub open spec fn resolved(raw: Seq<Seq<char>>, flag: Seq<char>, env: Option<Seq<char>>) -> Option<
    Seq<char>,
> {
    match flag_value(raw, flag) {
        Some(v) => Some(v),
        None => env,
    }
}

pub open spec fn theme_value_known(v: Seq<char>) -> bool {
    v == "dark"@ || v == "light"@ || v == "auto"@
}

/// The palette asked for by the `--theme` value, if any; `auto` and no value detect it from
/// `COLORFGBG`.
pub open spec fn chosen_theme(v: Option<Seq<char>>, colorfgbg: Option<Seq<char>>) -> Theme {
    match v {
        Some(s) => if s == "dark"@ {
            dark_palette()
        } else if s == "light"@ {
            light_palette()
        } else {
            detected_palette(colorfgbg)
        },
        None => detected_palette(colorfgbg),
    }
}

/// A time of day written `HH:MM`, else `HH:MM:SS`, as seconds since midnight.
pub open spec fn time_value_of(v: Seq<char>) -> Option<int> {
    match chrono_time_parse(v, "%H:%M"@) {
        Some(x) => Some(x),
        None => chrono_time_parse(v, "%H:%M:%S"@),
    }
}

/// Seconds since midnight of a day-window bound: midnight when unset or unreadable.
pub open spec fn day_bound_secs(v: Option<Seq<char>>) -> int {
    match v {
        Some(s) => match time_value_of(s) {
            Some(x) => x,
            None => 0,
        },
        None => 0,
    }
}

/// A lifespan in years: 80 when unset or unreadable.
pub open spec fn lifespan_of(v: Option<Seq<char>>) -> int {
    match v {
        Some(s) => match parse_unsigned(s, 4294967295) {
            Some(n) => n as int,
            None => 80,
        },
        None => 80,
    }
}

/// `b` is the birth date read from `v` (none when unset or unreadable).
pub open spec fn birth_is(b: Option<CalendarDate>, v: Option<Seq<char>>) -> bool {
    match v {
        Some(s) => match chrono_date_parse(s, "%Y-%m-%d"@) {
            Some(t) => b matches Some(d) && (d.y(), d.m(), d.d()) == t,
            None => b is None,
        },
        None => b is None,
    }
}

/// A warning as (whether it is about the day start, the value that could not be read).
pub open spec fn warning_view(w: ArgWarning) -> (bool, Seq<char>) {
    match w {
        ArgWarning::InvalidDayStart(s) => (true, s@),
        ArgWarning::InvalidDayEnd(s) => (false, s@),
    }
}

/// The warnings for the two day-window bounds, start first.
pub open spec fn expected_warnings(start: Option<Seq<char>>, end: Option<Seq<char>>) -> Seq<
    (bool, Seq<char>),
> {
    (match start {
        Some(s) => if time_value_of(s) is None { seq![(true, s)] } else { Seq::empty() },
        None => Seq::empty(),
    }) + (match end {
        Some(s) => if time_value_of(s) is None { seq![(false, s)] } else { Seq::empty() },
        None => Seq::empty(),
    })
}

/// An error as (kind: 0 missing value, 1 unknown argument, 2 unknown theme; the text).
pub open spec fn error_view(e: ArgError) -> (int, Seq<char>) {
    match e {
        ArgError::MissingValue(s) => (0, s@),
        ArgError::UnknownArgument(s) => (1, s@),
        ArgError::UnknownTheme(s) => (2, s@),
    }
}

/// `r` is what the arguments `raw` (with the program name first) and the environment `env`
/// ask for: help if asked anywhere; else the first refused argument; else a refused theme;
/// else the settings.
pub open spec fn outcome_is(raw: Seq<Seq<char>>, env: EnvVars, r: ParseOutcome) -> bool {
    if help_requested(raw) {
        r is Help
    } else {
        match first_bad_arg(raw, 1) {
            Some((missing, k)) => r matches ParseOutcome::Fail(e) && error_view(e) == (
                if missing { 0int } else { 1int },
                raw[k],
            ),
            None => match flag_value(raw, "--theme"@) {
                Some(v) if !theme_value_known(v) => r matches ParseOutcome::Fail(e) && error_view(
                    e,
                ) == (2int, v),
                _ => settings_are(raw, env, r),
            },
        }
    }
}

/// `r` runs with the settings that `raw` and `env` give.
pub open spec fn settings_are(raw: Seq<Seq<char>>, env: EnvVars, r: ParseOutcome) -> bool {
    let start = resolved(raw, "--day-start"@, env.day_start.deep_view());
    let end = resolved(raw, "--day-end"@, env.day_end.deep_view());
    &&& r matches ParseOutcome::Run(args, warnings)
    &&& args.watch == watch_requested(raw)
    &&& args.theme == chosen_theme(flag_value(raw, "--theme"@), env.colorfgbg.deep_view())
    &&& birth_is(args.birth, resolved(raw, "--birth"@, env.birth.deep_view()))
    &&& args.lifespan == lifespan_of(resolved(raw, "--lifespan"@, env.lifespan.deep_view()))
    &&& args.day_start.secs() == day_bound_secs(start)
    &&& args.day_end.secs() == day_bound_secs(end)
    &&& warnings@.map_values(|w: ArgWarning| warning_view(w)) == expected_warnings(start, end)
}

/// A flag's value, when the arguments give one, wins over the environment variable, which is
/// used only when the flag is absent.
pub proof fn lemma_flag_takes_priority(raw: Seq<Seq<char>>, flag: Seq<char>, env: Option<Seq<char>>)
    ensures
        flag_value(raw, flag) matches Some(v) ==> resolved(raw, flag, env) == Some(v),
        flag_value(raw, flag) is None ==> resolved(raw, flag, env) == env,
{
}

/// Help is asked for exactly when some argument is `--help` or `-h`, and the live view exactly
/// when some argument is `--watch` or `-w`.
pub proof fn lemma_flag_spellings(raw: Seq<Seq<char>>)
    ensures
        help_requested(raw) <==> exists|i: int|
            0 <= i < raw.len() && (#[trigger] raw[i] == "--help"@ || raw[i] == "-h"@),
        watch_requested(raw) <==> exists|i: int|
            0 <= i < raw.len() && (#[trigger] raw[i] == "--watch"@ || raw[i] == "-w"@),
{
    if help_requested(raw) {
        let i = choose|i: int| 0 <= i < raw.len() && is_help_flag(#[trigger] raw[i]);
        assert(raw[i] == "--help"@ || raw[i] == "-h"@);
    }
    if exists|i: int| 0 <= i < raw.len() && (#[trigger] raw[i] == "--help"@ || raw[i] == "-h"@) {
        let i = choose|i: int| 0 <= i < raw.len() && (#[trigger] raw[i] == "--help"@ || raw[i] == "-h"@);
        assert(is_help_flag(raw[i]));
    }
    if watch_requested(raw) {
        let i = choose|i: int| 0 <= i < raw.len() && is_watch_flag(#[trigger] raw[i]);
        assert(raw[i] == "--watch"@ || raw[i] == "-w"@);
    }
    if exists|i: int| 0 <= i < raw.len() && (#[trigger] raw[i] == "--watch"@ || raw[i] == "-w"@) {
        let i = choose|i: int|
            0 <= i < raw.len() && (#[trigger] raw[i] == "--watch"@ || raw[i] == "-w"@);
        assert(is_watch_flag(raw[i]));
    }
}

/// `--theme dark` and `--theme light` pick their palette whatever the terminal says, and
/// `--theme auto` picks the same palette as no `--theme` at all: the one detected from
/// `COLORFGBG`.
pub proof fn lemma_theme_choice(colorfgbg: Option<Seq<char>>)
    ensures
        chosen_theme(Some("dark"@), colorfgbg) == dark_palette(),
        chosen_theme(Some("light"@), colorfgbg) == light_palette(),
        chosen_theme(Some("auto"@), colorfgbg) == detected_palette(colorfgbg),
        chosen_theme(None, colorfgbg) == detected_palette(colorfgbg),
        chosen_theme(Some("auto"@), colorfgbg) == chosen_theme(None, colorfgbg),
{
    reveal_strlit("dark");
    reveal_strlit("light");
    reveal_strlit("auto");
    assert("auto"@ != "dark"@) by {
        assert("auto"@[0] != "dark"@[0]);
    }
    assert("auto"@ != "light"@) by {
        assert("auto"@.len() != "light"@.len());
    }
}

/// Each of `--theme`, `--birth`, `--lifespan`, `--day-start` and `--day-end` takes the next
/// argument as its value: followed by a value it is accepted and gives that value, and at the
/// end of the arguments it is refused for its missing value. `--watch`, `-w`, `--help` and `-h`
/// stand alone.
pub proof fn lemma_flag_arity(prog: Seq<char>, f: Seq<char>, v: Seq<char>)
    requires
        f != prog,
    ensures
        (f == "--theme"@ || f == "--birth"@ || f == "--lifespan"@ || f == "--day-start"@ || f
            == "--day-end"@) ==> ({
            &&& !starts_with_dash(v) ==> first_bad_arg(seq![prog, f, v], 1) is None
            &&& !starts_with_dash(v) ==> flag_value(seq![prog, f, v], f) == Some(v)
            &&& first_bad_arg(seq![prog, f], 1) == Some((true, 1int))
        }),
        (f == "--watch"@ || f == "-w"@ || f == "--help"@ || f == "-h"@) ==> first_bad_arg(
            seq![prog, f],
            1,
        ) is None,
{
    let r3 = seq![prog, f, v];
    let r2 = seq![prog, f];
    assert(r3[1] == f && r3[2] == v && r3[0] == prog);
    assert(r2[1] == f);
    assert(flag_value_from(r3, f, 2) is None);
    assert(flag_value_from(r3, f, 1) == Some(v));
    assert(flag_value_from(r3, f, 0) == Some(v));
    assert(first_bad_arg(r3, 3) is None);
    assert(first_bad_arg(r2, 2) is None);
    reveal_strlit("--watch");
    reveal_strlit("-w");
    reveal_strlit("--help");
    reveal_strlit("-h");
    reveal_strlit("--theme");
    reveal_strlit("--birth");
    reveal_strlit("--lifespan");
    reveal_strlit("--day-start");
    reveal_strlit("--day-end");
    if f == "--watch"@ || f == "-w"@ || f == "--help"@ || f == "-h"@ {
        assert("--watch"@[2] != "--theme"@[2]);
        assert("--watch"@[2] != "--birth"@[2]);
        assert(!is_value_flag(f));
    }
}

/// Unset, the lifespan is 80 years and the day bounds are midnight; a lifespan written as a
/// decimal number is that many years when it fits in 32 bits, and 80 otherwise.
pub proof fn lemma_setting_values(n: nat)
    ensures
        lifespan_of(None) == 80,
        n <= 4294967295 ==> lifespan_of(Some(decimal(n))) == n,
        n > 4294967295 ==> lifespan_of(Some(decimal(n))) == 80,
        day_bound_secs(None) == 0,
{
    lemma_parse_decimal(n, 4294967295);
}

/// Time of day at midnight.
pub fn midnight() -> (r: TimeOfDay)
    ensures
        r.secs() == 0,
{
    TimeOfDay::from_hms_opt(0, 0, 0).unwrap()
}

/// Parses a time of day written `HH:MM` or `HH:MM:SS` (the first form is tried first).
pub fn parse_time_value(value: &str) -> (r: Option<TimeOfDay>)
    ensures
        match time_value_of(value@) {
            Some(x) => r matches Some(t) && t.secs() == x,
            None => r is None,
        },
{
    match naive_time_parse(value, "%H:%M") {
        Some(t) => Some(t),
        None => naive_time_parse(value, "%H:%M:%S"),
    }
}

/// Parses a calendar date written `YYYY-MM-DD`.
pub fn parse_date_value(value: &str) -> (r: Option<CalendarDate>)
    ensures
        birth_is(r, Some(value@)),
{
    naive_date_parse(value, "%Y-%m-%d")
}

fn is_value_flag_arg(a: &String) -> (r: bool)
    ensures
        r == is_value_flag(a@),
{
    is_text(a, "--theme") || is_text(a, "--birth") || is_text(a, "--lifespan") || is_text(
        a,
        "--day-start",
    ) || is_text(a, "--day-end")
}

fn is_known_flag_arg(a: &String) -> (r: bool)
    ensures
        r == is_known_flag(a@),
{
    is_value_flag_arg(a) || is_text(a, "--watch") || is_text(a, "-w") || is_text(a, "--help")
        || is_text(a, "-h")
}

/// Whether some argument is `a` or `b`.
fn any_arg_is(raw: &Vec<String>, a: &str, b: &str) -> (r: bool)
    ensures
        r == exists|i: int|
            0 <= i < raw.len() && (#[trigger] raw.deep_view()[i] == a@ || raw.deep_view()[i] == b@),
{
    let mut i: usize = 0;
    while i < raw.len()
        invariant
            i <= raw.len(),
            forall|j: int|
                0 <= j < i ==> !(#[trigger] raw.deep_view()[j] == a@ || raw.deep_view()[j] == b@),
        decreases raw.len() - i,
    {
        if is_text(&raw[i], a) || is_text(&raw[i], b) {
            assert(raw.deep_view()[i as int] == raw@[i as int]@);
            return true;
        }
        i = i + 1;
    }
    false
}

/// The first refused argument after the program name, as (whether it is a value flag without
/// a value, its position).
fn find_bad_argument(raw: &Vec<String>) -> (r: Option<(bool, usize)>)
    ensures
        match r {
            Some((m, k)) => first_bad_arg(raw.deep_view(), 1) == Some((m, k as int)) && 1 <= k
                < raw.len(),
            None => first_bad_arg(raw.deep_view(), 1) is None,
        },
{
    let ghost rv = raw.deep_view();
    proof {
        lemma_first_bad_arg_in_range(rv, 1);
    }
    let mut i: usize = 1;
    while i < raw.len()
        invariant
            rv == raw.deep_view(),
            1 <= i <= raw.len() + 1,
            first_bad_arg(rv, 1) matches Some((_, k)) ==> 1 <= k < raw.len(),
            first_bad_arg(rv, 1) == first_bad_arg(rv, i as int),
        decreases raw.len() + 1 - i,
    {
        assert(rv[i as int] == raw@[i as int]@);
        if is_value_flag_arg(&raw[i]) {
            if i + 1 >= raw.len() || starts_with_char(raw[i + 1].as_str(), '-') {
                return Some((true, i));
            }
            i = i + 2;
        } else if !is_known_flag_arg(&raw[i]) {
            return Some((false, i));
        } else {
            i = i + 1;
        }
    }
    None
}

/// Position of the value of the first occurrence of `flag` that has one.
fn flag_value_index(raw: &Vec<String>, flag: &str) -> (r: Option<usize>)
    ensures
        match flag_value(raw.deep_view(), flag@) {
            Some(v) => r matches Some(k) && 0 < k < raw.len() && raw.deep_view()[k as int] == v,
            None => r is None,
        },
{
    let ghost rv = raw.deep_view();
    let mut i: usize = 0;
    while raw.len() - i > 1
        invariant
            rv == raw.deep_view(),
            i <= raw.len(),
            flag_value(rv, flag@) == flag_value_from(rv, flag@, i as int),
        decreases raw.len() - i,
    {
        assert(rv[i as int] == raw@[i as int]@);
        if is_text(&raw[i], flag) {
            return Some(i + 1);
        }
        i = i + 1;
    }
    None
}

/// The value of `flag` among the arguments, else the environment value.
fn resolve(raw: &Vec<String>, flag: &str, env: &Option<String>) -> (r: Option<String>)
    ensures
        r.deep_view() == resolved(raw.deep_view(), flag@, env.deep_view()),
{
    match flag_value_index(raw, flag) {
        Some(k) => Some(raw[k].clone()),
        None => match env {
            Some(s) => Some(s.clone()),
            None => None,
        },
    }
}

/// Reads the settings from the arguments `raw` (the program name first) and the environment.
/// `--help`/`-h` anywhere asks for the help text; otherwise each argument after the program
/// name must be a known flag, and each of `--theme`, `--birth`, `--lifespan`, `--day-start`,
/// `--day-end` must be followed by a value that does not start with `-`. A flag value takes
/// priority over the environment variable; an unreadable birth date means none, an unreadable
/// lifespan means 80 years, and an unreadable day bound means midnight (with a warning).
pub fn parse_args(raw: &Vec<String>, env: &EnvVars) -> (r: ParseOutcome)
    ensures
        outcome_is(raw.deep_view(), *env, r),
        (exists|i: int|
            0 <= i < raw.len() && (#[trigger] raw.deep_view()[i] == "--help"@ || raw.deep_view()[i]
                == "-h"@)) ==> r is Help,
        r matches ParseOutcome::Run(args, _) ==> (args.watch <==> exists|i: int|
            0 <= i < raw.len() && (#[trigger] raw.deep_view()[i] == "--watch"@ || raw.deep_view()[i]
                == "-w"@)),
        r matches ParseOutcome::Run(args, _) ==> ({
            let c = env.colorfgbg.deep_view();
            &&& flag_value(raw.deep_view(), "--theme"@) == Some("auto"@) ==> args.theme
                == detected_palette(c)
            &&& flag_value(raw.deep_view(), "--theme"@) is None ==> args.theme == detected_palette(c)
            &&& flag_value(raw.deep_view(), "--theme"@) == Some("dark"@) ==> args.theme
                == dark_palette()
            &&& flag_value(raw.deep_view(), "--theme"@) == Some("light"@) ==> args.theme
                == light_palette()
        }),
{
    let ghost rv = raw.deep_view();
    proof {
        lemma_flag_spellings(rv);
        lemma_theme_choice(env.colorfgbg.deep_view());
    }
    if any_arg_is(raw, "--help", "-h") {
        return ParseOutcome::Help;
    }
    assert(!help_requested(rv)) by {
        if help_requested(rv) {
            let i = choose|i: int| 0 <= i < rv.len() && is_help_flag(#[trigger] rv[i]);
            assert(rv[i] == "--help"@ || rv[i] == "-h"@);
        }
    }
    match find_bad_argument(raw) {
        Some((missing, k)) => {
            let arg = raw[k].clone();
            assert(rv[k as int] == raw@[k as int]@);
            if missing {
                return ParseOutcome::Fail(ArgError::MissingValue(arg));
            } else {
                return ParseOutcome::Fail(ArgError::UnknownArgument(arg));
            }
        },
        None => {},
    }
    let watch = any_arg_is(raw, "--watch", "-w");
    let colorfgbg: Option<&str> = match &env.colorfgbg {
        Some(s) => Some(s.as_str()),
        None => None,
    };
    let theme = match flag_value_index(raw, "--theme") {
        Some(k) => {
            let v = &raw[k];
            assert(rv[k as int] == raw@[k as int]@);
            if is_text(v, "dark") {
                dark_theme()
            } else if is_text(v, "light") {
                light_theme()
            } else if is_text(v, "auto") {
                detect_theme(colorfgbg)
            } else {
                return ParseOutcome::Fail(ArgError::UnknownTheme(v.clone()));
            }
        },
        None => detect_theme(colorfgbg),
    };

    let birth = match resolve(raw, "--birth", &env.birth) {
        Some(s) => parse_date_value(s.as_str()),
        None => None,
    };

    let lifespan = match resolve(raw, "--lifespan", &env.lifespan) {
        Some(s) => match parse_unsigned_decimal(s.as_str(), 4294967295) {
            Some(n) => n,
            None => 80,
        },
        None => 80,
    };

    let mut warnings: Vec<ArgWarning> = Vec::new();
    let start_value = resolve(raw, "--day-start", &env.day_start);
    let day_start = match &start_value {
        Some(s) => match parse_time_value(s.as_str()) {
            Some(t) => t,
            None => {
                warnings.push(ArgWarning::InvalidDayStart(s.clone()));
                midnight()
            },
        },
        None => midnight(),
    };
    let ghost after_start = warnings@;
    let end_value = resolve(raw, "--day-end", &env.day_end);
    let day_end = match &end_value {
        Some(s) => match parse_time_value(s.as_str()) {
            Some(t) => t,
            None => {
                warnings.push(ArgWarning::InvalidDayEnd(s.clone()));
                midnight()
            },
        },
        None => midnight(),
    };
    let args = Args { watch, theme, birth, lifespan, day_start, day_end };
    assert(warnings@.map_values(|w: ArgWarning| warning_view(w)) =~= expected_warnings(
        start_value.deep_view(),
        end_value.deep_view(),
    ));
    ParseOutcome::Run(args, warnings)
}

} // verus!
