use hourglass::args::{parse_args, parse_date_value, parse_time_value, ArgError, ArgWarning, EnvVars, ParseOutcome};
use hourglass::clock::{CalendarDate, TimeOfDay};
use hourglass::theme::{dark_theme, light_theme};

fn argv(items: &[&str]) -> Vec<String> {
    let mut v = vec!["hourglass".to_string()];
    for s in items {
        v.push(s.to_string());
    }
    v
}

fn no_env() -> EnvVars {
    EnvVars { birth: None, lifespan: None, day_start: None, day_end: None, colorfgbg: None }
}

#[test]
fn parse_time_value_supports_hour_minute() {
    let parsed = parse_time_value("08:30").unwrap();
    assert_eq!(parsed, TimeOfDay::from_hms_opt(8, 30, 0).unwrap());
}

#[test]
fn parse_time_value_supports_seconds() {
    let parsed = parse_time_value("23:15:45").unwrap();
    assert_eq!(parsed, TimeOfDay::from_hms_opt(23, 15, 45).unwrap());
}

#[test]
fn parse_time_value_rejects_invalid_input() {
    assert!(parse_time_value("25:00").is_none());
}

#[test]
fn help_wins_over_everything() {
    match parse_args(&argv(&["--bogus", "-h"]), &no_env()) {
        ParseOutcome::Help => {}
        _ => panic!("expected help"),
    }
}

#[test]
fn unknown_argument_is_refused() {
    match parse_args(&argv(&["-w", "--bogus"]), &no_env()) {
        ParseOutcome::Fail(ArgError::UnknownArgument(a)) => assert_eq!(a, "--bogus"),
        _ => panic!("expected unknown argument"),
    }
}

#[test]
fn value_flag_without_value_is_refused() {
    match parse_args(&argv(&["--birth"]), &no_env()) {
        ParseOutcome::Fail(ArgError::MissingValue(a)) => assert_eq!(a, "--birth"),
        _ => panic!("expected missing value"),
    }
    match parse_args(&argv(&["--theme", "-w"]), &no_env()) {
        ParseOutcome::Fail(ArgError::MissingValue(a)) => assert_eq!(a, "--theme"),
        _ => panic!("expected missing value"),
    }
}

#[test]
fn unknown_theme_is_refused() {
    match parse_args(&argv(&["--theme", "blue"]), &no_env()) {
        ParseOutcome::Fail(ArgError::UnknownTheme(t)) => assert_eq!(t, "blue"),
        _ => panic!("expected unknown theme"),
    }
}

#[test]
fn defaults_without_arguments() {
    match parse_args(&argv(&[]), &no_env()) {
        ParseOutcome::Run(args, warnings) => {
            assert!(!args.watch);
            assert_eq!(args.theme, dark_theme());
            assert!(args.birth.is_none());
            assert_eq!(args.lifespan, 80);
            assert_eq!(args.day_start.num_seconds_from_midnight(), 0);
            assert_eq!(args.day_end.num_seconds_from_midnight(), 0);
            assert!(warnings.is_empty());
        }
        _ => panic!("expected settings"),
    }
}

#[test]
fn flags_take_priority_over_environment() {
    let env = EnvVars {
        birth: Some("1970-01-01".to_string()),
        lifespan: Some("70".to_string()),
        day_start: Some("06:00".to_string()),
        day_end: Some("22:00".to_string()),
        colorfgbg: Some("0;15".to_string()),
    };
    let raw = argv(&["-w", "--birth", "1990-06-15", "--lifespan", "85", "--day-start", "08:00:30", "--theme", "dark"]);
    match parse_args(&raw, &env) {
        ParseOutcome::Run(args, warnings) => {
            assert!(args.watch);
            assert_eq!(args.theme, dark_theme());
            assert_eq!(args.birth, CalendarDate::from_ymd_opt(1990, 6, 15));
            assert_eq!(args.lifespan, 85);
            assert_eq!(args.day_start.num_seconds_from_midnight(), 8 * 3600 + 30);
            assert_eq!(args.day_end.num_seconds_from_midnight(), 22 * 3600);
            assert!(warnings.is_empty());
        }
        _ => panic!("expected settings"),
    }
}

#[test]
fn environment_is_used_when_flags_are_absent() {
    let env = EnvVars {
        birth: Some("2000-02-29".to_string()),
        lifespan: Some("+90".to_string()),
        day_start: None,
        day_end: None,
        colorfgbg: Some("15;0".to_string()),
    };
    match parse_args(&argv(&["--theme", "auto"]), &env) {
        ParseOutcome::Run(args, _) => {
            assert_eq!(args.theme, dark_theme());
            assert_eq!(args.birth, CalendarDate::from_ymd_opt(2000, 2, 29));
            assert_eq!(args.lifespan, 90);
        }
        _ => panic!("expected settings"),
    }
}

#[test]
fn light_theme_from_colorfgbg() {
    let env = EnvVars { colorfgbg: Some("0;15".to_string()), ..no_env() };
    match parse_args(&argv(&[]), &env) {
        ParseOutcome::Run(args, _) => assert_eq!(args.theme, light_theme()),
        _ => panic!("expected settings"),
    }
    match parse_args(&argv(&["--theme", "light"]), &no_env()) {
        ParseOutcome::Run(args, _) => assert_eq!(args.theme, light_theme()),
        _ => panic!("expected settings"),
    }
}

#[test]
fn unreadable_values_fall_back() {
    let raw = argv(&["--birth", "yesterday", "--lifespan", "many", "--day-start", "8am", "--day-end", "24:00"]);
    match parse_args(&raw, &no_env()) {
        ParseOutcome::Run(args, warnings) => {
            assert!(args.birth.is_none());
            assert_eq!(args.lifespan, 80);
            assert_eq!(args.day_start.num_seconds_from_midnight(), 0);
            assert_eq!(args.day_end.num_seconds_from_midnight(), 0);
            assert_eq!(
                warnings,
                vec![
                    ArgWarning::InvalidDayStart("8am".to_string()),
                    ArgWarning::InvalidDayEnd("24:00".to_string())
                ]
            );
        }
        _ => panic!("expected settings"),
    }
}

#[test]
fn lifespan_out_of_range_uses_default() {
    match parse_args(&argv(&["--lifespan", "4294967296"]), &no_env()) {
        ParseOutcome::Run(args, _) => assert_eq!(args.lifespan, 80),
        _ => panic!("expected settings"),
    }
    match parse_args(&argv(&["--lifespan", "4294967295"]), &no_env()) {
        ParseOutcome::Run(args, _) => assert_eq!(args.lifespan, 4294967295),
        _ => panic!("expected settings"),
    }
}

#[test]
fn birth_dates_parse_like_chrono() {
    assert_eq!(parse_date_value("1990-06-15"), CalendarDate::from_ymd_opt(1990, 6, 15));
    assert_eq!(parse_date_value("1990-02-30"), None);
    assert_eq!(parse_date_value("15.06.1990"), None);
}

#[test]
fn times_parse_like_chrono() {
    assert_eq!(parse_time_value("7:15"), TimeOfDay::from_hms_opt(7, 15, 0));
    assert_eq!(parse_time_value("00:00"), TimeOfDay::from_hms_opt(0, 0, 0));
    assert!(parse_time_value("12:60").is_none());
    assert!(parse_time_value("noon").is_none());
}
