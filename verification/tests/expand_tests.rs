use reclaim::expand::expand_percent_env;

fn env() -> Vec<(String, String)> {
    vec![
        (String::from("TEMP"), String::from("/tmp/t")),
        (String::from("LOCALAPPDATA"), String::from("/home/u/.local")),
        (String::from("EMPTYVAL"), String::from("")),
    ]
}

#[test]
fn expands_a_bound_placeholder() {
    assert_eq!(expand_percent_env("%TEMP%/cache", &env()), "/tmp/t/cache");
}

#[test]
fn expands_in_the_middle() {
    assert_eq!(expand_percent_env("a/%TEMP%/b", &env()), "a//tmp/t/b");
}

#[test]
fn leaves_an_unbound_placeholder_untouched() {
    assert_eq!(expand_percent_env("%NOPE%/x", &env()), "%NOPE%/x");
}

#[test]
fn collapses_double_percent_to_one() {
    assert_eq!(expand_percent_env("100%%", &env()), "100%");
}

#[test]
fn keeps_a_lone_trailing_percent() {
    assert_eq!(expand_percent_env("50%", &env()), "50%");
}

#[test]
fn looks_up_an_unclosed_trailing_name() {
    assert_eq!(expand_percent_env("go %TEMP", &env()), "go /tmp/t");
    assert_eq!(expand_percent_env("go %NOPE", &env()), "go %NOPE%");
}

#[test]
fn expands_an_empty_valued_variable_to_nothing() {
    assert_eq!(expand_percent_env("x%EMPTYVAL%y", &env()), "xy");
}

#[test]
fn empty_input_stays_empty() {
    assert_eq!(expand_percent_env("", &env()), "");
}

#[test]
fn plain_text_passes_through() {
    assert_eq!(expand_percent_env("C:\\Windows\\Temp", &env()), "C:\\Windows\\Temp");
}

#[test]
fn expands_two_placeholders() {
    assert_eq!(
        expand_percent_env("%TEMP%:%LOCALAPPDATA%", &env()),
        "/tmp/t:/home/u/.local"
    );
}
