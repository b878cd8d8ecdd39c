use load_thing::helpers::ansi;
use load_thing::helpers::error::{
    error_report, fmt_error, ERROR_10_THREAD_JOIN_ERROR, ERROR_1_FAILED_TO_GET_URI_PATH,
    ERROR_4_FETCH_ERROR,
};

#[test]
fn fmt_error_known_code() {
    assert_eq!(
        fmt_error(ERROR_1_FAILED_TO_GET_URI_PATH),
        format!(
            "{}ERROR RAISED WITH CODE: 1! MESSAGE: Failed to get URI path{}",
            ansi::RED,
            ansi::RESET
        )
    );
    assert_eq!(
        fmt_error(ERROR_4_FETCH_ERROR),
        format!("{}ERROR RAISED WITH CODE: 4! MESSAGE: Failed to fetch!{}", ansi::RED, ansi::RESET)
    );
}

#[test]
fn fmt_error_code_ten_is_sixteen() {
    assert_eq!(ERROR_10_THREAD_JOIN_ERROR, 16);
    assert_eq!(
        fmt_error(16),
        format!(
            "{}ERROR RAISED WITH CODE: 16! MESSAGE: Failed to join thread(s)!{}",
            ansi::RED,
            ansi::RESET
        )
    );
    assert_eq!(
        fmt_error(10),
        format!(
            "{}ERROR RAISED WITH CODE: 10! MESSAGE: UKNOWN ERROR WITH CODE: 10!{}",
            ansi::RED,
            ansi::RESET
        )
    );
}

#[test]
fn fmt_error_negative_and_extreme_codes() {
    assert_eq!(
        fmt_error(-42),
        format!(
            "{}ERROR RAISED WITH CODE: -42! MESSAGE: UKNOWN ERROR WITH CODE: -42!{}",
            ansi::RED,
            ansi::RESET
        )
    );
    let min = fmt_error(i32::MIN);
    assert!(min.contains("CODE: -2147483648!"));
    let zero = fmt_error(0);
    assert!(zero.contains("UKNOWN ERROR WITH CODE: 0!"));
}

#[test]
fn error_report_appends_detail() {
    assert_eq!(
        error_report(ERROR_4_FETCH_ERROR, "while connecting"),
        format!(
            "{}\n  {}while connecting{}",
            fmt_error(ERROR_4_FETCH_ERROR),
            ansi::GRAY,
            ansi::RESET
        )
    );
}

#[test]
fn distinct_codes_give_distinct_texts() {
    let codes = [i32::MIN, -16, -1, 0, 1, 2, 9, 10, 16, 160, i32::MAX];
    for a in codes {
        for b in codes {
            assert_eq!(fmt_error(a) == fmt_error(b), a == b);
        }
    }
}
