use load_thing::helpers::ansi;
use load_thing::helpers::logger::TableLogger;

fn strings(v: &[&str]) -> Vec<String> {
    v.iter().map(|s| s.to_string()).collect()
}

#[test]
fn log_prints_header_once() {
    let mut logger = TableLogger::new(strings(&["ip", "path"]));
    logger.add_row(strings(&["127.0.0.1", "/"]));
    let first = logger.log();
    assert_eq!(
        first,
        format!(
            "{}| ip        | path | \n|-----------|------|\n| 127.0.0.1 | /    | {}",
            ansi::GREEN,
            ansi::RESET
        )
    );
    let second = logger.log();
    assert_eq!(second, format!("{}{}", ansi::GREEN, ansi::RESET));
}

#[test]
fn rows_are_not_separated_in_log() {
    let mut logger = TableLogger::new(strings(&["a"]));
    logger.log();
    logger.add_row(strings(&["x"]));
    logger.add_row(strings(&["yy"]));
    assert_eq!(logger.log(), format!("{}| x  | | yy | {}", ansi::GREEN, ansi::RESET));
}

#[test]
fn extra_cells_use_their_own_width() {
    let mut logger = TableLogger::new(strings(&["a"]));
    logger.log();
    logger.add_row(strings(&["b", "long"]));
    assert_eq!(logger.to_display_string(), "| b | long | \n");
}

#[test]
fn empty_header_rule() {
    let mut logger = TableLogger::new(Vec::new());
    assert_eq!(logger.log(), format!("{}| \n|\n{}", ansi::GREEN, ansi::RESET));
}

#[test]
fn widths_count_bytes_and_padding_counts_chars() {
    let mut logger = TableLogger::new(strings(&["é"]));
    // "é" is two bytes: the column is two wide, and one space pads the one character.
    assert_eq!(logger.log(), format!("{}| é  | \n|----|\n{}", ansi::GREEN, ansi::RESET));
}

#[test]
fn display_lists_rows_with_newlines() {
    let mut logger = TableLogger::new(strings(&["k", "v"]));
    logger.add_row(strings(&["1", "one"]));
    logger.add_row(strings(&["22", "2"]));
    assert_eq!(logger.to_display_string(), "| 1  | one | \n| 22 | 2   | \n");
}

#[test]
fn columns_never_narrow() {
    let mut logger = TableLogger::new(strings(&["wide header", "b"]));
    logger.add_row(strings(&["x", "longer"]));
    logger.add_row(strings(&["y", "s"]));
    assert_eq!(
        logger.to_display_string(),
        "| x           | longer | \n| y           | s      | \n"
    );
}

#[test]
fn clone_keeps_state() {
    let mut logger = TableLogger::new(strings(&["h"]));
    logger.add_row(strings(&["value"]));
    let mut copy = logger.clone();
    assert_eq!(copy.log(), logger.log());
    assert_eq!(copy.log(), logger.log());
}
