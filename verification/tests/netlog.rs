use freemdu_home::backlog::{Backlog, IMPORTANT_BACKLOG_LINES, VERBOSE_BACKLOG_LINES};
use freemdu_home::buffers::LogLine;
use freemdu_home::netlog::{
    enabled_for, is_important, parse_filter, record_line, Level, LevelFilter,
};

#[test]
fn filters_are_named() {
    assert_eq!(parse_filter(b"off"), Some(LevelFilter::Off));
    assert_eq!(parse_filter(b"ERROR"), Some(LevelFilter::Error));
    assert_eq!(parse_filter(b"Warn"), Some(LevelFilter::Warn));
    assert_eq!(parse_filter(b"info"), Some(LevelFilter::Info));
    assert_eq!(parse_filter(b"dEBUG"), Some(LevelFilter::Debug));
    assert_eq!(parse_filter(b"trace"), Some(LevelFilter::Trace));
    assert_eq!(parse_filter(b""), None);
    assert_eq!(parse_filter(b"warning"), None);
}

#[test]
fn directives_select_a_level() {
    // Without a directive, records up to INFO pass.
    assert!(enabled_for(b"", Level::Info, b"freemdu"));
    assert!(!enabled_for(b"", Level::Debug, b"freemdu"));
    // The longest matching prefix decides, and the later of two equal ones.
    let d = b"info,freemdu=debug,freemdu_home=off,esp=bogus";
    assert!(enabled_for(d, Level::Debug, b"freemdu::device"));
    assert!(!enabled_for(d, Level::Error, b"freemdu_home::keyscan"));
    assert!(enabled_for(d, Level::Info, b"esp_hal"));
    assert!(!enabled_for(d, Level::Trace, b"esp_hal"));
    assert!(enabled_for(b"a=off,a=trace", Level::Trace, b"abc"));
    assert!(!enabled_for(b"abc=off,a=trace", Level::Error, b"abc"));
    // A bare level does not reset the prefix length, but replaces the level.
    assert!(enabled_for(b"abc=off,trace", Level::Trace, b"abc"));
    assert!(enabled_for(b"abc=off,trace,a=info", Level::Trace, b"abc"));
    assert!(enabled_for(b",,warn,,", Level::Warn, b"t"));
    assert!(!enabled_for(b",,warn,,", Level::Info, b"t"));
    // The first equals sign separates.
    assert!(!enabled_for(b"a=trace=off", Level::Debug, b"a"));
    // An empty prefix matches every target.
    assert!(enabled_for(b"=debug", Level::Debug, b"t"));
}

#[test]
fn levels_are_ordered() {
    let levels = [
        Level::Error,
        Level::Warn,
        Level::Info,
        Level::Debug,
        Level::Trace,
    ];
    for (i, name) in ["off", "error", "warn", "info", "debug", "trace"]
        .into_iter()
        .enumerate()
    {
        for (j, level) in levels.into_iter().enumerate() {
            assert_eq!(enabled_for(name.as_bytes(), level, b"t"), j < i);
        }
    }
    assert!(is_important(Level::Error));
    assert!(is_important(Level::Warn));
    assert!(is_important(Level::Info));
    assert!(!is_important(Level::Debug));
    assert!(!is_important(Level::Trace));
}

#[test]
fn records_are_written_up_to_the_capacity() {
    assert_eq!(
        record_line(Level::Warn, "OTA accept failed").as_bytes(),
        b"WARN - OTA accept failed\n"
    );
    let long = "x".repeat(300);
    let line = record_line(Level::Info, &long);
    assert_eq!(line.as_bytes(), &format!("INFO - {long}\n").as_bytes()[..256]);
    let mut line = LogLine::new();
    assert!(line.as_bytes().is_empty());
    line.write_str("ab");
    line.write_str("");
    line.write_str("cd");
    assert_eq!(line.as_bytes(), b"abcd");
}

fn drained(backlog: &mut Backlog) -> Vec<String> {
    let mut lines = vec![];
    while let Some(line) = backlog.next_line() {
        lines.push(String::from_utf8(line.as_bytes().to_vec()).unwrap());
    }
    lines
}

#[test]
fn lines_wait_in_order() {
    let mut backlog = Backlog::new();
    assert!(backlog.next_line().is_none());
    backlog.log(Level::Debug, "verbose");
    backlog.log(Level::Info, "first");
    backlog.log(Level::Trace, "more");
    backlog.log(Level::Error, "second");
    // Those that matter come first.
    assert_eq!(
        drained(&mut backlog),
        [
            "INFO - first\n",
            "ERROR - second\n",
            "DEBUG - verbose\n",
            "TRACE - more\n"
        ]
    );
    assert!(backlog.next_line().is_none());
}

#[test]
fn full_backlog_loses_its_oldest_lines() {
    let mut backlog = Backlog::new();
    for n in 0..100 {
        backlog.log(Level::Info, &format!("{n}"));
    }
    for n in 0..20 {
        backlog.log(Level::Debug, &format!("{n}"));
    }
    let mut expected: Vec<String> = (4..100).map(|n| format!("INFO - {n}\n")).collect();
    expected.extend((4..20).map(|n| format!("DEBUG - {n}\n")));
    assert_eq!(expected.len(), IMPORTANT_BACKLOG_LINES + VERBOSE_BACKLOG_LINES);
    assert_eq!(drained(&mut backlog), expected);
}
