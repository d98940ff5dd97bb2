use cat_loggr::log_level::{Color, Style};
use cat_loggr::time::UtcInstant;
use cat_loggr::top;
use cat_loggr::types::{
    final_line, ArgHookCallback, LogError, LogHooks, PostHookCallback, PostHookCallbackParams,
    PreHookCallback, PreHookCallbackParams,
};
use cat_loggr::{CatLoggr, LogLevel, LoggrConfig};

const EPOCH: UtcInstant = UtcInstant { secs: 0, nanos: 0 };

fn level(name: &str, fg: Color, bg: Color) -> LogLevel {
    LogLevel::new(name.to_string(), Style::new(fg, bg))
}

fn plain(pattern: &str) -> CatLoggr {
    CatLoggr::new(Some(LoggrConfig {
        timestamp_format: Some(pattern.to_string()),
        color_enabled: false,
        ..LoggrConfig::default()
    }))
    .unwrap()
}

struct Answer(Option<&'static str>);

impl PostHookCallback for Answer {
    fn call(&self, _params: PostHookCallbackParams) -> Option<String> {
        self.0.map(|s| s.to_string())
    }
}

struct Echo;

impl PostHookCallback for Echo {
    fn call(&self, params: PostHookCallbackParams) -> Option<String> {
        Some(format!(
            "{}|{}|{}|{}|{:?}",
            params.level, params.text, params.timestamp, params.date.secs, params.shard
        ))
    }
}

#[test]
fn test_log() {
    let logger = CatLoggr::new(Some(LoggrConfig {
        shard: Some("123".to_string()),
        shard_length: Some(4),
        ..LoggrConfig::default()
    }))
    .unwrap();
    let not_found = std::io::Error::new(std::io::ErrorKind::NotFound, "File not found");
    let dir_not_found = std::io::Error::new(std::io::ErrorKind::NotFound, "Directory not found");
    let calls = vec![
        ("error", format!("Error reading file: {:#?}", not_found)),
        ("warn", "Invalid session, reidentifying!".to_string()),
        ("trace", "Tracing session".to_string()),
        ("init", "Starting event interval!".to_string()),
        ("info", "Posting to matt".to_string()),
        ("verbose", "The data has been created".to_string()),
        ("fatal", format!("Error reading directory. Will not continue. {:#?}", dir_not_found)),
        ("debug", "User logged in".to_string()),
    ];
    for (lvl, text) in calls {
        let line = logger.log(&text, lvl).unwrap().unwrap();
        assert!(line.ends_with(&format!(" {}", text)));
        assert!(line.starts_with("\u{1b}[30;43m123 \u{1b}[0m"));
    }
}

#[test]
fn centre_pad_splits_gap_floor_left_ceiling_right() {
    assert_eq!(CatLoggr::centre_pad(&"info".to_string(), 9), "  info   ");
    assert_eq!(CatLoggr::centre_pad(&"ab".to_string(), 6), "  ab  ");
    assert_eq!(CatLoggr::centre_pad(&"123".to_string(), 4), "123 ");
}

#[test]
fn centre_pad_leaves_text_at_or_over_width() {
    assert_eq!(CatLoggr::centre_pad(&"info".to_string(), 4), "info");
    assert_eq!(CatLoggr::centre_pad(&"verbose".to_string(), 3), "verbose");
    assert_eq!(CatLoggr::centre_pad(&String::new(), 0), "");
    assert_eq!(CatLoggr::centre_pad(&String::new(), 3), "   ");
}

#[test]
fn threshold_defaults_to_last_level() {
    let logger = CatLoggr::new(Some(LoggrConfig {
        levels: Some(vec![
            level("fatal", Color::Red, Color::Black),
            level("error", Color::Black, Color::Red),
            level("warn", Color::Black, Color::Yellow),
        ]),
        ..LoggrConfig::default()
    }))
    .unwrap();
    assert_eq!(logger.get_level().unwrap().name, "warn");
    let default = CatLoggr::new(None).unwrap();
    assert_eq!(default.get_level().unwrap().name, "debug");
}

#[test]
fn last_hook_replacement_wins() {
    let mut logger = plain("%Y");
    logger.add_post_hook(Box::new(Answer(Some("X"))));
    logger.add_post_hook(Box::new(Answer(None)));
    assert_eq!(logger.render("hi", "info", EPOCH).unwrap().unwrap(), "X");

    let mut logger = plain("%Y");
    logger.add_post_hook(Box::new(Answer(Some("X"))));
    logger.add_post_hook(Box::new(Answer(Some("Y"))));
    assert_eq!(logger.render("hi", "info", EPOCH).unwrap().unwrap(), "Y");
}

#[test]
fn final_line_takes_last_replacement() {
    let base = "base".to_string();
    assert_eq!(final_line(base.clone(), &vec![]), "base");
    assert_eq!(final_line(base.clone(), &vec![None, None]), "base");
    assert_eq!(final_line(base.clone(), &vec![Some("X".to_string()), None]), "X");
    assert_eq!(
        final_line(base, &vec![Some("X".to_string()), Some("Y".to_string()), None]),
        "Y"
    );
}

#[test]
fn hooks_see_the_call_not_each_other() {
    let mut logger = CatLoggr::new(Some(LoggrConfig {
        timestamp_format: Some("%Y".to_string()),
        shard: Some("7".to_string()),
        shard_length: Some(3),
        color_enabled: false,
        ..LoggrConfig::default()
    }))
    .unwrap();
    logger.add_post_hook(Box::new(Answer(Some("X"))));
    logger.add_post_hook(Box::new(Echo));
    let line = logger.render("hello", "warn", EPOCH).unwrap().unwrap();
    assert_eq!(line, "warn|hello|1970|0|Some(\"7\")");
}

#[test]
fn unknown_level_is_rejected() {
    let logger = CatLoggr::new(None).unwrap();
    match logger.log("msg", "bogus") {
        Err(LogError::UnknownLevel(name)) => assert_eq!(name, "bogus"),
        _ => panic!("expected an unknown level"),
    }
    assert!(matches!(logger.should_emit("bogus"), Err(LogError::UnknownLevel(_))));
    assert!(matches!(logger.resolve("bogus"), Err(LogError::UnknownLevel(_))));
}

#[test]
fn end_to_end_info_threshold() {
    let mut logger = CatLoggr::new(Some(LoggrConfig {
        timestamp_format: Some("%Y-%m-%d %H:%M:%S".to_string()),
        level: Some("info".to_string()),
        color_enabled: false,
        ..LoggrConfig::default()
    }))
    .unwrap();
    let at = UtcInstant { secs: 86_400 + 3_661, nanos: 0 };
    let line = logger.render("Posting to matt", "info", at).unwrap().unwrap();
    assert_eq!(line, "1970-01-02 01:01:01  info    Posting to matt");
    assert!(logger.render("noisy", "debug", at).unwrap().is_none());
    assert!(logger.log("noisy", "debug").unwrap().is_none());
    logger.set_level("debug").unwrap();
    assert!(logger.render("noisy", "debug", at).unwrap().is_some());
}

#[test]
fn default_timestamp_pattern() {
    let logger = CatLoggr::new(Some(LoggrConfig { color_enabled: false, ..LoggrConfig::default() }))
        .unwrap();
    let line = logger.render("t", "fatal", EPOCH).unwrap().unwrap();
    assert_eq!(line, "01/01 00:00:00  fatal   t");
}

#[test]
fn coloured_line_wraps_each_field() {
    let logger = CatLoggr::new(Some(LoggrConfig {
        timestamp_format: Some("%Y".to_string()),
        shard: Some("123".to_string()),
        shard_length: Some(5),
        ..LoggrConfig::default()
    }))
    .unwrap();
    let line = logger.render("go", "info", EPOCH).unwrap().unwrap();
    assert_eq!(
        line,
        "\u{1b}[30;43m 123 \u{1b}[0m\u{1b}[30;47m1970\u{1b}[0m\u{1b}[30;42m  info   \u{1b}[0m go"
    );
}

#[test]
fn rank_orders_emission() {
    let mut logger = plain("%Y");
    for name in ["fatal", "error", "warn", "trace", "init", "info", "verbose", "debug"] {
        assert!(logger.should_emit(name).unwrap());
    }
    logger.set_level("warn").unwrap();
    assert!(logger.should_emit("fatal").unwrap());
    assert!(logger.should_emit("warn").unwrap());
    assert!(!logger.should_emit("trace").unwrap());
    assert!(!logger.should_emit("debug").unwrap());
    assert_eq!(logger.resolve("fatal").unwrap().position, Some(0));
    assert_eq!(logger.resolve("debug").unwrap().position, Some(7));
}

#[test]
fn duplicate_names_keep_first() {
    let mut logger = plain("%Y");
    logger.set_levels(vec![
        level("a", Color::Red, Color::Black),
        level("bb", Color::Green, Color::Black),
        level("a", Color::Blue, Color::White),
    ]);
    let a = logger.resolve("a").unwrap();
    assert_eq!(a.style, Style::new(Color::Red, Color::Black));
    assert_eq!(a.position, Some(0));
    assert_eq!(logger.resolve("bb").unwrap().position, Some(1));
    // The threshold "debug" left over from the defaults is no longer known.
    match logger.should_emit("a") {
        Err(LogError::UnknownLevel(name)) => assert_eq!(name, "debug"),
        _ => panic!("expected an unknown threshold"),
    }
    logger.set_level("a").unwrap();
    assert!(!logger.should_emit("bb").unwrap());
    let line = logger.render("x", "bb", EPOCH);
    assert!(matches!(line, Ok(None)));
    logger.set_level("bb").unwrap();
    assert_eq!(logger.render("x", "bb", EPOCH).unwrap().unwrap(), "1970 bb  x");
}

#[test]
fn set_level_rejects_unknown() {
    let mut logger = CatLoggr::new(None).unwrap();
    assert!(matches!(logger.set_level("nope"), Err(LogError::UnknownLevel(_))));
    assert_eq!(logger.get_level().unwrap().name, "debug");
    logger.set_level("init").unwrap();
    assert_eq!(logger.get_level().unwrap().name, "init");
}

#[test]
fn shard_without_width_is_refused() {
    let r = CatLoggr::new(Some(LoggrConfig {
        shard: Some("1".to_string()),
        ..LoggrConfig::default()
    }));
    assert!(matches!(r, Err(LogError::MissingShardWidth)));
    let mut logger = plain("%Y");
    let r = logger.config(Some(LoggrConfig {
        shard: Some("1".to_string()),
        ..LoggrConfig::default()
    }));
    assert!(matches!(r, Err(LogError::MissingShardWidth)));
    assert_eq!(logger.render("x", "info", EPOCH).unwrap().unwrap(), "1970  info    x");
}

#[test]
fn reconfiguring_keeps_absent_fields_and_reinstalls_default_levels() {
    let mut logger = CatLoggr::new(Some(LoggrConfig {
        timestamp_format: Some("%Y".to_string()),
        levels: Some(vec![level("only", Color::Red, Color::Black)]),
        color_enabled: false,
        ..LoggrConfig::default()
    }))
    .unwrap();
    assert_eq!(logger.render("x", "only", EPOCH).unwrap().unwrap(), "1970 only  x");
    logger
        .config(Some(LoggrConfig { color_enabled: false, ..LoggrConfig::default() }))
        .unwrap();
    assert!(matches!(logger.resolve("only"), Err(LogError::UnknownLevel(_))));
    assert_eq!(logger.render("x", "info", EPOCH).unwrap().unwrap(), "1970  info    x");
}

#[test]
fn unknown_configured_threshold_is_refused() {
    let r = CatLoggr::new(Some(LoggrConfig {
        level: Some("nope".to_string()),
        ..LoggrConfig::default()
    }));
    match r {
        Err(LogError::UnknownLevel(name)) => assert_eq!(name, "nope"),
        _ => panic!("expected an unknown threshold"),
    }
    let mut logger = plain("%Y");
    let r = logger.config(Some(LoggrConfig {
        timestamp_format: Some("%m".to_string()),
        levels: Some(vec![level("only", Color::Red, Color::Black)]),
        level: Some("info".to_string()),
        ..LoggrConfig::default()
    }));
    assert!(matches!(r, Err(LogError::UnknownLevel(_))));
    assert_eq!(logger.render("x", "info", EPOCH).unwrap().unwrap(), "1970  info    x");
    logger
        .config(Some(LoggrConfig {
            levels: Some(vec![level("only", Color::Red, Color::Black)]),
            level: Some("only".to_string()),
            color_enabled: false,
            ..LoggrConfig::default()
        }))
        .unwrap();
    assert_eq!(logger.get_level().unwrap().name, "only");
}

#[test]
fn empty_level_set_logs_nothing() {
    let logger = CatLoggr::new(Some(LoggrConfig {
        levels: Some(vec![]),
        ..LoggrConfig::default()
    }))
    .unwrap();
    assert!(matches!(logger.get_level(), Err(LogError::UnknownLevel(_))));
    assert!(matches!(logger.log("x", "info"), Err(LogError::UnknownLevel(_))));
}

#[test]
fn bad_timestamp_pattern_is_reported() {
    let logger = plain("%Q");
    assert!(matches!(logger.render("x", "info", EPOCH), Err(LogError::BadTimestamp)));
}

#[test]
fn top_copies_last() {
    let mut v = vec![1u8, 2, 3];
    assert_eq!(top(&mut v), Some(3));
    assert_eq!(v, vec![1, 2, 3]);
    let mut e: Vec<u8> = vec![];
    assert_eq!(top(&mut e), None);
}

struct Reserved;

impl PreHookCallback for Reserved {
    fn call(&self, _params: PreHookCallbackParams) -> Option<String> {
        Some("pre".to_string())
    }
}

impl ArgHookCallback for Reserved {
    fn call(&self, _args: Option<String>, _date: UtcInstant) -> Option<String> {
        Some("arg".to_string())
    }
}

#[test]
fn reserved_hooks_leave_the_line_alone() {
    let hooks = LogHooks::new();
    assert!(hooks.pre.is_empty() && hooks.arg.is_empty() && hooks.post.is_empty());
    let mut logger = plain("%Y");
    logger.add_pre_hook(Box::new(Reserved));
    logger.add_arg_hook(Box::new(Reserved));
    assert_eq!(logger.render("x", "warn", EPOCH).unwrap().unwrap(), "1970  warn    x");
}

#[test]
fn centre_pad_measures_bytes() {
    // "é" is two bytes long.
    assert_eq!(CatLoggr::centre_pad(&"é".to_string(), 4), " é ");
    assert_eq!(CatLoggr::centre_pad(&"é".to_string(), 2), "é");
    assert_eq!(CatLoggr::centre_pad(&"日本".to_string(), 5), "日本");
    assert_eq!(CatLoggr::centre_pad(&"日".to_string(), 6), " 日  ");
}

#[test]
fn level_width_counts_bytes() {
    let mut logger = plain("%Y");
    logger.set_levels(vec![level("é", Color::Red, Color::Black), level("ab", Color::Red, Color::Black)]);
    logger.set_level("ab").unwrap();
    assert_eq!(logger.render("x", "ab", EPOCH).unwrap().unwrap(), "1970 ab  x");
    assert_eq!(logger.render("x", "é", EPOCH).unwrap().unwrap(), "1970 é  x");
}

#[test]
fn post_hook_params_carry_the_call() {
    let logger = CatLoggr::new(Some(LoggrConfig {
        shard: Some("s1".to_string()),
        shard_length: Some(4),
        ..LoggrConfig::default()
    }))
    .unwrap();
    let at = UtcInstant { secs: 5, nanos: 6 };
    let p = logger.post_hook_params("text", "warn", at, &"stamp".to_string());
    assert_eq!(p.level, "warn");
    assert_eq!(p.text, "text");
    assert_eq!(p.date, at);
    assert_eq!(p.timestamp, "stamp");
    assert_eq!(p.shard, Some("s1".to_string()));
}
