use httpcache::config::{EnvMode, ListenConfig, LoggingConfig, LoggingFormat, TimeConfig};
use httpcache::log_filter::text_reads_safely;
use httpcache::obs::{default_level, log_plan, log_plan_given};
use httpcache::server::{
    directory_to_clear, listen_address, route, ResponseSummary, ResponseTimer, Route,
};

#[test]
fn the_server_listens_where_it_is_told() {
    assert_eq!(listen_address(&ListenConfig::default()), "0.0.0.0:3128");
}

#[test]
fn dev_mode_clears_existing_cache_dir() {
    assert_eq!(directory_to_clear(EnvMode::Dev), Some(".cache"));
}

#[test]
fn prod_mode_preserves_existing_cache_dir() {
    assert_eq!(directory_to_clear(EnvMode::Prod), None);
}

#[test]
fn connect_is_tunnelled() {
    assert_eq!(route("CONNECT"), Route::Tunnel);
    assert_eq!(route("connect"), Route::Forward);
    assert_eq!(route("GET"), Route::Forward);
}

#[test]
fn a_response_is_timed() {
    let mut timer = ResponseTimer::new();
    timer.note_data(5, 100);
    timer.note_data(7, 20);
    timer.note_first_byte(8);
    assert_eq!(
        timer.log_complete(9),
        Some(ResponseSummary { duration_ms: 9, ttfb_ms: Some(5), bytes: 120 })
    );
    assert_eq!(timer.log_complete(10), None);
}

#[test]
fn an_empty_response_has_no_first_byte() {
    let mut timer = ResponseTimer::new();
    assert_eq!(
        timer.log_complete(3),
        Some(ResponseSummary { duration_ms: 3, ttfb_ms: None, bytes: 0 })
    );
}

#[test]
fn the_level_depends_on_the_mode_if_it_is_blank() {
    let mut logging = LoggingConfig::default();
    let time = TimeConfig::default();
    assert_eq!(default_level(EnvMode::Dev), "debug");
    assert_eq!(default_level(EnvMode::Prod), "info");
    logging.level = "  ".to_string();
    assert_eq!(log_plan(EnvMode::Dev, &logging, &time).level, "debug");
    assert_eq!(log_plan(EnvMode::Prod, &logging, &time).level, "info");
    logging.level = "warn".to_string();
    let plan = log_plan(EnvMode::Prod, &logging, &time);
    assert_eq!(plan.level, "warn");
    assert!(!plan.dev);
    assert_eq!(plan.format, LoggingFormat::Pretty);
}

#[test]
fn an_unknown_time_zone_is_utc() {
    let logging = LoggingConfig::default();
    let zone = |name: &str| {
        log_plan(EnvMode::Dev, &logging, &TimeConfig { timezone: name.to_string() }).timezone
    };
    assert_eq!(zone("Europe/Berlin"), "Europe/Berlin");
    assert_eq!(zone("UTC"), "UTC");
    assert_eq!(zone("Mars/Base"), "UTC");

    let time = TimeConfig { timezone: "anything".to_string() };
    assert_eq!(log_plan_given(EnvMode::Dev, &logging, &time, true, true).timezone, "anything");
    assert_eq!(log_plan_given(EnvMode::Dev, &logging, &time, true, false).timezone, "UTC");
}

#[test]
fn a_level_that_is_no_filter_is_that_of_the_mode() {
    let time = TimeConfig::default();
    let level = |mode: EnvMode, text: &str| {
        let logging = LoggingConfig { level: text.to_string(), ..LoggingConfig::default() };
        log_plan(mode, &logging, &time).level
    };
    assert_eq!(level(EnvMode::Prod, "warn"), "warn");
    assert_eq!(level(EnvMode::Prod, "info,httpcache=trace"), "info,httpcache=trace");
    assert_eq!(level(EnvMode::Prod, "httpcache=loud"), "info");
    assert_eq!(level(EnvMode::Dev, "httpcache=loud"), "debug");
    assert_eq!(level(EnvMode::Dev, "!"), "debug");
    assert_eq!(level(EnvMode::Prod, "[open"), "info");
    // A cut that would fall inside a character is not made.
    assert_eq!(level(EnvMode::Prod, "\u{3000}\u{e9}=info"), "info");
    for text in ["\u{3000}info", "info,\u{3000}debug", " [\u{e9} a]", "\u{e9}]x", " info", ","] {
        assert_eq!(level(EnvMode::Prod, text), text);
    }
    assert_eq!(level(EnvMode::Prod, "\u{e9}=info"), "\u{e9}=info");

    let logging = LoggingConfig { level: "x".to_string(), ..LoggingConfig::default() };
    assert_eq!(log_plan_given(EnvMode::Prod, &logging, &time, true, true).level, "x");
    assert_eq!(log_plan_given(EnvMode::Prod, &logging, &time, false, true).level, "info");
}

#[test]
fn directives_are_cut_between_characters() {
    for text in [
        "",
        "info",
        " target[span{field=value}]=debug ",
        "\u{e9}[\u{e9}{\u{e9}=1}]=trace",
        "\u{3000}\u{e9}",
        "\u{3000}abc[d]=info",
        "\u{3000}!\u{e9}=info",
        "\u{3000}a]\u{e9}}",
        "\u{2003}[\u{e9}",
    ] {
        assert!(text_reads_safely(text), "{}", text);
    }
    assert!(!text_reads_safely("\u{3000}ab=info"));
    assert!(!text_reads_safely("\u{3000}\u{e9}=info"));
    assert!(!text_reads_safely("\u{3000}[a]"));
    assert!(!text_reads_safely("info,\u{3000}a=info"));
    assert!(!text_reads_safely("\u{3000}abc[\u{3000}x{a=1}"));
}
