use tracing_systemd::visitor::{decimal_string, signed_decimal_string};
use tracing_systemd::{
    journal_level_from_tracing_level, prefix_from_tracing_level, EventDescriptor, JournalLevel, Level, Output,
    ScopeDescriptor, SystemdFieldStorage, SystemdLayer, SystemdVisitor,
};

#[test]
fn it_works() {
    let result = 2 + 2;
    assert_eq!(result, 4);
}

fn record(pairs: &[(&str, &str)]) -> SystemdFieldStorage {
    let mut fields = SystemdFieldStorage::new();
    for (k, v) in pairs {
        fields.insert(k.to_string(), v.to_string());
    }
    fields
}

fn scope(name: &str, pairs: &[(&str, &str)]) -> ScopeDescriptor {
    ScopeDescriptor { name: name.to_string(), fields: record(pairs) }
}

fn event(level: Level, pairs: &[(&str, &str)], scopes: Vec<ScopeDescriptor>) -> EventDescriptor {
    EventDescriptor {
        target: "test_log".to_string(),
        name: "event src/main.rs:12".to_string(),
        level,
        fields: record(pairs),
        scopes,
    }
}

fn plain_layer() -> SystemdLayer {
    SystemdLayer::new().use_color(false).use_sd_journal(false)
}

fn root_scope() -> ScopeDescriptor {
    scope("root_log_fn", &[("outside_instrument_field", "true")])
}

#[test]
fn root_scope_info_line() {
    let ev = event(Level::Info, &[("message", "Root log")], vec![root_scope()]);
    let layer = plain_layer();
    let name = layer.build_span_name("root_log_fn", &ev.scopes[0].fields);
    assert_eq!(name, "root_log_fn(outside_instrument_field: true)");
    assert_eq!(layer.build_full_string(&ev, 1), "INFO root_log_fn(outside_instrument_field: true): Root log");
}

#[test]
fn nested_scope_warn_line() {
    let inner = scope("inner_log_1", &[("inside_parameter_field", "true")]);
    let ev = event(Level::Warn, &[("message", "Inner log 1")], vec![root_scope(), inner]);
    assert_eq!(
        plain_layer().build_full_string(&ev, 1),
        "WARN root_log_fn(outside_instrument_field: true)::inner_log_1(inside_parameter_field: true): Inner log 1"
    );
}

#[test]
fn residual_fields_without_message() {
    let inner = scope("inner_log_1", &[("inside_parameter_field", "true")]);
    let ev = event(Level::Debug, &[("field_in_function", "also works")], vec![inner]);
    assert_eq!(
        plain_layer().build_full_string(&ev, 1),
        "DEBUG inner_log_1(inside_parameter_field: true): {\"field_in_function\":\"also works\"}"
    );
}

#[test]
fn message_then_residual_fields() {
    let ev = event(Level::Info, &[("message", "hi"), ("b", "2"), ("a", "1")], vec![root_scope()]);
    assert_eq!(
        plain_layer().build_full_string(&ev, 1),
        "INFO root_log_fn(outside_instrument_field: true): hi: {\"a\":\"1\",\"b\":\"2\"}"
    );
}

#[test]
fn empty_message_is_left_out() {
    let ev = event(Level::Info, &[("message", "")], vec![root_scope()]);
    assert_eq!(plain_layer().build_full_string(&ev, 1), "INFO root_log_fn(outside_instrument_field: true)");
}

#[test]
fn unicode_values_pass_through() {
    let ev = event(Level::Info, &[("message", "grüße"), ("k", "ünï")], vec![scope("f", &[("x", "é")])]);
    assert_eq!(plain_layer().build_full_string(&ev, 1), "INFO f(x: é): grüße: {\"k\":\"ünï\"}");
}

#[test]
fn error_line_with_numeric_prefix() {
    let ev = event(Level::Error, &[("message", "this is an error")], vec![root_scope()]);
    let layer = plain_layer();
    let line = layer.build_full_string(&ev, 1);
    match layer.route(Level::Error, line.clone()) {
        Output::Stdout(s) => {
            assert!(s.starts_with("<3>"));
            assert_eq!(s, format!("<3>{}", line));
        }
        other => panic!("unexpected destination {:?}", other),
    }
}

#[test]
fn no_scope_uses_event_name_and_fields() {
    let ev = event(Level::Info, &[("message", "m")], vec![]);
    assert_eq!(plain_layer().build_full_string(&ev, 1), "INFO event src/main.rs:12(message: m): m");
}

#[test]
fn scope_without_fields_has_empty_brackets() {
    let ev = event(Level::Trace, &[("message", "t")], vec![scope("root_log_fn", &[])]);
    assert_eq!(plain_layer().build_full_string(&ev, 1), "TRACE root_log_fn(): t");
}

#[test]
fn fields_render_in_key_order() {
    let a = record(&[("zeta", "1"), ("alpha", "2"), ("mid", "3")]);
    let b = record(&[("mid", "3"), ("zeta", "1"), ("alpha", "2")]);
    let layer = plain_layer();
    assert_eq!(layer.build_span_name("f", &a), "f(alpha: 2, mid: 3, zeta: 1)");
    assert_eq!(layer.build_span_name("f", &a), layer.build_span_name("f", &b));
}

#[test]
fn later_insert_wins() {
    let fields = record(&[("k", "first"), ("k", "second")]);
    assert_eq!(fields.len(), 1);
    assert_eq!(fields.get("k").unwrap(), "second");
    assert!(fields.get("other").is_none());
}

#[test]
fn message_is_never_residual() {
    let fields = record(&[("message", "m"), ("a", "1")]);
    let rest = fields.without("message");
    assert_eq!(rest.len(), 1);
    assert_eq!(rest.key_at(0), "a");
    assert!(rest.get("message").is_none());
}

#[test]
fn rendering_is_deterministic() {
    let ev = event(Level::Info, &[("message", "x"), ("k", "v")], vec![root_scope(), scope("g", &[("a", "b")])]);
    let layer = plain_layer().with_thread_ids(true).with_target(true);
    assert_eq!(layer.build_full_string(&ev, 7), layer.build_full_string(&ev, 7));
}

#[test]
fn custom_delimiters_change_only_delimiters() {
    let inner = scope("inner", &[("a", "1"), ("b", "2")]);
    let ev = event(Level::Info, &[("message", "msg"), ("r", "s")], vec![root_scope(), inner]);
    let layer = plain_layer()
        .separate_spans_with(" > ")
        .separate_message_with(" | ")
        .function_bracket_left("[")
        .function_bracket_right("]")
        .arguments_equality("=")
        .arguments_separator(";")
        .level_separator("\t");
    assert_eq!(
        layer.build_full_string(&ev, 1),
        "INFO\troot_log_fn[outside_instrument_field=true] > inner[a=1;b=2] | msg | {\"r\":\"s\"}"
    );
}

#[test]
fn thread_id_and_target() {
    let ev = event(Level::Info, &[("message", "Root log")], vec![root_scope()]);
    let layer = plain_layer().with_thread_ids(true).with_target(true);
    assert_eq!(
        layer.build_full_string(&ev, 42),
        "INFO [42] test_log::root_log_fn(outside_instrument_field: true): Root log"
    );
    let wrapped = layer.thread_id_prefix("<").thread_id_suffix(">");
    assert_eq!(
        wrapped.build_full_string(&ev, 0),
        "INFO <0>test_log::root_log_fn(outside_instrument_field: true): Root log"
    );
}

#[test]
fn colored_level_is_plain_or_painted() {
    let ev = event(Level::Warn, &[("message", "w")], vec![root_scope()]);
    let line = SystemdLayer::new().use_sd_journal(false).build_full_string(&ev, 1);
    let rest = " root_log_fn(outside_instrument_field: true): w";
    assert!(
        line == format!("WARN{}", rest)
            || line == format!("\x1b[33mWARN\x1b[0m{}", rest)
            || line == format!("WARN\x1b[0m{}", rest),
        "{:?}",
        line
    );
}

#[test]
fn numeric_prefixes() {
    assert_eq!(prefix_from_tracing_level(&Level::Trace), "<7>");
    assert_eq!(prefix_from_tracing_level(&Level::Debug), "<6>");
    assert_eq!(prefix_from_tracing_level(&Level::Info), "<5>");
    assert_eq!(prefix_from_tracing_level(&Level::Warn), "<4>");
    assert_eq!(prefix_from_tracing_level(&Level::Error), "<3>");
}

#[test]
fn journal_levels() {
    assert_eq!(journal_level_from_tracing_level(&Level::Trace), JournalLevel::Debug);
    assert_eq!(journal_level_from_tracing_level(&Level::Debug), JournalLevel::Info);
    assert_eq!(journal_level_from_tracing_level(&Level::Info), JournalLevel::Notice);
    assert_eq!(journal_level_from_tracing_level(&Level::Warn), JournalLevel::Warning);
    assert_eq!(journal_level_from_tracing_level(&Level::Error), JournalLevel::Error);
}

#[test]
fn routing_choices() {
    let line = "INFO f(): m".to_string();
    match SystemdLayer::new().route(Level::Warn, line.clone()) {
        Output::Journal(l, s) => {
            assert_eq!(l, JournalLevel::Warning);
            assert_eq!(s, line);
        }
        other => panic!("unexpected destination {:?}", other),
    }
    match SystemdLayer::new().use_sd_journal(false).use_level_prefix(false).route(Level::Info, line.clone()) {
        Output::Stdout(s) => assert_eq!(s, line),
        other => panic!("unexpected destination {:?}", other),
    }
    match SystemdLayer::new().use_sd_journal(false).route(Level::Info, line.clone()) {
        Output::Stdout(s) => assert_eq!(s, "<5>INFO f(): m"),
        other => panic!("unexpected destination {:?}", other),
    }
}

#[test]
fn origin_filter() {
    let ev = event(Level::Info, &[("message", "m")], vec![root_scope()]);
    let open = plain_layer();
    assert!(open.on_event(&ev, 1).is_some());
    assert!(open.exclude_other_origins("test_log").on_event(&ev, 1).is_some());
    assert!(plain_layer().exclude_other_origins("other").on_event(&ev, 1).is_none());
    match plain_layer().on_event(&ev, 1) {
        Some(Output::Stdout(s)) => assert_eq!(s, "<5>INFO root_log_fn(outside_instrument_field: true): m"),
        other => panic!("unexpected destination {:?}", other),
    }
}

#[test]
fn visitor_renders_values() {
    let mut v = SystemdVisitor::new();
    v.record_bool("flag", true);
    v.record_bool("off", false);
    v.record_i64("neg", -1234);
    v.record_i64("min", i64::MIN);
    v.record_u64("big", u64::MAX);
    v.record_u64("zero", 0);
    v.record_str("text", "hello");
    v.record_str("flag", "again");
    let fields = v.0;
    assert_eq!(fields.get("flag").unwrap(), "again");
    assert_eq!(fields.get("off").unwrap(), "false");
    assert_eq!(fields.get("neg").unwrap(), "-1234");
    assert_eq!(fields.get("min").unwrap(), "-9223372036854775808");
    assert_eq!(fields.get("big").unwrap(), "18446744073709551615");
    assert_eq!(fields.get("zero").unwrap(), "0");
    assert_eq!(fields.get("text").unwrap(), "hello");
    assert_eq!(fields.len(), 7);
}

#[test]
fn decimal_rendering() {
    assert_eq!(decimal_string(0), "0");
    assert_eq!(decimal_string(10), "10");
    assert_eq!(decimal_string(907), "907");
    assert_eq!(signed_decimal_string(-5), "-5");
    assert_eq!(signed_decimal_string(i64::MAX), "9223372036854775807");
}

#[test]
fn default_settings() {
    let l = SystemdLayer::new();
    assert_eq!(l.get_span_separator(), "::");
    assert_eq!(l.get_message_separator(), ": ");
    assert_eq!(l.get_function_bracket_left(), "(");
    assert_eq!(l.get_function_bracket_right(), ")");
    assert_eq!(l.get_arguments_equality(), ": ");
    assert_eq!(l.get_arguments_separator(), ", ");
    assert_eq!(l.get_level_separator(), " ");
    assert_eq!(l.get_thread_id_prefix(), "[");
    assert_eq!(l.get_thread_id_suffix(), "] ");
    assert!(!l.get_log_thread_id());
    assert!(!l.get_log_target());
    assert!(l.get_use_level_prefix());
    assert!(l.get_use_color());
    assert!(l.get_use_sd_journal());
    assert!(l.get_origin().is_none());
}

#[test]
fn forced_color_paints_each_level() {
    let rest = " root_log_fn(outside_instrument_field: true): m";
    let layer = SystemdLayer::new().use_sd_journal(false);
    colored::control::set_override(true);
    let cases = [
        (Level::Trace, "\x1b[35mTRACE\x1b[0m"),
        (Level::Debug, "\x1b[34mDEBUG\x1b[0m"),
        (Level::Info, "\x1b[32mINFO\x1b[0m"),
        (Level::Warn, "\x1b[33mWARN\x1b[0m"),
        (Level::Error, "\x1b[31mERROR\x1b[0m"),
    ];
    for (level, painted) in cases {
        let ev = event(level, &[("message", "m")], vec![root_scope()]);
        assert_eq!(layer.build_full_string(&ev, 1), format!("{}{}", painted, rest));
    }
    colored::control::set_override(false);
    let ev = event(Level::Info, &[("message", "m")], vec![root_scope()]);
    assert_eq!(layer.build_full_string(&ev, 1), format!("INFO{}", rest));
    colored::control::unset_override();
}

#[test]
fn residual_json_escapes_quotes_and_controls() {
    let ev = event(Level::Info, &[("q", "a\"b\\c\nd")], vec![scope("f", &[])]);
    assert_eq!(plain_layer().build_full_string(&ev, 1), "INFO f(): {\"q\":\"a\\\"b\\\\c\\nd\"}");
}

#[test]
fn visitor_keeps_keys_sorted_and_counts_overwrites() {
    let mut v = SystemdVisitor::new();
    v.record_str("b", "1");
    v.record_str("a", "2");
    assert_eq!(v.0.len(), 2);
    v.record_str("b", "3");
    assert_eq!(v.0.len(), 2);
    assert_eq!(v.0.key_at(0), "a");
    assert_eq!(v.0.key_at(1), "b");
    assert_eq!(v.0.value_at(1), "3");
}
