use jrow_kafka_gateway::text::{contains, join, replace_text};
use jrow_kafka_gateway::{GatewayError, TopicTemplate};

#[test]
fn test_render_source_direction() {
    let tmpl = TopicTemplate::new("kafka.{topic}").unwrap();
    assert_eq!(tmpl.render("orders"), "kafka.orders");
}

#[test]
fn test_render_sink_direction() {
    let tmpl = TopicTemplate::new("jrow.{topic}").unwrap();
    assert_eq!(tmpl.render("events.user.login"), "jrow.events.user.login");
}

#[test]
fn test_render_static_prefix_suffix() {
    let tmpl = TopicTemplate::new("prefix-{topic}-suffix").unwrap();
    assert_eq!(tmpl.render("x"), "prefix-x-suffix");
}

#[test]
fn test_rejects_missing_placeholder() {
    assert!(TopicTemplate::new("no-placeholder").is_err());
}

#[test]
fn test_multiple_placeholders_all_replaced() {
    let tmpl = TopicTemplate::new("{topic}/{topic}").unwrap();
    assert_eq!(tmpl.render("a"), "a/a");
}

#[test]
fn missing_placeholder_error_message() {
    match TopicTemplate::new("no-placeholder") {
        Err(GatewayError::TopicMapping(m)) => assert_eq!(
            m,
            "template 'no-placeholder' must contain the '{topic}' placeholder"
        ),
        other => panic!("unexpected {:?}", other),
    }
}

#[test]
fn template_keeps_its_text() {
    let tmpl = TopicTemplate::new("a.{topic}.b").unwrap();
    assert_eq!(tmpl.as_str(), "a.{topic}.b");
    assert_eq!(tmpl.clone().as_str(), "a.{topic}.b");
}

#[test]
fn render_with_placeholder_gives_back_template() {
    let tmpl = TopicTemplate::new("x{topic}y{topic}").unwrap();
    assert_eq!(tmpl.render("{topic}"), "x{topic}y{topic}");
}

#[test]
fn render_edge_cases() {
    let tmpl = TopicTemplate::new("{{topic}}").unwrap();
    assert_eq!(tmpl.render("t"), "{t}");
    let tmpl = TopicTemplate::new("{topic}").unwrap();
    assert_eq!(tmpl.render(""), "");
    let tmpl = TopicTemplate::new("ü-{topic}-é").unwrap();
    assert_eq!(tmpl.render("ß"), "ü-ß-é");
    let tmpl = TopicTemplate::new("{topic}{topic}").unwrap();
    assert_eq!(tmpl.render("{topic}"), "{topic}{topic}");
}

#[test]
fn text_operations_match_std() {
    let cases = [
        ("aaaa", "aa", "b"),
        ("abc", "", "-"),
        ("", "", "-"),
        ("abcabc", "bc", ""),
        ("xyz", "xyzw", "q"),
    ];
    for (s, p, r) in cases {
        assert_eq!(replace_text(s, p, r), s.replace(p, r));
        assert_eq!(contains(s, p), s.contains(p));
    }
    let items = vec!["a".to_string(), "b".to_string(), "c".to_string()];
    assert_eq!(join(&items, ", "), "a, b, c");
    assert_eq!(join(&vec![], ", "), "");
}
