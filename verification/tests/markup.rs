use backlog_sync::markdown::backlog_to_markdown;

#[test]
fn converts_supported_syntax() {
    let input = "h1. Title\nh2. Sec\nh3. Sub\n* item\n{{ code }}";
    let md = backlog_to_markdown(input);
    assert!(md.contains("# Title"));
    assert!(md.contains("## Sec"));
    assert!(md.contains("### Sub"));
    assert!(md.contains("- item"));
    assert!(md.contains("`code`"));
}

#[test]
fn flattens_unsupported_markup() {
    let input = "{color:red}warn{color} and [[link text]]";
    let md = backlog_to_markdown(input);
    assert_eq!(md, "warn and link text");
}

#[test]
fn conversion_is_idempotent_on_converted_text() {
    let inputs = [
        "h1. Title\nh2. Sec\nh3. Sub\n* item\n{{ code }}",
        "{color:red}warn{color} and [[link text]]",
        "{quote}a quote{quote}\nplain text",
        "unbalanced {{ braces and [[ brackets",
        "",
    ];
    for input in inputs {
        let once = backlog_to_markdown(input);
        let twice = backlog_to_markdown(&once);
        assert_eq!(once, twice);
    }
}

#[test]
fn heading_markers_only_at_line_start() {
    let md = backlog_to_markdown("say h1. nothing\nh2. Real");
    assert_eq!(md, "say h1. nothing\n## Real");
}

#[test]
fn bullet_without_space_is_kept() {
    let md = backlog_to_markdown("*bold-ish\n* real item");
    assert_eq!(md, "*bold-ish\n- real item");
}

#[test]
fn code_span_trims_interior_whitespace() {
    assert_eq!(backlog_to_markdown("{{  spaced  }}"), "`spaced`");
    assert_eq!(backlog_to_markdown("a {{x}} b"), "a `x` b");
}

#[test]
fn stray_braces_are_flattened() {
    assert_eq!(backlog_to_markdown("left {{ only"), "left  only");
    assert_eq!(backlog_to_markdown("right }} only"), "right  only");
    assert_eq!(backlog_to_markdown("{quote}q{quote}"), "q");
}

#[test]
fn malformed_input_never_fails() {
    for input in ["{{{{}}}}", "[[[[]]]]", "{color:", "{color:}}", "[[", "]]", "{{ \n }}"] {
        let _ = backlog_to_markdown(input);
    }
}
