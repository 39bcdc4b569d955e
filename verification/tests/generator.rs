use templet::resolve::{collect_results, substitute_placeholders};
use templet::{Parser, ParserConfig, Whitespace};

fn default_config() -> ParserConfig {
    ParserConfig::new(
        String::from("<%"),
        String::from("%>"),
        '\0',
        '*',
        '-',
        '_',
        String::from("out"),
    )
}

#[test]
fn trim_none_is_identity() {
    let config = default_config();
    let parser = Parser::new("", &config);
    assert_eq!(parser.trim_whitespace("  \n x \r\n", None, true), "  \n x \r\n");
    assert_eq!(parser.trim_whitespace("  \n x \r\n", None, false), "  \n x \r\n");
}

#[test]
fn trim_multiple_strips_all_boundary_whitespace() {
    let config = default_config();
    let parser = Parser::new("", &config);
    let w = Some(&Whitespace::Multiple);
    assert_eq!(parser.trim_whitespace(" \t\r\n x", w, true), "x");
    assert_eq!(parser.trim_whitespace("x \t\r\n ", w, false), "x");
    // idempotent: all boundary whitespace is gone after one pass
    let once = parser.trim_whitespace(" \t\n x \n\t ", w, true);
    assert_eq!(parser.trim_whitespace(once, w, true), once);
    let once_r = parser.trim_whitespace(" \t\n x \n\t ", w, false);
    assert_eq!(parser.trim_whitespace(once_r, w, false), once_r);
    assert_eq!(parser.trim_whitespace(" \t \r\n ", w, true), "");
}

#[test]
fn trim_single_removes_at_most_one_line_terminator() {
    let config = default_config();
    let parser = Parser::new("", &config);
    let w = Some(&Whitespace::Single);
    // plain spaces are never touched
    assert_eq!(parser.trim_whitespace("  \nX", w, true), "  \nX");
    assert_eq!(parser.trim_whitespace("\nX", w, true), "X");
    assert_eq!(parser.trim_whitespace("\n\nX", w, true), "\nX");
    assert_eq!(parser.trim_whitespace("\n\rX", w, true), "X");
    assert_eq!(parser.trim_whitespace("\rX", w, true), "X");
    assert_eq!(parser.trim_whitespace("X\n", w, false), "X");
    assert_eq!(parser.trim_whitespace("X\r\n", w, false), "X");
    assert_eq!(parser.trim_whitespace("X\n\n", w, false), "X\n");
    assert_eq!(parser.trim_whitespace("X  ", w, false), "X  ");
    // only a leading newline opens a leading trim, and only a trailing
    // newline opens a trailing trim
    assert_eq!(parser.trim_whitespace("\r\nX", w, true), "\r\nX");
    assert_eq!(parser.trim_whitespace("X\r", w, false), "X\r");
}

#[test]
fn escape_text_escapes_specials() {
    let config = default_config();
    let parser = Parser::new("", &config);
    assert_eq!(parser.escape_text("plain"), "plain");
    assert_eq!(parser.escape_text("a\\b"), "a\\\\b");
    assert_eq!(parser.escape_text("a\nb"), "a\\nb");
    assert_eq!(parser.escape_text("a\rb"), "a\\rb");
    assert_eq!(parser.escape_text("it's"), "it\\'s");
    assert_eq!(parser.escape_text("\\\n\r'"), "\\\\\\n\\r\\'");
}

#[test]
fn generated_program_for_scenario() {
    let config = default_config();
    let parser = Parser::new("a<%_ x %>b", &config);
    let tokens = parser.parse_tokens().unwrap();
    let js = parser.generate_js(tokens);
    assert_eq!(
        js,
        "let __prs = [];\nlet out = '';\nout+='a';\n__prs.push( x );\nout+='rJ2KqXzxQg';\nout+='b';\nconst __rst = await Promise.all(__prs);\nout = out.replace(/rJ2KqXzxQg/g, () => __rst.shift());\nreturn out;\n"
    );
}

#[test]
fn generated_program_trims_and_escapes_literals() {
    let config = default_config();
    let parser = Parser::new("x \n<%_* run() _%> \n 'y'\n<%- v -%>\nz", &config);
    let tokens = parser.parse_tokens().unwrap();
    let js = parser.generate_js(tokens);
    assert_eq!(
        js,
        "let __prs = [];\nlet out = '';\nout+='x';\n run() ;\nout+='\\'y\\'';\n__prs.push( v );\nout+='rJ2KqXzxQg';\nout+='z';\nconst __rst = await Promise.all(__prs);\nout = out.replace(/rJ2KqXzxQg/g, () => __rst.shift());\nreturn out;\n"
    );
}

#[test]
fn execution_command_has_no_accumulator_interaction() {
    let config = default_config();
    let parser = Parser::new("<%*go()%>", &config);
    let tokens = parser.parse_tokens().unwrap();
    let js = parser.generate_js(tokens);
    assert_eq!(
        js,
        "let __prs = [];\nlet out = '';\ngo();\nconst __rst = await Promise.all(__prs);\nout = out.replace(/rJ2KqXzxQg/g, () => __rst.shift());\nreturn out;\n"
    );
}

#[test]
fn substitution_replaces_occurrences_in_order() {
    let marker = Parser::replacement_marker();
    let acc = format!("a{}b{}c", marker, marker);
    let results = vec![String::from("1"), String::from("2")];
    assert_eq!(substitute_placeholders(&acc, marker, &results), "a1b2c");
}

#[test]
fn substitution_order_keyed_to_enqueue_position() {
    // results completing in reverse order still land at their enqueue
    // positions
    let marker = Parser::replacement_marker();
    let acc = format!("<{}|{}|{}>", marker, marker, marker);
    let completions = vec![
        (2usize, String::from("two")),
        (1usize, String::from("one")),
        (0usize, String::from("zero")),
    ];
    let collected = collect_results(3, &completions);
    assert_eq!(collected, vec!["zero", "one", "two"]);
    assert_eq!(
        substitute_placeholders(&acc, marker, &collected),
        "<zero|one|two>"
    );
}

#[test]
fn substitution_leaves_extra_occurrences() {
    let marker = Parser::replacement_marker();
    let acc = format!("a{}b{}", marker, marker);
    let results = vec![String::from("1")];
    assert_eq!(
        substitute_placeholders(&acc, marker, &results),
        format!("a1b{}", marker)
    );
}
