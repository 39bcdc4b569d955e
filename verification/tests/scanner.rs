use templet::error::RenderError;
use templet::{Command, CommandType, Parser, ParserConfig, Token, Whitespace};

fn default_config() -> ParserConfig {
    ParserConfig::new(
        String::from("<%"),
        String::from("%>"),
        '\0',
        '*',
        '-',
        '_',
        String::from("out"),
    )
}

#[test]
fn no_tag_yields_single_text_token() {
    let config = default_config();
    let parser = Parser::new("plain text, no directives", &config);
    let tokens = parser.parse_tokens().unwrap();
    assert_eq!(tokens, vec![Token::Text("plain text, no directives")]);
}

#[test]
fn empty_input_yields_no_tokens() {
    let config = default_config();
    let parser = Parser::new("", &config);
    let tokens = parser.parse_tokens().unwrap();
    assert!(tokens.is_empty());
}

#[test]
fn multi_trim_interpolate_command() {
    // config: interpolate by default, execution '*', single '-', multi '_'
    let config = default_config();
    let parser = Parser::new("a<%_ x %>b", &config);
    let tokens = parser.parse_tokens().unwrap();
    assert_eq!(
        tokens,
        vec![
            Token::Text("a"),
            Token::Command(Command {
                kind: CommandType::Interpolate,
                opening_whitespace: Some(Whitespace::Multiple),
                closing_whitespace: None,
                content: " x ",
            }),
            Token::Text("b"),
        ]
    );
}

#[test]
fn missing_closing_tag_positioned_error() {
    let config = default_config();
    let parser = Parser::new("a<% x", &config);
    let err = parser.parse_tokens().unwrap_err();
    assert_eq!(
        err,
        RenderError::MissingClosingTag(String::from("line 1 col 3:\n\na<% x\n  ^"))
    );
}

#[test]
fn missing_command_type_when_no_default() {
    let config = ParserConfig::new(
        String::from("<%"),
        String::from("%>"),
        '=',
        '*',
        '-',
        '_',
        String::from("out"),
    );
    let parser = Parser::new("<% x %>", &config);
    let err = parser.parse_tokens().unwrap_err();
    assert!(matches!(err, RenderError::MissingCommandType(_)));
}

#[test]
fn execution_marker_and_closing_trim() {
    let config = default_config();
    let parser = Parser::new("<%* stmt() -%>tail", &config);
    let tokens = parser.parse_tokens().unwrap();
    assert_eq!(
        tokens,
        vec![
            Token::Command(Command {
                kind: CommandType::Execution,
                opening_whitespace: None,
                closing_whitespace: Some(Whitespace::Single),
                content: " stmt() ",
            }),
            Token::Text("tail"),
        ]
    );
}

#[test]
fn empty_body_is_valid() {
    let config = default_config();
    let parser = Parser::new("<%%>", &config);
    let tokens = parser.parse_tokens().unwrap();
    assert_eq!(
        tokens,
        vec![Token::Command(Command {
            kind: CommandType::Interpolate,
            opening_whitespace: None,
            closing_whitespace: None,
            content: "",
        })]
    );
}

#[test]
fn opening_tag_at_end_of_input_fails() {
    let config = default_config();
    let parser = Parser::new("abc<%", &config);
    let err = parser.parse_tokens().unwrap_err();
    assert!(matches!(err, RenderError::MissingClosingTag(_)));
}

#[test]
fn text_tokens_reproduce_surrounding_text() {
    // removing each well-formed pair and re-concatenating Text contents
    // reproduces exactly the literal surrounding text
    let config = default_config();
    let parser = Parser::new("left<% a %>mid<%* b %>right", &config);
    let tokens = parser.parse_tokens().unwrap();
    let texts: String = tokens
        .iter()
        .filter_map(|t| match t {
            Token::Text(s) => Some(*s),
            Token::Command(_) => None,
        })
        .collect();
    assert_eq!(texts, "leftmidright");
}

#[test]
fn error_position_counts_lines() {
    let config = default_config();
    let parser = Parser::new("ab\ncd<% x", &config);
    let err = parser.parse_tokens().unwrap_err();
    assert_eq!(
        err,
        RenderError::MissingClosingTag(String::from("line 2 col 4:\n\ncd<% x\n   ^"))
    );
}

#[test]
fn marker_inside_body_is_plain_text() {
    // trim markers are recognised only adjacent to the tags
    let config = default_config();
    let parser = Parser::new("<% a_b %>", &config);
    let tokens = parser.parse_tokens().unwrap();
    assert_eq!(
        tokens,
        vec![Token::Command(Command {
            kind: CommandType::Interpolate,
            opening_whitespace: None,
            closing_whitespace: None,
            content: " a_b ",
        })]
    );
}

#[test]
fn config_accessors_round_trip() {
    let mut config = default_config();
    assert_eq!(config.opening_tag(), "<%");
    assert_eq!(config.closing_tag(), "%>");
    assert_eq!(config.global_var(), "out");
    config.set_opening_tag(String::from("{{"));
    config.set_closing_tag(String::from("}}"));
    config.set_global_var(String::from("acc"));
    assert_eq!(config.opening_tag(), "{{");
    assert_eq!(config.closing_tag(), "}}");
    assert_eq!(config.global_var(), "acc");
    let parser = Parser::new("x{{ v }}y", &config);
    let tokens = parser.parse_tokens().unwrap();
    assert_eq!(
        tokens,
        vec![
            Token::Text("x"),
            Token::Command(Command {
                kind: CommandType::Interpolate,
                opening_whitespace: None,
                closing_whitespace: None,
                content: " v ",
            }),
            Token::Text("y"),
        ]
    );
}

#[test]
fn render_error_messages() {
    assert_eq!(
        RenderError::SyntaxError(String::from("bad")).message(),
        "Template syntax error: bad"
    );
    assert_eq!(
        RenderError::FunctionError.message(),
        "Template function call error"
    );
    assert_eq!(
        RenderError::MissingCommandType(String::from("p")).message(),
        "Missing command type at p"
    );
    assert_eq!(
        RenderError::MissingClosingTag(String::from("p")).message(),
        "Missing closing command tag at p"
    );
}

#[test]
fn error_position_counts_characters() {
    // position arithmetic is in characters, end to end, so a multi-byte
    // character advances the column by one
    let config = default_config();
    let parser = Parser::new("é<% x", &config);
    let err = parser.parse_tokens().unwrap_err();
    assert_eq!(
        err,
        RenderError::MissingClosingTag(String::from("line 1 col 3:\n\né<% x\n  ^"))
    );
}

#[test]
fn error_position_after_earlier_command() {
    let config = default_config();
    let parser = Parser::new("<% a %>\n<% b", &config);
    let err = parser.parse_tokens().unwrap_err();
    assert_eq!(
        err,
        RenderError::MissingClosingTag(String::from("line 2 col 2:\n\n<% b\n ^"))
    );
}

#[test]
fn count_newlines_counts() {
    assert_eq!(templet::utils::count_newlines(""), 0);
    assert_eq!(templet::utils::count_newlines("abc"), 0);
    assert_eq!(templet::utils::count_newlines("a\nb\nc\n"), 3);
    assert_eq!(templet::utils::count_newlines("\r\n\r\n"), 2);
}
