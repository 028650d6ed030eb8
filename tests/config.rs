use aureate::assets::OutputFormat;
use aureate::config::{
    collapse_inputs, parse_char_setting, parse_output_format, parse_quote_settings, parse_trim,
    same_text, verbosity, ParserConfig, ProgramArgs, Trim, Verbosity,
};
use aureate::input::{classify_reader, get_reader, ReadFrom};

fn strings(v: &[&str]) -> Vec<String> {
    v.iter().map(|s| s.to_string()).collect()
}

#[test]
fn verbosity_levels() {
    assert_eq!(verbosity(0, false), Verbosity::Info);
    assert_eq!(verbosity(1, false), Verbosity::Debug);
    assert_eq!(verbosity(4, false), Verbosity::Trace);
    assert_eq!(verbosity(2, true), Verbosity::Off);
}

#[test]
fn output_format_names() {
    assert_eq!(parse_output_format("prettyj"), Some(OutputFormat::JsonPretty));
    assert_eq!(parse_output_format("json"), Some(OutputFormat::Json));
    assert_eq!(parse_output_format("yaml"), Some(OutputFormat::Yaml));
    assert_eq!(parse_output_format("xml"), None);
    assert_eq!(OutputFormat::JsonPretty.label(), "Pretty Json");
    assert_eq!(OutputFormat::Yaml.label(), "Yaml");
    assert_eq!(OutputFormat::Json.label(), "Json");
}

#[test]
fn trim_levels() {
    assert_eq!(parse_trim("0"), Some(Trim::Off));
    assert_eq!(parse_trim("none"), Some(Trim::Off));
    assert_eq!(parse_trim("headers"), Some(Trim::Headers));
    assert_eq!(parse_trim("2"), Some(Trim::Fields));
    assert_eq!(parse_trim("all"), Some(Trim::All));
    assert_eq!(parse_trim("4"), None);
}

#[test]
fn quote_policies() {
    assert_eq!(parse_quote_settings(None), Some((true, true)));
    assert_eq!(parse_quote_settings(Some("double")), Some((false, true)));
    assert_eq!(parse_quote_settings(Some("all")), Some((false, false)));
    assert_eq!(parse_quote_settings(Some("some")), None);
}

#[test]
fn char_settings() {
    assert_eq!(parse_char_setting("\\t"), Some(b'\t'));
    assert_eq!(parse_char_setting(";"), Some(b';'));
    assert_eq!(parse_char_setting("|x"), Some(b'|'));
    assert_eq!(parse_char_setting(""), None);
    assert!(same_text("abc", "abc"));
    assert!(!same_text("abc", "abd"));
}

#[test]
fn dash_runs_collapse() {
    assert_eq!(collapse_inputs(strings(&["-", "-", "a.csv", "-"])), strings(&["-", "a.csv", "-"]));
    assert_eq!(collapse_inputs(strings(&["a.csv", "b.csv"])), strings(&["a.csv"]));
    assert_eq!(collapse_inputs(Vec::new()), Vec::<String>::new());
}

#[test]
fn standard_parser_settings() {
    let c = ParserConfig::standard();
    assert_eq!(c.delimiter, b',');
    assert_eq!(c.quote, b'"');
    assert_eq!(c.escape, None);
    assert_eq!(c.comment, None);
    assert!(!c.flexible);
    assert_eq!(c.trim, Trim::Off);
    assert!(c.double_quote && c.quoting);
}

#[test]
fn program_args_getters() {
    let mut parser = ParserConfig::standard();
    parser.delimiter = b';';
    parser.escape = Some(b'\\');
    parser.comment = Some(b'#');
    parser.flexible = true;
    parser.trim = Trim::All;
    parser.double_quote = false;
    let args = ProgramArgs::new(
        Verbosity::Debug,
        OutputFormat::Yaml,
        vec![Some(ReadFrom::Stdin)],
        (Some("out.json".to_string()), true),
        parser,
    );
    assert_eq!(args.debug_level(), Verbosity::Debug);
    assert_eq!(args.output_type(), OutputFormat::Yaml);
    assert_eq!(args.reader_list().len(), 1);
    assert_eq!(args.writer(), &(Some("out.json".to_string()), true));
    assert_eq!(args.delimiter(), b';');
    assert!(args.flexible());
    assert_eq!(args.escape(), Some(b'\\'));
    assert_eq!(args.comment(), Some(b'#'));
    assert_eq!(args.quote(), b'"');
    assert_eq!(args.trim_settings(), Trim::All);
    assert_eq!(args.quote_settings(), (false, true));
}

#[test]
fn reader_choice() {
    assert!(matches!(classify_reader(None, false), Some(ReadFrom::Stdin)));
    assert!(matches!(classify_reader(Some("-"), true), Some(ReadFrom::Stdin)));
    match classify_reader(Some("data.csv"), true) {
        Some(ReadFrom::File(p)) => assert_eq!(p, "data.csv"),
        _ => panic!("expected a file"),
    }
    assert!(classify_reader(Some("data.csv"), false).is_none());
    assert!(matches!(get_reader(Some("-")), Some(ReadFrom::Stdin)));
    assert!(matches!(get_reader(None), Some(ReadFrom::Stdin)));
    assert!(get_reader(Some("/no/such/file/anywhere.csv")).is_none());
    assert!(get_reader(Some("/")).is_none());
}
