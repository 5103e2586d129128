use quickcfg::environment::MapEnvironment;
use quickcfg::facts::Facts;
use quickcfg::template::{ParseError, Part, RelativePathError, Template};

#[test]
fn test_parse_template() {
    let t = Template::parse("home://root/{foo}/$HOME/bar.yaml").unwrap();

    assert_eq!(
        t.parts,
        vec![
            Part::Protocol("home".to_string()),
            Part::Static("root/".to_string()),
            Part::Variable("foo".to_string()),
            Part::Static("/".to_string()),
            Part::Environ("HOME".to_string()),
            Part::Static("/bar.yaml".to_string()),
        ]
    );

    let facts = Facts::new(vec![("foo".to_string(), "baz".to_string())]);

    let mut environment = MapEnvironment::new();
    environment.insert("HOME".to_string(), "home".to_string());

    assert_eq!(
        t.render(&facts, &environment).unwrap().map(|n| n.to_string()),
        Some("root/baz/home/bar.yaml".to_string())
    );
}

#[test]
fn parse_static_only() {
    let t = Template::parse("plain/path.yaml").unwrap();
    assert_eq!(t.parts, vec![Part::Static("plain/path.yaml".to_string())]);
}

#[test]
fn parse_empty() {
    let t = Template::parse("").unwrap();
    assert_eq!(t.parts, vec![]);
}

#[test]
fn parse_missing_close() {
    assert_eq!(Template::parse("a{b"), Err(ParseError::MissingClose));
}

#[test]
fn parse_missing_char_after_close() {
    // The grammar demands one more character after a closing brace.
    assert_eq!(Template::parse("{x}"), Err(ParseError::MissingChar));
}

#[test]
fn parse_missing_char_after_dollar() {
    assert_eq!(Template::parse("a$"), Err(ParseError::MissingChar));
}

#[test]
fn parse_env_name_stops_at_lowercase() {
    // The first name character is taken as-is; the run ends at the first
    // character that is neither uppercase nor an underscore.
    let t = Template::parse("$Ab").unwrap();
    assert_eq!(
        t.parts,
        vec![Part::Environ("A".to_string()), Part::Static("b".to_string())]
    );
}

#[test]
fn parse_env_underscore_run() {
    let t = Template::parse("$MY_VAR/rest").unwrap();
    assert_eq!(
        t.parts,
        vec![
            Part::Environ("MY_VAR".to_string()),
            Part::Static("/rest".to_string()),
        ]
    );
}

#[test]
fn render_missing_variable_is_none() {
    let t = Template::parse("{gone}x").unwrap();
    let facts = Facts::new(vec![]);
    let environment = MapEnvironment::new();
    assert_eq!(t.as_string(&facts, &environment).unwrap(), None);
}

#[test]
fn render_missing_environ_is_none() {
    let t = Template::parse("$GONE").unwrap();
    let facts = Facts::new(vec![]);
    let environment = MapEnvironment::new();
    assert_eq!(t.as_string(&facts, &environment).unwrap(), None);
}

#[test]
fn as_string_ignores_protocol() {
    let t = Template::parse("home://etc/x").unwrap();
    let facts = Facts::new(vec![]);
    let environment = MapEnvironment::new();
    assert_eq!(
        t.as_string(&facts, &environment).unwrap(),
        Some("etc/x".to_string())
    );
}

#[test]
fn facts_get_last_wins() {
    let facts = Facts::new(vec![
        ("k".to_string(), "old".to_string()),
        ("k".to_string(), "new".to_string()),
    ]);
    assert_eq!(facts.get("k"), Some("new"));
    assert_eq!(facts.get("missing"), None);
}

#[test]
fn relative_rendering_refuses_protocols() {
    let facts = Facts::new(vec![]);
    let environment = MapEnvironment::new();

    let with_proto = Template::parse("home://etc/x").unwrap();
    assert!(with_proto.has_protocol());
    assert_eq!(
        with_proto.as_relative_path(&facts, &environment),
        Err(RelativePathError::Protocol)
    );

    let plain = Template::parse("etc/x").unwrap();
    assert!(!plain.has_protocol());
    assert_eq!(
        plain.as_relative_path(&facts, &environment),
        Ok(Some("etc/x".to_string()))
    );
}
