use syncy::config::ConfigError;
use syncy::expr::parse_work_dir_expression;
use syncy::expr::GlobExpression;
use syncy::expr::WorkDirExpression;

#[test]
fn literal_path_round_trips() {
    let raw = "some/literal/path";
    let parsed = parse_work_dir_expression(raw).unwrap();
    assert_eq!(parsed, WorkDirExpression::Path(raw.to_string()));
    assert_eq!(parsed.display_string(), raw.to_string());
}

#[test]
fn empty_string_is_whole_tree_pass_through() {
    let parsed = parse_work_dir_expression("").unwrap();
    assert_eq!(parsed, WorkDirExpression::Path("".to_string()));
    assert_eq!(parsed.display_string(), "".to_string());
}

#[test]
fn parses_single_glob() {
    let parsed = parse_work_dir_expression("glob(\"my_folder/**\")").unwrap();
    assert_eq!(
        parsed,
        WorkDirExpression::Glob(GlobExpression::Single("my_folder/**".to_string()))
    );
    assert_eq!(parsed.display_string(), "glob(\"my_folder/**\")".to_string());
}

#[test]
fn parses_glob_with_exclude() {
    let parsed =
        parse_work_dir_expression("glob(\"my_folder/**\", \"my_folder/dist/**\")").unwrap();
    assert_eq!(
        parsed,
        WorkDirExpression::Glob(GlobExpression::SingleWithExclude(
            "my_folder/**".to_string(),
            "my_folder/dist/**".to_string()
        ))
    );
    assert_eq!(
        parsed.display_string(),
        "glob(\"my_folder/**\", \"my_folder/dist/**\")".to_string()
    );
}

#[test]
fn unterminated_glob_is_config_error() {
    let raw = "glob(\"unterminated";
    assert_eq!(
        parse_work_dir_expression(raw),
        Err(ConfigError::MalformedExpression(raw.to_string()))
    );
}

#[test]
fn glob_with_trailing_garbage_is_config_error() {
    let raw = "glob(\"a\")x";
    assert_eq!(
        parse_work_dir_expression(raw),
        Err(ConfigError::MalformedExpression(raw.to_string()))
    );
}

#[test]
fn glob_without_quotes_is_config_error() {
    let raw = "glob(abc)";
    assert_eq!(
        parse_work_dir_expression(raw),
        Err(ConfigError::MalformedExpression(raw.to_string()))
    );
}

#[test]
fn glob_with_invalid_pattern_is_config_error() {
    let raw = "glob(\"a[\")";
    assert_eq!(
        parse_work_dir_expression(raw),
        Err(ConfigError::MalformedExpression(raw.to_string()))
    );
}
