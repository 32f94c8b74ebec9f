use syncy::config::ConfigError;
use syncy::config::DestinationRepository;
use syncy::config::SourceRepository;
use syncy::expr::WorkDirExpression;
use syncy::fixtures::workdir_path::create_glob_single;
use syncy::fixtures::workdir_path::create_glob_single_with_exclude;
use syncy::parser::parse_config;
use syncy::parser::Config;
use syncy::parser::ParsedConfig;
use syncy::transform::CustomRegex;
use syncy::transform::DescriptorArg;
use syncy::transform::MoveArgs;
use syncy::transform::ReplaceArgs;
use syncy::transform::Transformation;
use syncy::transform::TransformationDescriptor;

fn descriptor(fn_name: &str, args: &[(&str, &str)]) -> TransformationDescriptor {
    TransformationDescriptor {
        fn_name: fn_name.to_string(),
        args: args
            .iter()
            .map(|(name, value)| DescriptorArg {
                name: name.to_string(),
                value: value.to_string(),
            })
            .collect(),
    }
}

fn base_repositories() -> (SourceRepository, DestinationRepository) {
    (
        SourceRepository {
            owner: "my_name".to_string(),
            name: "test1".to_string(),
            git_ref: "main".to_string(),
        },
        DestinationRepository {
            owner: "my_name".to_string(),
            name: "test2".to_string(),
        },
    )
}

#[test]
fn success_workdir_glob() {
    let (expected_source, expected_destination) = base_repositories();

    let transformation = descriptor("builtin.move", &[("before", ""), ("after", "my_folder")]);

    let config = Config {
        version: "0.0.1".to_string(),
        source: expected_source.clone(),
        destinations: vec![expected_destination.clone()],
        token: "random_token".to_string(),
        origin_files: Some("glob(\"**\")".to_string()),
        destination_files: Some("glob(\"my_folder/**\")".to_string()),
        transformations: Some(vec![transformation]),
    };

    let parsed_config = parse_config(config.clone()).unwrap();

    let expected_transformation_args = MoveArgs {
        before: "".to_string(),
        after: "my_folder".to_string(),
    };
    let expected_transformation = Transformation::Move {
        args: expected_transformation_args,
    };
    let expected_config = ParsedConfig {
        version: "0.0.1".to_string(),
        source: expected_source,
        destinations: vec![expected_destination],
        token: "random_token".to_string(),
        origin_files: create_glob_single("**"),
        destination_files: create_glob_single("my_folder/**"),
        transformations: Some(vec![expected_transformation]),
    };

    assert_eq!(parsed_config, expected_config)
}

#[test]
fn success_workdir_glob_with_exclude() {
    let (expected_source, expected_destination) = base_repositories();

    let transformation = descriptor("builtin.move", &[("before", ""), ("after", "my_folder")]);

    let config = Config {
        version: "0.0.1".to_string(),
        source: expected_source.clone(),
        destinations: vec![expected_destination.clone()],
        token: "random_token".to_string(),
        origin_files: Some("glob(\"**\", \"readme\")".to_string()),
        destination_files: Some("glob(\"my_folder/**\", \"my_folder/dist/**\")".to_string()),
        transformations: Some(vec![transformation]),
    };

    let parsed_config = parse_config(config.clone()).unwrap();

    let expected_transformation_args = MoveArgs {
        before: "".to_string(),
        after: "my_folder".to_string(),
    };
    let expected_transformation = Transformation::Move {
        args: expected_transformation_args,
    };
    let expected_config = ParsedConfig {
        version: "0.0.1".to_string(),
        source: expected_source,
        destinations: vec![expected_destination],
        token: "random_token".to_string(),
        origin_files: create_glob_single_with_exclude("**", "readme"),
        destination_files: create_glob_single_with_exclude("my_folder/**", "my_folder/dist/**"),
        transformations: Some(vec![expected_transformation]),
    };

    assert_eq!(parsed_config, expected_config)
}

#[test]
fn success_workdir_when_none() {
    let (expected_source, expected_destination) = base_repositories();

    let transformation = descriptor("builtin.move", &[("before", ""), ("after", "my_folder")]);

    let config = Config {
        version: "0.0.1".to_string(),
        source: expected_source.clone(),
        destinations: vec![expected_destination.clone()],
        token: "random_token".to_string(),
        origin_files: None,
        destination_files: None,
        transformations: Some(vec![transformation]),
    };

    let parsed_config = parse_config(config.clone()).unwrap();

    let expected_transformation_args = MoveArgs {
        before: "".to_string(),
        after: "my_folder".to_string(),
    };
    let expected_transformation = Transformation::Move {
        args: expected_transformation_args,
    };

    let expected_config = ParsedConfig {
        version: "0.0.1".to_string(),
        source: expected_source,
        destinations: vec![expected_destination],
        token: "random_token".to_string(),
        origin_files: WorkDirExpression::Path("".to_string()),
        destination_files: WorkDirExpression::Path("".to_string()),
        transformations: Some(vec![expected_transformation]),
    };

    assert_eq!(parsed_config, expected_config)
}

#[test]
fn success_workdir_path() {
    let (expected_source, expected_destination) = base_repositories();

    let transformation = descriptor("builtin.move", &[("before", ""), ("after", "my_folder")]);

    let config = Config {
        version: "0.0.1".to_string(),
        source: expected_source.clone(),
        destinations: vec![expected_destination.clone()],
        token: "random_token".to_string(),
        origin_files: Some("path1".to_string()),
        destination_files: Some("path2".to_string()),
        transformations: Some(vec![transformation]),
    };

    let parsed_config = parse_config(config.clone()).unwrap();

    let expected_transformation_args = MoveArgs {
        before: "".to_string(),
        after: "my_folder".to_string(),
    };
    let expected_transformation = Transformation::Move {
        args: expected_transformation_args,
    };
    let expected_config = ParsedConfig {
        version: "0.0.1".to_string(),
        source: expected_source,
        destinations: vec![expected_destination],
        token: "random_token".to_string(),
        origin_files: WorkDirExpression::Path("path1".to_string()),
        destination_files: WorkDirExpression::Path("path2".to_string()),
        transformations: Some(vec![expected_transformation]),
    };

    assert_eq!(parsed_config, expected_config)
}

#[test]
fn parser_success() {
    let (expected_source, expected_destination) = base_repositories();

    let transformation = descriptor("builtin.replace", &[("before", "kek"), ("after", "lol")]);

    let config = Config {
        version: "0.0.1".to_string(),
        source: expected_source.clone(),
        destinations: vec![expected_destination.clone()],
        token: "random_token".to_string(),
        origin_files: Some("path1".to_string()),
        destination_files: Some("path2".to_string()),
        transformations: Some(vec![transformation]),
    };

    let parsed_config = parse_config(config.clone()).unwrap();

    let expected_transformation_args = ReplaceArgs {
        before: CustomRegex("kek".to_string()),
        after: "lol".to_string(),
    };
    let expected_transformation = Transformation::Replace {
        args: expected_transformation_args,
    };
    let expected_config = ParsedConfig {
        version: "0.0.1".to_string(),
        source: expected_source,
        destinations: vec![expected_destination],
        token: "random_token".to_string(),
        origin_files: WorkDirExpression::Path("path1".to_string()),
        destination_files: WorkDirExpression::Path("path2".to_string()),
        transformations: Some(vec![expected_transformation]),
    };

    assert_eq!(parsed_config, expected_config)
}

#[test]
fn unknown_transformation_fn_is_config_error() {
    let (source, destination) = base_repositories();
    let config = Config {
        version: "0.0.1".to_string(),
        source,
        destinations: vec![destination],
        token: "random_token".to_string(),
        origin_files: Some("glob(\"**\")".to_string()),
        destination_files: Some("glob(\"my_folder/**\")".to_string()),
        transformations: Some(vec![descriptor("random", &[])]),
    };

    assert_eq!(
        parse_config(config),
        Err(ConfigError::UnknownTransformation("random".to_string()))
    );
}

#[test]
fn missing_move_before_is_config_error() {
    let (source, destination) = base_repositories();
    let config = Config {
        version: "0.0.1".to_string(),
        source,
        destinations: vec![destination],
        token: "random_token".to_string(),
        origin_files: Some("glob(\"**\")".to_string()),
        destination_files: Some("glob(\"my_folder/**\")".to_string()),
        transformations: Some(vec![descriptor("builtin.move", &[("after", "random")])]),
    };

    assert_eq!(
        parse_config(config),
        Err(ConfigError::MissingArgument("before".to_string()))
    );
}

#[test]
fn missing_move_after_is_config_error() {
    let (source, destination) = base_repositories();
    let config = Config {
        version: "0.0.1".to_string(),
        source,
        destinations: vec![destination],
        token: "random_token".to_string(),
        origin_files: Some("glob(\"**\")".to_string()),
        destination_files: Some("glob(\"my_folder/**\")".to_string()),
        transformations: Some(vec![descriptor("builtin.move", &[("before", "random")])]),
    };

    assert_eq!(
        parse_config(config),
        Err(ConfigError::MissingArgument("after".to_string()))
    );
}

#[test]
fn invalid_replace_regex_is_config_error() {
    let (source, destination) = base_repositories();
    let config = Config {
        version: "0.0.1".to_string(),
        source,
        destinations: vec![destination],
        token: "random_token".to_string(),
        origin_files: None,
        destination_files: None,
        transformations: Some(vec![descriptor(
            "builtin.replace",
            &[("before", "("), ("after", "x")],
        )]),
    };

    assert_eq!(
        parse_config(config),
        Err(ConfigError::InvalidRegex("(".to_string()))
    );
}

#[test]
fn transformation_order_is_preserved() {
    let (source, destination) = base_repositories();
    let config = Config {
        version: "0.0.1".to_string(),
        source,
        destinations: vec![destination],
        token: "random_token".to_string(),
        origin_files: None,
        destination_files: None,
        transformations: Some(vec![
            descriptor("builtin.move", &[("before", "a"), ("after", "b")]),
            descriptor("builtin.replace", &[("before", "x"), ("after", "y")]),
            descriptor("builtin.move", &[("before", "c"), ("after", "d")]),
        ]),
    };

    let parsed = parse_config(config).unwrap();
    let transformations = parsed.transformations.unwrap();
    assert_eq!(transformations.len(), 3);
    assert_eq!(
        transformations[0],
        Transformation::Move {
            args: MoveArgs { before: "a".to_string(), after: "b".to_string() }
        }
    );
    assert_eq!(
        transformations[1],
        Transformation::Replace {
            args: ReplaceArgs {
                before: CustomRegex("x".to_string()),
                after: "y".to_string()
            }
        }
    );
    assert_eq!(
        transformations[2],
        Transformation::Move {
            args: MoveArgs { before: "c".to_string(), after: "d".to_string() }
        }
    );
}
