//! The configuration compiler: turns the raw configuration record — plain
//! strings and descriptor records — into a fully typed configuration, failing
//! fast on the first bad field.

use vstd::prelude::*;

use crate::config::ConfigError;
use crate::config::ConfigErrorView;
use crate::config::DestinationRepository;
use crate::config::DestinationRepositoryView;
use crate::config::SourceRepository;
use crate::config::SourceRepositoryView;
use crate::expr::parse_work_dir_expression;
use crate::expr::parse_workdir_spec;
use crate::expr::WorkDirExpression;
use crate::expr::WorkDirExpressionView;
use crate::transform::compile_spec;
use crate::transform::parse_transformations;
use crate::transform::Transformation;
use crate::transform::TransformationDescriptor;
use crate::transform::TransformationDescriptorView;
use crate::transform::TransformationView;

verus! {

/// The raw configuration record, as the loader hands it over: workdir
/// expressions still strings, transformations still descriptor records.
#[derive(Debug, Clone, PartialEq)]
pub struct Config {
    pub version: String,
    pub source: SourceRepository,
    pub destinations: Vec<DestinationRepository>,
    pub token: String,
    pub destination_files: Option<String>,
    pub origin_files: Option<String>,
    pub transformations: Option<Vec<TransformationDescriptor>>,
}

/// Mathematical image of a [`Config`].
pub ghost struct ConfigView {
    pub version: Seq<char>,
    pub source: SourceRepositoryView,
    pub destinations: Seq<DestinationRepositoryView>,
    pub token: Seq<char>,
    pub destination_files: Option<Seq<char>>,
    pub origin_files: Option<Seq<char>>,
    pub transformations: Option<Seq<TransformationDescriptorView>>,
}

impl View for Config {
    type V = ConfigView;

    open spec fn view(&self) -> ConfigView {
        ConfigView {
            version: self.version@,
            source: self.source@,
            destinations: self.destinations@.map_values(|d: DestinationRepository| d@),
            token: self.token@,
            destination_files: match self.destination_files {
                Some(s) => Some(s@),
                None => None,
            },
            origin_files: match self.origin_files {
                Some(s) => Some(s@),
                None => None,
            },
            transformations: match self.transformations {
                Some(ds) => Some(ds@.map_values(|d: TransformationDescriptor| d@)),
                None => None,
            },
        }
    }
}

/// The fully compiled configuration a run works from.
#[derive(Debug, Clone, PartialEq)]
pub struct ParsedConfig {
    pub version: String,
    pub source: SourceRepository,
    pub destinations: Vec<DestinationRepository>,
    pub token: String,
    pub destination_files: WorkDirExpression,
    pub origin_files: WorkDirExpression,
    pub transformations: Option<Vec<Transformation>>,
}

/// Mathematical image of a [`ParsedConfig`].
pub ghost struct ParsedConfigView {
    pub version: Seq<char>,
    pub source: SourceRepositoryView,
    pub destinations: Seq<DestinationRepositoryView>,
    pub token: Seq<char>,
    pub destination_files: WorkDirExpressionView,
    pub origin_files: WorkDirExpressionView,
    pub transformations: Option<Seq<TransformationView>>,
}

impl View for ParsedConfig {
    type V = ParsedConfigView;

    open spec fn view(&self) -> ParsedConfigView {
        ParsedConfigView {
            version: self.version@,
            source: self.source@,
            destinations: self.destinations@.map_values(|d: DestinationRepository| d@),
            token: self.token@,
            destination_files: self.destination_files@,
            origin_files: self.origin_files@,
            transformations: match self.transformations {
                Some(ts) => Some(ts@.map_values(|t: Transformation| t@)),
                None => None,
            },
        }
    }
}

/// An absent workdir-expression string is read as the empty string, a
/// whole-tree pass-through.
pub open spec fn or_empty(o: Option<Seq<char>>) -> Seq<char> {
    match o {
        Some(s) => s,
        None => Seq::empty(),
    }
}

/// What compiling the optional descriptor sequence yields.
pub open spec fn compile_opt_spec(o: Option<Seq<TransformationDescriptorView>>) -> Result<
    Option<Seq<TransformationView>>,
    ConfigErrorView,
> {
    match o {
        None => Ok(None),
        Some(ds) => match compile_spec(ds) {
            Ok(ts) => Ok(Some(ts)),
            Err(e) => Err(e),
        },
    }
}

/// What compiling a raw configuration yields: the origin expression is
/// compiled first, then the destination expression, then the
/// transformations; the first error aborts the run.
pub open spec fn parse_config_spec(c: ConfigView) -> Result<ParsedConfigView, ConfigErrorView> {
    match parse_workdir_spec(or_empty(c.origin_files)) {
        Err(e) => Err(e),
        Ok(origin) => match parse_workdir_spec(or_empty(c.destination_files)) {
            Err(e) => Err(e),
            Ok(dest) => match compile_opt_spec(c.transformations) {
                Err(e) => Err(e),
                Ok(ts) => Ok(
                    ParsedConfigView {
                        version: c.version,
                        source: c.source,
                        destinations: c.destinations,
                        token: c.token,
                        destination_files: dest,
                        origin_files: origin,
                        transformations: ts,
                    },
                ),
            },
        },
    }
}

/// Compiles the raw configuration record into a typed one, per
/// [`parse_config_spec`]: absent workdir expressions default to the empty
/// path selector, and every field is validated before any remote call.
pub fn parse_config(config: Config) -> (r: Result<ParsedConfig, ConfigError>)
    ensures
        parse_config_spec(config@) is Ok <==> r is Ok,
        r is Ok ==> r->Ok_0@ == parse_config_spec(config@)->Ok_0,
        r is Err ==> r->Err_0@ == parse_config_spec(config@)->Err_0,
{
    let origin_raw: String = match &config.origin_files {
        Some(s) => s.clone(),
        None => String::new(),
    };
    let destination_raw: String = match &config.destination_files {
        Some(s) => s.clone(),
        None => String::new(),
    };
    let origin_files = match parse_work_dir_expression(origin_raw.as_str()) {
        Ok(e) => e,
        Err(e) => {
            return Err(e);
        },
    };
    let destination_files = match parse_work_dir_expression(destination_raw.as_str()) {
        Ok(e) => e,
        Err(e) => {
            return Err(e);
        },
    };
    let transformations = match parse_transformations(&config.transformations) {
        Ok(ts) => ts,
        Err(e) => {
            return Err(e);
        },
    };
    Ok(
        ParsedConfig {
            version: config.version,
            source: config.source,
            destinations: config.destinations,
            token: config.token,
            destination_files,
            origin_files,
            transformations,
        },
    )
}

} // verus!
