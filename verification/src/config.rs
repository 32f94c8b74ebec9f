//! Configuration data: the repositories a run reads from and writes to, and
//! the typed error raised when a configuration value cannot be compiled.

use vstd::prelude::*;

verus! {

/// The repository files are mirrored from.
#[derive(Debug, Clone, PartialEq)]
pub struct SourceRepository {
    pub owner: String,
    pub name: String,
    pub git_ref: String,
}

/// Mathematical image of a [`SourceRepository`].
pub ghost struct SourceRepositoryView {
    pub owner: Seq<char>,
    pub name: Seq<char>,
    pub git_ref: Seq<char>,
}

impl View for SourceRepository {
    type V = SourceRepositoryView;

    open spec fn view(&self) -> SourceRepositoryView {
        SourceRepositoryView { owner: self.owner@, name: self.name@, git_ref: self.git_ref@ }
    }
}

/// One repository a filtered view is mirrored into.
#[derive(Debug, Clone, PartialEq)]
pub struct DestinationRepository {
    pub owner: String,
    pub name: String,
}

/// Mathematical image of a [`DestinationRepository`].
pub ghost struct DestinationRepositoryView {
    pub owner: Seq<char>,
    pub name: Seq<char>,
}

impl View for DestinationRepository {
    type V = DestinationRepositoryView;

    open spec fn view(&self) -> DestinationRepositoryView {
        DestinationRepositoryView { owner: self.owner@, name: self.name@ }
    }
}

/// A configuration value that cannot be compiled. Raised eagerly, before any
/// remote call; the payload names the offending field.
#[derive(Debug, Clone, PartialEq)]
pub enum ConfigError {
    /// A workdir expression starts with `glob(` but its surface form, its
    /// quoting or one of its glob patterns is invalid.
    MalformedExpression(String),
    /// A transformation descriptor names a function that is not built in.
    UnknownTransformation(String),
    /// A transformation descriptor lacks a required argument.
    MissingArgument(String),
    /// A replace transformation's `before` argument is not a valid regex.
    InvalidRegex(String),
}

/// Mathematical image of a [`ConfigError`].
pub ghost enum ConfigErrorView {
    MalformedExpression(Seq<char>),
    UnknownTransformation(Seq<char>),
    MissingArgument(Seq<char>),
    InvalidRegex(Seq<char>),
}

impl View for ConfigError {
    type V = ConfigErrorView;

    open spec fn view(&self) -> ConfigErrorView {
        match self {
            ConfigError::MalformedExpression(s) => ConfigErrorView::MalformedExpression(s@),
            ConfigError::UnknownTransformation(s) => ConfigErrorView::UnknownTransformation(s@),
            ConfigError::MissingArgument(s) => ConfigErrorView::MissingArgument(s@),
            ConfigError::InvalidRegex(s) => ConfigErrorView::InvalidRegex(s@),
        }
    }
}

} // verus!
