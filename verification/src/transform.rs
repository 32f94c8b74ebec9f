//! The transformation compiler. Declarative rewrite-rule descriptors — a
//! builtin function name with a mapping of string arguments — are compiled
//! into typed transformations: `Move` rewrites paths, `Replace` rewrites
//! content. Only the two builtin operations exist; anything else is a
//! configuration error, raised before any remote call.

use vstd::prelude::*;

use crate::config::ConfigError;
use crate::config::ConfigErrorView;
use crate::pattern::regex_pattern_ok;
use crate::pattern::regex_valid;
use crate::text::str_eq;

verus! {

/// Arguments of a `builtin.move` rule: entries whose path starts with the
/// `before` prefix on a segment boundary are re-rooted under `after`.
#[derive(Debug, Clone, PartialEq)]
pub struct MoveArgs {
    pub before: String,
    pub after: String,
}

/// Mathematical image of a [`MoveArgs`].
pub ghost struct MoveArgsView {
    pub before: Seq<char>,
    pub after: Seq<char>,
}

impl View for MoveArgs {
    type V = MoveArgsView;

    open spec fn view(&self) -> MoveArgsView {
        MoveArgsView { before: self.before@, after: self.after@ }
    }
}

/// A regular expression kept as its source text; compiled by the regex
/// engine at each use, and compared by that text.
#[derive(Debug, Clone, PartialEq)]
pub struct CustomRegex(pub String);

impl View for CustomRegex {
    type V = Seq<char>;

    open spec fn view(&self) -> Seq<char> {
        self.0@
    }
}

/// Arguments of a `builtin.replace` rule: every non-overlapping match of
/// `before` in an entry's content is replaced by the literal `after`.
#[derive(Debug, Clone, PartialEq)]
pub struct ReplaceArgs {
    pub before: CustomRegex,
    pub after: String,
}

/// Mathematical image of a [`ReplaceArgs`].
pub ghost struct ReplaceArgsView {
    pub before: Seq<char>,
    pub after: Seq<char>,
}

impl View for ReplaceArgs {
    type V = ReplaceArgsView;

    open spec fn view(&self) -> ReplaceArgsView {
        ReplaceArgsView { before: self.before@, after: self.after@ }
    }
}

/// A compiled rewrite rule.
#[derive(Debug, Clone, PartialEq)]
pub enum Transformation {
    Move { args: MoveArgs },
    Replace { args: ReplaceArgs },
}

/// Mathematical image of a [`Transformation`].
pub ghost enum TransformationView {
    Move { before: Seq<char>, after: Seq<char> },
    Replace { before: Seq<char>, after: Seq<char> },
}

impl View for Transformation {
    type V = TransformationView;

    open spec fn view(&self) -> TransformationView {
        match self {
            Transformation::Move { args } => TransformationView::Move {
                before: args.before@,
                after: args.after@,
            },
            Transformation::Replace { args } => TransformationView::Replace {
                before: args.before@,
                after: args.after@,
            },
        }
    }
}

/// One named argument of a transformation descriptor.
#[derive(Debug, Clone, PartialEq)]
pub struct DescriptorArg {
    pub name: String,
    pub value: String,
}

/// Mathematical image of a [`DescriptorArg`].
pub ghost struct DescriptorArgView {
    pub name: Seq<char>,
    pub value: Seq<char>,
}

impl View for DescriptorArg {
    type V = DescriptorArgView;

    open spec fn view(&self) -> DescriptorArgView {
        DescriptorArgView { name: self.name@, value: self.value@ }
    }
}

/// A declarative rewrite-rule record: the builtin function it names and its
/// argument mapping.
#[derive(Debug, Clone, PartialEq)]
pub struct TransformationDescriptor {
    pub fn_name: String,
    pub args: Vec<DescriptorArg>,
}

/// Mathematical image of a [`TransformationDescriptor`].
pub ghost struct TransformationDescriptorView {
    pub fn_name: Seq<char>,
    pub args: Seq<DescriptorArgView>,
}

impl View for TransformationDescriptor {
    type V = TransformationDescriptorView;

    open spec fn view(&self) -> TransformationDescriptorView {
        TransformationDescriptorView {
            fn_name: self.fn_name@,
            args: self.args@.map_values(|a: DescriptorArg| a@),
        }
    }
}

/// The value of the first argument named `name`, if any.
pub open spec fn lookup_arg(args: Seq<DescriptorArgView>, name: Seq<char>) -> Option<Seq<char>>
    decreases args.len(),
{
    if args.len() == 0 {
        None
    } else if args[0].name == name {
        Some(args[0].value)
    } else {
        lookup_arg(args.drop_first(), name)
    }
}

/// What compiling one descriptor yields: a `Move` or `Replace` rule when the
/// builtin it names gets both its `before` and `after` arguments (and, for
/// `Replace`, a valid regex), else the error naming what is wrong.
pub open spec fn compile_one_spec(d: TransformationDescriptorView) -> Result<
    TransformationView,
    ConfigErrorView,
> {
    if d.fn_name == ("builtin.move")@ {
        match lookup_arg(d.args, ("before")@) {
            None => Err(ConfigErrorView::MissingArgument(("before")@)),
            Some(before) => match lookup_arg(d.args, ("after")@) {
                None => Err(ConfigErrorView::MissingArgument(("after")@)),
                Some(after) => Ok(TransformationView::Move { before, after }),
            },
        }
    } else if d.fn_name == ("builtin.replace")@ {
        match lookup_arg(d.args, ("before")@) {
            None => Err(ConfigErrorView::MissingArgument(("before")@)),
            Some(before) => match lookup_arg(d.args, ("after")@) {
                None => Err(ConfigErrorView::MissingArgument(("after")@)),
                Some(after) => if regex_valid(before) {
                    Ok(TransformationView::Replace { before, after })
                } else {
                    Err(ConfigErrorView::InvalidRegex(before))
                },
            },
        }
    } else {
        Err(ConfigErrorView::UnknownTransformation(d.fn_name))
    }
}

/// What compiling a descriptor sequence yields: the rules in order, or the
/// first error.
pub open spec fn compile_spec(ds: Seq<TransformationDescriptorView>) -> Result<
    Seq<TransformationView>,
    ConfigErrorView,
> decreases ds.len(),
{
    if ds.len() == 0 {
        Ok(Seq::empty())
    } else {
        match compile_one_spec(ds[0]) {
            Err(e) => Err(e),
            Ok(t) => match compile_spec(ds.drop_first()) {
                Err(e) => Err(e),
                Ok(rest) => Ok(seq![t] + rest),
            },
        }
    }
}

/// The value of the first argument named `name`, if any.
fn find_arg(args: &Vec<DescriptorArg>, name: &str) -> (r: Option<String>)
    ensures
        ({
            let spec_r = lookup_arg(args@.map_values(|a: DescriptorArg| a@), name@);
            match r {
                Some(v) => spec_r == Some(v@),
                None => spec_r is None,
            }
        }),
{
    let ghost view_args = args@.map_values(|a: DescriptorArg| a@);
    proof {
        assert(view_args.skip(0) =~= view_args);
    }
    let mut i: usize = 0;
    while i < args.len()
        invariant
            0 <= i <= args.len(),
            view_args == args@.map_values(|a: DescriptorArg| a@),
            lookup_arg(view_args, name@) == lookup_arg(view_args.skip(i as int), name@),
        decreases args.len() - i,
    {
        proof {
            assert(view_args.skip(i as int).drop_first() =~= view_args.skip(i as int + 1));
        }
        if str_eq(args[i].name.as_str(), name) {
            return Some(args[i].value.clone());
        }
        i += 1;
    }
    proof {
        assert(view_args.skip(args@.len() as int) =~= Seq::<DescriptorArgView>::empty());
    }
    None
}

/// Compiles one descriptor, per [`compile_one_spec`].
fn compile_descriptor(d: &TransformationDescriptor) -> (r: Result<Transformation, ConfigError>)
    ensures
        compile_one_spec(d@) is Ok <==> r is Ok,
        r is Ok ==> r->Ok_0@ == compile_one_spec(d@)->Ok_0,
        r is Err ==> r->Err_0@ == compile_one_spec(d@)->Err_0,
{
    if str_eq(d.fn_name.as_str(), "builtin.move") {
        let before = match find_arg(&d.args, "before") {
            Some(v) => v,
            None => {
                return Err(ConfigError::MissingArgument("before".to_owned()));
            },
        };
        let after = match find_arg(&d.args, "after") {
            Some(v) => v,
            None => {
                return Err(ConfigError::MissingArgument("after".to_owned()));
            },
        };
        Ok(Transformation::Move { args: MoveArgs { before, after } })
    } else if str_eq(d.fn_name.as_str(), "builtin.replace") {
        let before = match find_arg(&d.args, "before") {
            Some(v) => v,
            None => {
                return Err(ConfigError::MissingArgument("before".to_owned()));
            },
        };
        let after = match find_arg(&d.args, "after") {
            Some(v) => v,
            None => {
                return Err(ConfigError::MissingArgument("after".to_owned()));
            },
        };
        if regex_pattern_ok(before.as_str()) {
            Ok(Transformation::Replace { args: ReplaceArgs { before: CustomRegex(before), after } })
        } else {
            Err(ConfigError::InvalidRegex(before))
        }
    } else {
        Err(ConfigError::UnknownTransformation(d.fn_name.clone()))
    }
}

/// Compiles an optional descriptor sequence into the rules it declares, in
/// order, stopping at the first bad descriptor. Absent descriptors compile to
/// absent rules.
#[verifier::loop_isolation(false)]
pub fn parse_transformations(transformations: &Option<Vec<TransformationDescriptor>>) -> (r: Result<
    Option<Vec<Transformation>>,
    ConfigError,
>)
    ensures
        ({
            match transformations {
                None => r matches Ok(o) && o is None,
                Some(ds) => {
                    let spec_r = compile_spec(ds@.map_values(|d: TransformationDescriptor| d@));
                    &&& spec_r is Ok <==> r is Ok
                    &&& r is Ok ==> (r->Ok_0 matches Some(v) && v@.map_values(
                        |t: Transformation| t@,
                    ) == spec_r->Ok_0)
                    &&& r is Err ==> r->Err_0@ == spec_r->Err_0
                },
            }
        }),
{
    let ds = match transformations {
        None => {
            return Ok(None);
        },
        Some(ds) => ds,
    };
    let ghost dv = ds@.map_values(|d: TransformationDescriptor| d@);
    let mut out: Vec<Transformation> = Vec::new();
    proof {
        assert(dv.skip(0) =~= dv);
        assert(out@.map_values(|t: Transformation| t@) =~= Seq::<TransformationView>::empty());
        if compile_spec(dv) is Ok {
            assert(Seq::<TransformationView>::empty() + compile_spec(dv)->Ok_0 =~= compile_spec(
                dv,
            )->Ok_0);
        }
    }
    let mut i: usize = 0;
    while i < ds.len()
        invariant
            0 <= i <= ds.len(),
            out@.len() == i as int,
            dv == ds@.map_values(|d: TransformationDescriptor| d@),
            compile_spec(dv) == match compile_spec(dv.skip(i as int)) {
                Ok(rest) => Ok(out@.map_values(|t: Transformation| t@) + rest),
                Err(e) => Err::<Seq<TransformationView>, ConfigErrorView>(e),
            },
        decreases ds.len() - i,
    {
        proof {
            assert(dv.skip(i as int).drop_first() =~= dv.skip(i as int + 1));
        }
        let ghost pre = out@.map_values(|t: Transformation| t@);
        match compile_descriptor(&ds[i]) {
            Ok(t) => {
                out.push(t);
                proof {
                    assert(out@.map_values(|t: Transformation| t@) =~= pre + seq![out@[i as int]@]);
                    if compile_spec(dv.skip(i as int + 1)) is Ok {
                        assert((pre + seq![out@[i as int]@]) + compile_spec(
                            dv.skip(i as int + 1),
                        )->Ok_0 =~= pre + (seq![out@[i as int]@] + compile_spec(
                            dv.skip(i as int + 1),
                        )->Ok_0));
                    }
                }
            },
            Err(e) => {
                return Err(e);
            },
        }
        i += 1;
    }
    proof {
        assert(dv.skip(ds@.len() as int) =~= Seq::<TransformationDescriptorView>::empty());
        assert(out@.map_values(|t: Transformation| t@) + Seq::<TransformationView>::empty() =~= out@.map_values(
            |t: Transformation| t@,
        ));
    }
    Ok(Some(out))
}

} // verus!
