//! The builders of `ninja_files_data`, as this library uses them.
//!
//! The builders are opaque here. What each holds is named by a function
//! without a body, and each call is made through a small function whose
//! contract is believed, not proved: it restates what the source of
//! `ninja_files_data` does to the builder.

use vstd::prelude::*;
use crate::model::{
    spec_build, spec_build_explicit, spec_build_implicit, spec_command, spec_command_arg,
    spec_declare_rule, spec_declare_statement, spec_empty_file, spec_merge, spec_rule, BuildView,
    CommandView, ConflictView, FileModel, RuleView,
};
use crate::path::path_key;

verus! {

/// `ninja_files_data::CommandBuilder`, opaque.
#[verifier::external_type_specification]
#[verifier::external_body]
pub struct ExCommandBuilder(ninja_files_data::CommandBuilder);

/// `ninja_files_data::RuleBuilder`, opaque.
#[verifier::external_type_specification]
#[verifier::external_body]
pub struct ExRuleBuilder(ninja_files_data::RuleBuilder);

/// `ninja_files_data::BuildBuilder`, opaque.
#[verifier::external_type_specification]
#[verifier::external_body]
pub struct ExBuildBuilder(ninja_files_data::BuildBuilder);

/// `ninja_files_data::FileBuilder`, opaque.
#[verifier::external_type_specification]
#[verifier::external_body]
pub struct ExFileBuilder(ninja_files_data::FileBuilder);

/// `ninja_files_data::File`, opaque.
#[verifier::external_type_specification]
#[verifier::external_body]
pub struct ExFile(ninja_files_data::File);

/// The command that `c` holds: what `CommandBuilder::build` would return,
/// `None` where it would return the builder's errors.
pub uninterp spec fn command_built(c: ninja_files_data::CommandBuilder) -> Option<CommandView>;

/// The rule that `r` holds: what `RuleBuilder::build` would return, `None`
/// where it would return the builder's errors.
pub uninterp spec fn rule_built(r: ninja_files_data::RuleBuilder) -> Option<RuleView>;

/// The statement that `b` holds: what `BuildBuilder::build` would return,
/// `None` where it would return the builder's errors.
pub uninterp spec fn build_built(b: ninja_files_data::BuildBuilder) -> Option<BuildView>;

/// What `fb` holds: its file so far, and its errors as a set.
pub uninterp spec fn file_builder_view(fb: ninja_files_data::FileBuilder) -> FileModel;

/// What `f` holds. A finished file has no errors.
pub uninterp spec fn file_view(f: ninja_files_data::File) -> FileModel;

/// One conflict of a file builder, with the texts that identify it.
pub enum Conflict {
    /// Two different statements for the output `path`; the statement of
    /// `first_rule` was declared first.
    Output { path: String, first_rule: String, second_rule: String },
    /// Two different rules under `id`.
    Rule { id: String },
    /// Any other error of the builder.
    Other,
}

impl View for Conflict {
    type V = ConflictView;

    open spec fn view(&self) -> ConflictView {
        match self {
            Conflict::Output { path, first_rule, second_rule } => ConflictView::Output {
                key: path_key(path@),
                first: first_rule@,
                second: second_rule@,
            },
            Conflict::Rule { id } => ConflictView::Rule { id: id@ },
            Conflict::Other => ConflictView::Other,
        }
    }
}

/// Calls `CommandBuilder::new` with a string. Believed: any string is
/// accepted as a process, so the builder holds the command of that process
/// with no arguments and an empty environment.
#[verifier::external_body]
pub(crate) fn command_new(process: &str) -> (c: ninja_files_data::CommandBuilder)
    ensures
        command_built(c) == Some(spec_command(process@)),
{
    ninja_files_data::CommandBuilder::new(process)
}

/// Calls `CommandBuilder::arg` with a string. Believed: any string is
/// accepted as an argument and is pushed after the arguments held; a builder
/// with errors keeps them.
#[verifier::external_body]
pub(crate) fn command_arg(c: ninja_files_data::CommandBuilder, arg: &str) -> (r:
    ninja_files_data::CommandBuilder)
    ensures
        command_built(r) == match command_built(c) {
            Some(v) => Some(spec_command_arg(v, arg@)),
            None => None,
        },
{
    c.arg(arg)
}

/// Calls `RuleBuilder::new`. Believed: the rule runs the command that `c`
/// holds, shadows no variable and is no generator; where `c` has errors, so
/// has the rule builder.
#[verifier::external_body]
pub(crate) fn rule_new(c: ninja_files_data::CommandBuilder) -> (r: ninja_files_data::RuleBuilder)
    ensures
        rule_built(r) == match command_built(c) {
            Some(v) => Some(spec_rule(v)),
            None => None,
        },
{
    ninja_files_data::RuleBuilder::new(c)
}

/// Calls `BuildBuilder::new`. Believed: any string is accepted as a rule
/// identifier, and the statement depends on nothing.
#[verifier::external_body]
pub(crate) fn build_new(rule_id: &str) -> (b: ninja_files_data::BuildBuilder)
    ensures
        build_built(b) == Some(spec_build(rule_id@)),
{
    ninja_files_data::BuildBuilder::new(rule_id)
}

/// Calls `BuildBuilder::explicit`. Believed: any path is accepted, and it
/// joins the explicit dependencies, a set of file names that `camino`
/// compares by their components; a builder with errors keeps them.
#[verifier::external_body]
pub(crate) fn build_explicit(b: ninja_files_data::BuildBuilder, dep: &str) -> (r:
    ninja_files_data::BuildBuilder)
    ensures
        build_built(r) == match build_built(b) {
            Some(v) => Some(spec_build_explicit(v, path_key(dep@))),
            None => None,
        },
{
    b.explicit(dep)
}

/// Calls `BuildBuilder::implicit`. Believed: as for `explicit`, on the
/// implicit dependencies.
#[verifier::external_body]
pub(crate) fn build_implicit(b: ninja_files_data::BuildBuilder, dep: &str) -> (r:
    ninja_files_data::BuildBuilder)
    ensures
        build_built(r) == match build_built(b) {
            Some(v) => Some(spec_build_implicit(v, path_key(dep@))),
            None => None,
        },
{
    b.implicit(dep)
}

/// Calls the derived `BuildBuilder::clone`. Believed: the copy holds what
/// `b` holds.
#[verifier::external_body]
pub(crate) fn build_clone(b: &ninja_files_data::BuildBuilder) -> (r: ninja_files_data::BuildBuilder)
    ensures
        build_built(r) == build_built(*b),
{
    b.clone()
}

/// Calls `FileBuilder::new`. Believed: the builder holds nothing.
#[verifier::external_body]
pub(crate) fn file_new() -> (fb: ninja_files_data::FileBuilder)
    ensures
        file_builder_view(fb) == spec_empty_file(),
{
    ninja_files_data::FileBuilder::new()
}

/// Calls `FileBuilder::rule`. Believed: any string is accepted as an
/// identifier; a rule under a new identifier is inserted, an equal rule
/// under a known one changes nothing, and a different one, or a rule
/// builder with errors, only adds an error.
#[verifier::external_body]
pub(crate) fn file_rule(
    fb: ninja_files_data::FileBuilder,
    id: &str,
    rule: ninja_files_data::RuleBuilder,
) -> (r: ninja_files_data::FileBuilder)
    ensures
        file_builder_view(r) == spec_declare_rule(file_builder_view(fb), id@, rule_built(rule)),
{
    fb.rule(id, rule)
}

/// Calls `FileBuilder::file`, which declares the statement of one output.
/// It panics on a statement builder with errors, which `requires` leaves
/// out. Believed: any path is accepted as an output; a statement for a new
/// output is inserted, an equal statement for a known one changes nothing,
/// and a different one only adds an error that holds both statements.
/// Outputs are file names, compared by their components.
#[verifier::external_body]
pub(crate) fn file_output(
    fb: ninja_files_data::FileBuilder,
    output: &str,
    build: ninja_files_data::BuildBuilder,
) -> (r: ninja_files_data::FileBuilder)
    requires
        build_built(build) is Some,
    ensures
        file_builder_view(r) == spec_declare_statement(
            file_builder_view(fb),
            path_key(output@),
            build_built(build)->0,
        ),
{
    fb.file(output, build)
}

/// Calls `FileBuilder::merge`. Believed: the errors of `other` are added,
/// then each variable, rule and statement of `other` is declared in `fb` as
/// `variable`, `rule` and `file` declare it: [`spec_merge`] says what that
/// comes to.
#[verifier::external_body]
pub(crate) fn file_merge(
    fb: ninja_files_data::FileBuilder,
    other: &ninja_files_data::FileBuilder,
) -> (r: ninja_files_data::FileBuilder)
    ensures
        file_builder_view(r) == spec_merge(file_builder_view(fb), file_builder_view(*other)),
{
    fb.merge(other)
}

/// Calls `FileBuilder::build` and names each error. Believed: a builder
/// without errors gives its file; one with errors gives them all, of which
/// each stands in the builder's set of conflicts.
#[verifier::external_body]
pub(crate) fn file_build(fb: &ninja_files_data::FileBuilder) -> (r: Result<
    ninja_files_data::File,
    Vec<Conflict>,
>)
    ensures
        match r {
            Ok(f) => file_builder_view(*fb).errors =~= Set::empty() && file_view(f)
                == file_builder_view(*fb),
            Err(es) => es.len() > 0 && forall|i: int|
                0 <= i < es.len() ==> file_builder_view(*fb).errors.contains(#[trigger] es[i]@),
        },
{
    fb.build().map_err(|errors| errors.into_iter().map(|e| match e {
        ninja_files_data::FileBuilderError::BuildAlreadyExists { id, previous, build } => Conflict::Output {
            path: AsRef::<str>::as_ref(&id).to_string(),
            first_rule: previous.rule.as_ref().to_string(),
            second_rule: build.rule.as_ref().to_string(),
        },
        ninja_files_data::FileBuilderError::RuleAlreadyExists { id, .. } => Conflict::Rule { id: id.as_ref().to_string() },
        _ => Conflict::Other,
    }).collect())
}

} // verus!
