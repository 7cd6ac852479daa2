//! The mathematical model of a build file: what its rules and build
//! statements are, and what declaring and merging do to them.

use vstd::prelude::*;
use crate::path::PathKey;

verus! {

/// A command line: the process, its arguments in order, and the environment
/// it is given.
#[verifier::ext_equal]
pub struct CommandView {
    pub process: Seq<char>,
    pub args: Seq<Seq<char>>,
    pub env: Map<Seq<char>, Seq<char>>,
}

/// A rule: a command, the variables it shadows, and whether it generates the
/// build file itself.
#[verifier::ext_equal]
pub struct RuleView {
    pub command: CommandView,
    pub shadow: Map<Seq<char>, Seq<char>>,
    pub generator: bool,
}

/// A build statement without its output: the rule that produces the output
/// and what the output depends on. Paths stand by their keys.
#[verifier::ext_equal]
pub struct BuildView {
    pub rule: Seq<char>,
    pub explicit: Set<PathKey>,
    pub implicit: Set<PathKey>,
    pub order: Set<PathKey>,
    pub dyndep: Option<PathKey>,
    pub shadow: Map<Seq<char>, Seq<char>>,
}

/// What went wrong while a build file was assembled.
pub enum ConflictView {
    /// Two different statements claim the output `key`: `first` is the rule of
    /// the one that came first and stays, `second` the rule of the other.
    Output { key: PathKey, first: Seq<char>, second: Seq<char> },
    /// Two different rules were declared under `id`.
    Rule { id: Seq<char> },
    /// Anything else: two different values for one variable, or a rule that
    /// was itself invalid.
    Other,
}

/// A build file under construction: its variables, its rules by identifier,
/// its build statements by output, and the conflicts met so far.
#[verifier::ext_equal]
pub struct FileModel {
    pub variables: Map<Seq<char>, Seq<char>>,
    pub rules: Map<Seq<char>, RuleView>,
    pub statements: Map<PathKey, BuildView>,
    pub errors: Set<ConflictView>,
}

/// The command that runs `process` with no arguments.
pub open spec fn spec_command(process: Seq<char>) -> CommandView {
    CommandView { process, args: Seq::empty(), env: Map::empty() }
}

/// `c` with one more argument at the end.
pub open spec fn spec_command_arg(c: CommandView, arg: Seq<char>) -> CommandView {
    CommandView { args: c.args.push(arg), ..c }
}

/// The plain rule that runs `command`.
pub open spec fn spec_rule(command: CommandView) -> RuleView {
    RuleView { command, shadow: Map::empty(), generator: false }
}

/// The statement of `rule` that depends on nothing.
pub open spec fn spec_build(rule: Seq<char>) -> BuildView {
    BuildView {
        rule,
        explicit: Set::empty(),
        implicit: Set::empty(),
        order: Set::empty(),
        dyndep: None,
        shadow: Map::empty(),
    }
}

/// `b` with one more explicit dependency.
pub open spec fn spec_build_explicit(b: BuildView, dep: PathKey) -> BuildView {
    BuildView { explicit: b.explicit.insert(dep), ..b }
}

/// `b` with one more implicit dependency.
pub open spec fn spec_build_implicit(b: BuildView, dep: PathKey) -> BuildView {
    BuildView { implicit: b.implicit.insert(dep), ..b }
}

/// The build file that holds nothing.
pub open spec fn spec_empty_file() -> FileModel {
    FileModel {
        variables: Map::empty(),
        rules: Map::empty(),
        statements: Map::empty(),
        errors: Set::empty(),
    }
}

/// Declaring `rule` under `id`: a new identifier is added; the same rule
/// again changes nothing; a different rule under a known identifier, or no
/// valid rule at all, leaves the rules as they are and records a conflict.
pub open spec fn spec_declare_rule(m: FileModel, id: Seq<char>, rule: Option<RuleView>) -> FileModel {
    match rule {
        None => FileModel { errors: m.errors.insert(ConflictView::Other), ..m },
        Some(rule) => if !m.rules.contains_key(id) {
            FileModel { rules: m.rules.insert(id, rule), ..m }
        } else if m.rules[id] == rule {
            m
        } else {
            FileModel { errors: m.errors.insert(ConflictView::Rule { id }), ..m }
        },
    }
}

/// Declaring the statement `build` for the output `key`: a new output is
/// added; the same statement again changes nothing; a different statement
/// for a known output leaves the statements as they are and records the
/// conflict with both rules.
pub open spec fn spec_declare_statement(m: FileModel, key: PathKey, build: BuildView) -> FileModel {
    if !m.statements.contains_key(key) {
        FileModel { statements: m.statements.insert(key, build), ..m }
    } else if m.statements[key] == build {
        m
    } else {
        FileModel {
            errors: m.errors.insert(
                ConflictView::Output { key, first: m.statements[key].rule, second: build.rule },
            ),
            ..m
        }
    }
}

/// The conflicts between two build files: every variable, rule and output
/// that both declare, and declare differently.
pub open spec fn spec_merge_conflicts(a: FileModel, b: FileModel) -> Set<ConflictView> {
    Set::new(
        |c: ConflictView|
            match c {
                ConflictView::Output { key, first, second } => {
                    &&& a.statements.contains_key(key)
                    &&& b.statements.contains_key(key)
                    &&& a.statements[key] != b.statements[key]
                    &&& first == a.statements[key].rule
                    &&& second == b.statements[key].rule
                },
                ConflictView::Rule { id } => {
                    &&& a.rules.contains_key(id)
                    &&& b.rules.contains_key(id)
                    &&& a.rules[id] != b.rules[id]
                },
                ConflictView::Other => exists|id: Seq<char>|
                    {
                        &&& a.variables.contains_key(id)
                        &&& b.variables.contains_key(id)
                        &&& a.variables[id] != b.variables[id]
                    },
            },
    )
}

/// Merging `b` into `a`: everything that either declares. Where both declare
/// one rule or one output, `a`'s stays; where both declare one variable,
/// `b`'s value stays. The conflicts are those of `a`, those of `b`, and
/// those between the two.
pub open spec fn spec_merge(a: FileModel, b: FileModel) -> FileModel {
    FileModel {
        variables: a.variables.union_prefer_right(b.variables),
        rules: b.rules.union_prefer_right(a.rules),
        statements: b.statements.union_prefer_right(a.statements),
        errors: a.errors.union(b.errors).union(spec_merge_conflicts(a, b)),
    }
}

/// No conflict was met.
pub open spec fn no_conflicts(m: FileModel) -> bool {
    forall|c: ConflictView| !m.errors.contains(c)
}

/// Every conflict met is one between two statements for one output.
pub open spec fn only_output_conflicts(m: FileModel) -> bool {
    forall|c: ConflictView| m.errors.contains(c) ==> c is Output
}

/// `b` keeps all of `a`: each rule and each statement of `a` stands in `b`
/// unchanged, and so does each conflict.
pub open spec fn extends(a: FileModel, b: FileModel) -> bool {
    &&& forall|c: ConflictView| a.errors.contains(c) ==> b.errors.contains(c)
    &&& forall|id: Seq<char>| #[trigger]
        a.rules.contains_key(id) ==> b.rules.contains_key(id) && b.rules[id] == a.rules[id]
    &&& forall|key: PathKey| #[trigger]
        a.statements.contains_key(key) ==> b.statements.contains_key(key) && b.statements[key]
            == a.statements[key]
}

/// `a` and `b` agree on every variable, rule and output that both declare.
pub open spec fn agree(a: FileModel, b: FileModel) -> bool {
    forall|c: ConflictView| !spec_merge_conflicts(a, b).contains(c)
}

/// Declaring a statement loses nothing.
pub proof fn lemma_declare_statement_extends(m: FileModel, key: PathKey, build: BuildView)
    ensures
        extends(m, spec_declare_statement(m, key, build)),
{
}

/// Merging into a file loses nothing of that file.
pub proof fn lemma_merge_extends(a: FileModel, b: FileModel)
    ensures
        extends(a, spec_merge(a, b)),
{
}

/// A statement that was declared without any conflict is the statement of
/// its output.
pub proof fn lemma_declared_statement_held(m: FileModel, key: PathKey, build: BuildView)
    requires
        no_conflicts(spec_declare_statement(m, key, build)),
    ensures
        spec_declare_statement(m, key, build).statements.contains_key(key),
        spec_declare_statement(m, key, build).statements[key] == build,
{
    if m.statements.contains_key(key) && m.statements[key] != build {
        assert(spec_declare_statement(m, key, build).errors.contains(
            ConflictView::Output { key, first: m.statements[key].rule, second: build.rule },
        ));
    }
}

/// After a merge without any conflict, the merged file holds each rule and
/// each statement of both files, and neither file had a conflict.
pub proof fn lemma_merged_held(a: FileModel, b: FileModel)
    requires
        no_conflicts(spec_merge(a, b)),
    ensures
        no_conflicts(a),
        no_conflicts(b),
        agree(a, b),
        extends(a, spec_merge(a, b)),
        extends(b, spec_merge(a, b)),
{
    let m = spec_merge(a, b);
    assert forall|c: ConflictView| !spec_merge_conflicts(a, b).contains(c) by {
        if spec_merge_conflicts(a, b).contains(c) {
            assert(m.errors.contains(c));
        }
    }
    assert forall|c: ConflictView| !a.errors.contains(c) by {
        if a.errors.contains(c) {
            assert(m.errors.contains(c));
        }
    }
    assert forall|c: ConflictView| !b.errors.contains(c) by {
        if b.errors.contains(c) {
            assert(m.errors.contains(c));
        }
    }
    assert forall|id: Seq<char>| #[trigger] b.rules.contains_key(id) implies m.rules.contains_key(id)
        && m.rules[id] == b.rules[id] by {
        if a.rules.contains_key(id) && a.rules[id] != b.rules[id] {
            assert(spec_merge_conflicts(a, b).contains(ConflictView::Rule { id }));
        }
    }
    assert forall|key: PathKey| #[trigger]
        b.statements.contains_key(key) implies m.statements.contains_key(key) && m.statements[key]
        == b.statements[key] by {
        if a.statements.contains_key(key) && a.statements[key] != b.statements[key] {
            assert(spec_merge_conflicts(a, b).contains(
                ConflictView::Output {
                    key,
                    first: a.statements[key].rule,
                    second: b.statements[key].rule,
                },
            ));
        }
    }
}

/// Declaring the same statement for the same output a second time changes
/// nothing.
pub proof fn lemma_declare_statement_idempotent(m: FileModel, key: PathKey, build: BuildView)
    ensures
        spec_declare_statement(spec_declare_statement(m, key, build), key, build)
            == spec_declare_statement(m, key, build),
{
    let once = spec_declare_statement(m, key, build);
    let twice = spec_declare_statement(once, key, build);
    assert(twice.errors =~= once.errors);
    assert(twice.statements =~= once.statements);
    assert(twice =~= once);
}

/// Declaring the same rule under the same identifier a second time changes
/// nothing.
pub proof fn lemma_declare_rule_idempotent(m: FileModel, id: Seq<char>, rule: Option<RuleView>)
    ensures
        spec_declare_rule(spec_declare_rule(m, id, rule), id, rule) == spec_declare_rule(
            m,
            id,
            rule,
        ),
{
    let once = spec_declare_rule(m, id, rule);
    let twice = spec_declare_rule(once, id, rule);
    assert(twice.errors =~= once.errors);
    assert(twice.rules =~= once.rules);
    assert(twice =~= once);
}

/// Merging the same file a second time changes nothing: what two steps both
/// declare stands once.
pub proof fn lemma_merge_idempotent(a: FileModel, b: FileModel)
    ensures
        spec_merge(spec_merge(a, b), b) == spec_merge(a, b),
{
    let once = spec_merge(a, b);
    let twice = spec_merge(once, b);
    assert(twice.variables =~= once.variables);
    assert(twice.rules =~= once.rules);
    assert(twice.statements =~= once.statements);
    assert forall|c: ConflictView| spec_merge_conflicts(once, b).contains(c) implies once.errors.contains(
        c,
    ) by {
        match c {
            ConflictView::Output { key, first, second } => {
                assert(a.statements.contains_key(key));
                assert(spec_merge_conflicts(a, b).contains(c));
            },
            ConflictView::Rule { id } => {
                assert(a.rules.contains_key(id));
                assert(spec_merge_conflicts(a, b).contains(c));
            },
            ConflictView::Other => {
                let id = choose|id: Seq<char>|
                    {
                        &&& once.variables.contains_key(id)
                        &&& b.variables.contains_key(id)
                        &&& once.variables[id] != b.variables[id]
                    };
                assert(false);
            },
        }
    }
    assert(twice.errors =~= once.errors);
    assert(twice =~= once);
}

/// Two files that agree on what both declare merge to the same file in
/// either order.
pub proof fn lemma_merge_commutative(a: FileModel, b: FileModel)
    requires
        agree(a, b),
    ensures
        spec_merge(a, b) == spec_merge(b, a),
{
    let ab = spec_merge(a, b);
    let ba = spec_merge(b, a);
    lemma_agree_means(a, b);
    assert(ab.variables =~= ba.variables);
    assert(ab.rules =~= ba.rules);
    assert(ab.statements =~= ba.statements);
    assert(spec_merge_conflicts(b, a) =~= Set::empty());
    assert(spec_merge_conflicts(a, b) =~= Set::empty());
    assert(ab.errors =~= ba.errors);
    assert(ab =~= ba);
}

/// What agreeing files agree on: the value of each variable, the rule of
/// each identifier and the statement of each output that both declare.
pub proof fn lemma_agree_means(a: FileModel, b: FileModel)
    requires
        agree(a, b),
    ensures
        forall|id: Seq<char>|
            a.variables.contains_key(id) && b.variables.contains_key(id) ==> a.variables[id]
                == b.variables[id],
        forall|id: Seq<char>|
            a.rules.contains_key(id) && b.rules.contains_key(id) ==> a.rules[id] == b.rules[id],
        forall|key: PathKey|
            a.statements.contains_key(key) && b.statements.contains_key(key) ==> a.statements[key]
                == b.statements[key],
{
    assert forall|id: Seq<char>| a.variables.contains_key(id) && b.variables.contains_key(id) implies
        a.variables[id] == b.variables[id] by {
        if a.variables[id] != b.variables[id] {
            assert(spec_merge_conflicts(a, b).contains(ConflictView::Other));
        }
    }
    assert forall|id: Seq<char>| a.rules.contains_key(id) && b.rules.contains_key(id) implies
        a.rules[id] == b.rules[id] by {
        if a.rules[id] != b.rules[id] {
            assert(spec_merge_conflicts(a, b).contains(ConflictView::Rule { id }));
        }
    }
    assert forall|key: PathKey| a.statements.contains_key(key) && b.statements.contains_key(key) implies
        a.statements[key] == b.statements[key] by {
        if a.statements[key] != b.statements[key] {
            assert(spec_merge_conflicts(a, b).contains(
                ConflictView::Output {
                    key,
                    first: a.statements[key].rule,
                    second: b.statements[key].rule,
                },
            ));
        }
    }
}

/// Three files that agree two by two merge to the same file however the
/// merges are grouped.
pub proof fn lemma_merge_associative(a: FileModel, b: FileModel, c: FileModel)
    requires
        agree(a, b),
        agree(b, c),
        agree(a, c),
    ensures
        spec_merge(spec_merge(a, b), c) == spec_merge(a, spec_merge(b, c)),
{
    let ab = spec_merge(a, b);
    let bc = spec_merge(b, c);
    let left = spec_merge(ab, c);
    let right = spec_merge(a, bc);
    lemma_agree_means(a, b);
    lemma_agree_means(b, c);
    lemma_agree_means(a, c);
    assert(left.variables =~= right.variables);
    assert(left.rules =~= right.rules);
    assert(left.statements =~= right.statements);
    assert(spec_merge_conflicts(a, b) =~= Set::empty());
    assert(spec_merge_conflicts(b, c) =~= Set::empty());
    assert(spec_merge_conflicts(ab, c) =~= Set::empty());
    assert(spec_merge_conflicts(a, bc) =~= Set::empty());
    assert(left.errors =~= right.errors);
    assert(left =~= right);
}

} // verus!
