//! What holds of every build graph that the builder makes.

use vstd::prelude::*;
use crate::builder::{
    spec_link_targets, spec_plan_file, spec_provided, spec_resolve, spec_step_file,
};
use crate::graph::{
    spec_declare_outputs, spec_dir_file, spec_link_build, spec_link_file, spec_merge_dirs,
    spec_merge_links, spec_output_build,
};
use crate::model::{
    extends, lemma_declare_statement_extends,
    lemma_declared_statement_held, lemma_merge_extends, lemma_merged_held, no_conflicts,
    only_output_conflicts, spec_build, spec_declare_rule, spec_declare_statement, spec_empty_file,
    spec_merge, BuildView, ConflictView, FileModel, RuleView,
};
use crate::path::{path_key, path_keys, PathKey};
use crate::plan::InvocationView;
use crate::rules::{
    spec_ensure_dir_all_rule, spec_link_rule, ENSURE_DIR_ALL_RULE_ID, LINK_RULE_ID,
};
use crate::text::{is_digit, lemma_decimal_digits, lemma_numeral_prefix_unique, spec_decimal};

verus! {

/// The rule identifier of the step at position `j` of the plan.
pub open spec fn spec_plan_rule_id(plan: Seq<InvocationView>, j: int) -> Seq<char> {
    plan[j].spec_rule_id(j as nat)
}

/// `rule` is the rule that a graph of the first `n` steps of the plan may
/// hold under `id`: a shared rule under its name, or the rule of a step
/// under the identifier of that step.
pub open spec fn rule_expected(plan: Seq<InvocationView>, n: nat, id: Seq<char>, rule: RuleView) -> bool {
    ||| id == LINK_RULE_ID@ && rule == spec_link_rule()
    ||| id == ENSURE_DIR_ALL_RULE_ID@ && rule == spec_ensure_dir_all_rule()
    ||| exists|j: int|
        0 <= j < n && id == #[trigger] spec_plan_rule_id(plan, j) && rule == plan[j].spec_rule()
}

/// Every statement of the shared directory rule in `m` is the plain one,
/// and no conflict of `m` is one between two such statements.
pub open spec fn directories_plain(m: FileModel) -> bool {
    &&& forall|key: PathKey| #[trigger]
        m.statements.contains_key(key) && m.statements[key].rule == ENSURE_DIR_ALL_RULE_ID@
            ==> m.statements[key] == spec_build(ENSURE_DIR_ALL_RULE_ID@)
    &&& forall|key: PathKey, first: Seq<char>, second: Seq<char>| #[trigger]
        m.errors.contains(ConflictView::Output { key, first, second }) ==> !(first
            == ENSURE_DIR_ALL_RULE_ID@ && second == ENSURE_DIR_ALL_RULE_ID@)
}

/// `m` holds no variable, only rules that a graph of the first `n` steps may
/// hold, no conflict but between statements, and none between the
/// statements of two directory markers.
spec fn tidy(m: FileModel, plan: Seq<InvocationView>, n: nat) -> bool {
    &&& forall|id: Seq<char>| !m.variables.contains_key(id)
    &&& only_output_conflicts(m)
    &&& forall|id: Seq<char>| #[trigger]
        m.rules.contains_key(id) ==> rule_expected(plan, n, id, m.rules[id])
    &&& directories_plain(m)
}

/// The rule identifiers of two different positions differ, whatever the
/// steps are: the position can be read back from the identifier.
pub proof fn lemma_rule_id_unique(a: InvocationView, i: nat, b: InvocationView, j: nat)
    requires
        i != j,
    ensures
        a.spec_rule_id(i) != b.spec_rule_id(j),
{
    let rest_a = a.package_name + "-"@ + a.package_version + "-"@ + a.target_kind[0] + "-"@
        + a.compile_mode;
    let rest_b = b.package_name + "-"@ + b.package_version + "-"@ + b.target_kind[0] + "-"@
        + b.compile_mode;
    assert(a.spec_rule_id(i) =~= spec_decimal(i) + "-"@ + rest_a);
    assert(b.spec_rule_id(j) =~= spec_decimal(j) + "-"@ + rest_b);
    if a.spec_rule_id(i) == b.spec_rule_id(j) {
        lemma_numeral_prefix_unique(i, rest_a, j, rest_b);
    }
}

/// The identifier of a step is not the name of a shared rule, and the two
/// shared rules have different names.
pub proof fn lemma_rule_id_not_shared(a: InvocationView, i: nat)
    ensures
        a.spec_rule_id(i) != LINK_RULE_ID@,
        a.spec_rule_id(i) != ENSURE_DIR_ALL_RULE_ID@,
        LINK_RULE_ID@ != ENSURE_DIR_ALL_RULE_ID@,
{
    reveal_strlit("link");
    reveal_strlit("ensure_dir_all");
    lemma_decimal_digits(i);
    let id = a.spec_rule_id(i);
    assert(id[0] == spec_decimal(i)[0]);
    assert(is_digit(id[0]));
    assert(LINK_RULE_ID@[0] == 'l');
    assert(ENSURE_DIR_ALL_RULE_ID@[0] == 'e');
}

/// One identifier stands for one rule.
proof fn lemma_expected_unique(
    plan: Seq<InvocationView>,
    n: nat,
    id: Seq<char>,
    r1: RuleView,
    r2: RuleView,
)
    requires
        rule_expected(plan, n, id, r1),
        rule_expected(plan, n, id, r2),
    ensures
        r1 == r2,
{
    if exists|j: int|
        0 <= j < n && id == #[trigger] spec_plan_rule_id(plan, j) && r1 == plan[j].spec_rule() {
        let j1 = choose|j: int|
            0 <= j < n && id == #[trigger] spec_plan_rule_id(plan, j) && r1 == plan[j].spec_rule();
        lemma_rule_id_not_shared(plan[j1], j1 as nat);
        let j2 = choose|j: int|
            0 <= j < n && id == #[trigger] spec_plan_rule_id(plan, j) && r2 == plan[j].spec_rule();
        if j1 != j2 {
            lemma_rule_id_unique(plan[j1], j1 as nat, plan[j2], j2 as nat);
        }
    } else if exists|j: int|
        0 <= j < n && id == #[trigger] spec_plan_rule_id(plan, j) && r2 == plan[j].spec_rule() {
        let j2 = choose|j: int|
            0 <= j < n && id == #[trigger] spec_plan_rule_id(plan, j) && r2 == plan[j].spec_rule();
        lemma_rule_id_not_shared(plan[j2], j2 as nat);
    } else {
        lemma_rule_id_not_shared(plan[0], 0);
    }
}

/// Merging two tidy files gives a tidy file.
proof fn lemma_tidy_merge(a: FileModel, b: FileModel, plan: Seq<InvocationView>, n: nat)
    requires
        tidy(a, plan, n),
        tidy(b, plan, n),
    ensures
        tidy(spec_merge(a, b), plan, n),
{
    let m = spec_merge(a, b);
    assert forall|c: ConflictView| m.errors.contains(c) implies c is Output by {
        match c {
            ConflictView::Rule { id } => {
                if a.rules.contains_key(id) && b.rules.contains_key(id) {
                    lemma_expected_unique(plan, n, id, a.rules[id], b.rules[id]);
                }
            },
            _ => {},
        }
    }
}

/// The file that makes a directory marker, and the file that makes an
/// alias, are tidy.
proof fn lemma_tidy_shared(plan: Seq<InvocationView>, n: nat, dir: Seq<char>, link: Seq<char>, target: Seq<char>)
    ensures
        tidy(spec_dir_file(dir), plan, n),
        tidy(spec_link_file(link, target), plan, n),
{
    lemma_rule_id_not_shared(plan[0], 0);
}

/// Declaring the outputs of a step in a tidy file gives a tidy file.
proof fn lemma_tidy_outputs(
    m: FileModel,
    rule_id: Seq<char>,
    deps: Seq<Seq<char>>,
    outputs: Seq<Seq<char>>,
    plan: Seq<InvocationView>,
    n: nat,
)
    requires
        tidy(m, plan, n),
        rule_id != ENSURE_DIR_ALL_RULE_ID@,
    ensures
        tidy(spec_declare_outputs(m, rule_id, deps, outputs), plan, n),
    decreases outputs.len(),
{
    if outputs.len() > 0 {
        lemma_tidy_outputs(m, rule_id, deps, outputs.drop_last(), plan, n);
    }
}

/// Merging directory markers into a tidy file gives a tidy file.
proof fn lemma_tidy_dirs(m: FileModel, dirs: Seq<Seq<char>>, plan: Seq<InvocationView>, n: nat)
    requires
        tidy(m, plan, n),
    ensures
        tidy(spec_merge_dirs(m, dirs), plan, n),
    decreases dirs.len(),
{
    if dirs.len() > 0 {
        lemma_tidy_dirs(m, dirs.drop_last(), plan, n);
        lemma_tidy_shared(plan, n, dirs.last(), dirs.last(), dirs.last());
        lemma_tidy_merge(spec_merge_dirs(m, dirs.drop_last()), spec_dir_file(dirs.last()), plan, n);
    }
}

/// Merging aliases into a tidy file gives a tidy file.
proof fn lemma_tidy_links(
    m: FileModel,
    links: Seq<(Seq<char>, Seq<char>)>,
    plan: Seq<InvocationView>,
    n: nat,
)
    requires
        tidy(m, plan, n),
    ensures
        tidy(spec_merge_links(m, links), plan, n),
    decreases links.len(),
{
    if links.len() > 0 {
        lemma_tidy_links(m, links.drop_last(), plan, n);
        lemma_tidy_shared(plan, n, links.last().0, links.last().0, links.last().1);
        lemma_tidy_merge(
            spec_merge_links(m, links.drop_last()),
            spec_link_file(links.last().0, links.last().1),
            plan,
            n,
        );
    }
}

/// The build file of a step of the first `n` steps is tidy.
proof fn lemma_step_file_tidy(plan: Seq<InvocationView>, i: int, n: nat)
    requires
        0 <= i < n,
    ensures
        tidy(spec_step_file(plan, i), plan, n),
{
    let inv = plan[i];
    let deps = crate::builder::spec_resolve(plan, inv.deps);
    let rule_id = inv.spec_rule_id(i as nat);
    let with_rule = spec_declare_rule(spec_empty_file(), rule_id, Some(inv.spec_rule()));
    assert(rule_id == spec_plan_rule_id(plan, i));
    assert(rule_expected(plan, n, rule_id, inv.spec_rule()));
    lemma_rule_id_not_shared(inv, i as nat);
    assert(tidy(with_rule, plan, n));
    lemma_tidy_outputs(with_rule, rule_id, deps, inv.spec_outputs(), plan, n);
    let with_outputs = spec_declare_outputs(with_rule, rule_id, deps, inv.spec_outputs());
    lemma_tidy_dirs(with_outputs, inv.spec_dirs(), plan, n);
    lemma_tidy_links(spec_merge_dirs(with_outputs, inv.spec_dirs()), inv.links, plan, n);
}

/// A file that is tidy for the first `n` steps is tidy for more steps.
proof fn lemma_tidy_more(m: FileModel, plan: Seq<InvocationView>, n: nat, more: nat)
    requires
        tidy(m, plan, n),
        n <= more,
    ensures
        tidy(m, plan, more),
{
    assert forall|id: Seq<char>| #[trigger] m.rules.contains_key(id) implies rule_expected(
        plan,
        more,
        id,
        m.rules[id],
    ) by {
        let rule = m.rules[id];
        assert(rule_expected(plan, n, id, rule));
        if exists|j: int|
            0 <= j < n && id == #[trigger] spec_plan_rule_id(plan, j) && rule == plan[j].spec_rule() {
            let j = choose|j: int|
                0 <= j < n && id == #[trigger] spec_plan_rule_id(plan, j) && rule
                    == plan[j].spec_rule();
            assert(0 <= j < more && id == spec_plan_rule_id(plan, j) && rule == plan[j].spec_rule());
        }
    }
}

/// The graph of the first `n` steps is tidy.
proof fn lemma_plan_file_tidy(plan: Seq<InvocationView>, n: nat)
    ensures
        tidy(spec_plan_file(plan, n), plan, n),
    decreases n,
{
    if n > 0 {
        lemma_plan_file_tidy(plan, (n - 1) as nat);
        lemma_tidy_more(spec_plan_file(plan, (n - 1) as nat), plan, (n - 1) as nat, n);
        lemma_step_file_tidy(plan, n - 1, n);
        lemma_tidy_merge(spec_plan_file(plan, (n - 1) as nat), spec_step_file(plan, n - 1), plan, n);
    }
}

/// The graph builder meets no conflict but between two statements for one
/// output: the rules of different steps never share an identifier. And it
/// meets none between the statements of two directory markers: a marker
/// that several steps ask for is declared alike by all of them, and stands
/// once.
pub proof fn lemma_conflicts_are_between_statements(plan: Seq<InvocationView>, n: nat)
    ensures
        only_output_conflicts(spec_plan_file(plan, n)),
        directories_plain(spec_plan_file(plan, n)),
{
    lemma_plan_file_tidy(plan, n);
}

/// No rule without a step. The graph holds no variable, and each of its
/// rules is a shared rule under its name, or the rule of a step under the
/// identifier of that step.
pub proof fn lemma_rules_come_from_steps(plan: Seq<InvocationView>, n: nat, id: Seq<char>)
    requires
        spec_plan_file(plan, n).rules.contains_key(id),
    ensures
        rule_expected(plan, n, id, spec_plan_file(plan, n).rules[id]),
        spec_plan_file(plan, n).variables == Map::<Seq<char>, Seq<char>>::empty(),
{
    lemma_plan_file_tidy(plan, n);
    assert(spec_plan_file(plan, n).variables =~= Map::<Seq<char>, Seq<char>>::empty());
}

/// Declaring outputs loses nothing.
proof fn lemma_declare_outputs_extends(
    m: FileModel,
    rule_id: Seq<char>,
    deps: Seq<Seq<char>>,
    outputs: Seq<Seq<char>>,
)
    ensures
        extends(m, spec_declare_outputs(m, rule_id, deps, outputs)),
    decreases outputs.len(),
{
    if outputs.len() > 0 {
        lemma_declare_outputs_extends(m, rule_id, deps, outputs.drop_last());
        lemma_declare_statement_extends(
            spec_declare_outputs(m, rule_id, deps, outputs.drop_last()),
            path_key(outputs.last()),
            spec_output_build(rule_id, deps, outputs.last()),
        );
    }
}

/// Merging directory markers loses nothing.
proof fn lemma_merge_dirs_extends(m: FileModel, dirs: Seq<Seq<char>>)
    ensures
        extends(m, spec_merge_dirs(m, dirs)),
    decreases dirs.len(),
{
    if dirs.len() > 0 {
        lemma_merge_dirs_extends(m, dirs.drop_last());
        lemma_merge_extends(spec_merge_dirs(m, dirs.drop_last()), spec_dir_file(dirs.last()));
    }
}

/// Merging aliases loses nothing.
proof fn lemma_merge_links_extends(m: FileModel, links: Seq<(Seq<char>, Seq<char>)>)
    ensures
        extends(m, spec_merge_links(m, links)),
    decreases links.len(),
{
    if links.len() > 0 {
        lemma_merge_links_extends(m, links.drop_last());
        lemma_merge_extends(
            spec_merge_links(m, links.drop_last()),
            spec_link_file(links.last().0, links.last().1),
        );
    }
}

/// Where the outputs were declared without any conflict, each output has
/// the statement that was declared for it.
proof fn lemma_outputs_held(
    m: FileModel,
    rule_id: Seq<char>,
    deps: Seq<Seq<char>>,
    outputs: Seq<Seq<char>>,
    o: int,
)
    requires
        0 <= o < outputs.len(),
        no_conflicts(spec_declare_outputs(m, rule_id, deps, outputs)),
    ensures
        spec_declare_outputs(m, rule_id, deps, outputs).statements.contains_key(path_key(outputs[o])),
        spec_declare_outputs(m, rule_id, deps, outputs).statements[path_key(outputs[o])]
            == spec_output_build(rule_id, deps, outputs[o]),
    decreases outputs.len(),
{
    let front = outputs.drop_last();
    let before = spec_declare_outputs(m, rule_id, deps, front);
    let key = path_key(outputs.last());
    let build = spec_output_build(rule_id, deps, outputs.last());
    lemma_declare_statement_extends(before, key, build);
    if o == outputs.len() - 1 {
        lemma_declared_statement_held(before, key, build);
    } else {
        assert(front[o] == outputs[o]);
        lemma_outputs_held(m, rule_id, deps, front, o);
    }
}

/// Where the directory markers were merged without any conflict, each has
/// the statement of the shared directory rule, which depends on nothing.
proof fn lemma_dirs_held(m: FileModel, dirs: Seq<Seq<char>>, d: int)
    requires
        0 <= d < dirs.len(),
        no_conflicts(spec_merge_dirs(m, dirs)),
    ensures
        spec_merge_dirs(m, dirs).statements.contains_key(path_key(dirs[d])),
        spec_merge_dirs(m, dirs).statements[path_key(dirs[d])] == spec_build(
            ENSURE_DIR_ALL_RULE_ID@,
        ),
    decreases dirs.len(),
{
    let front = dirs.drop_last();
    let before = spec_merge_dirs(m, front);
    lemma_merged_held(before, spec_dir_file(dirs.last()));
    if d == dirs.len() - 1 {
        assert(spec_dir_file(dirs.last()).statements.contains_key(path_key(dirs.last())));
    } else {
        assert(front[d] == dirs[d]);
        lemma_dirs_held(m, front, d);
    }
}

/// Where the aliases were merged without any conflict, each alias has the
/// statement of the shared link rule, made from its target.
proof fn lemma_links_held(m: FileModel, links: Seq<(Seq<char>, Seq<char>)>, l: int)
    requires
        0 <= l < links.len(),
        no_conflicts(spec_merge_links(m, links)),
    ensures
        spec_merge_links(m, links).statements.contains_key(path_key(links[l].0)),
        spec_merge_links(m, links).statements[path_key(links[l].0)] == spec_link_build(links[l].1),
    decreases links.len(),
{
    let front = links.drop_last();
    let before = spec_merge_links(m, front);
    lemma_merged_held(before, spec_link_file(links.last().0, links.last().1));
    if l == links.len() - 1 {
        assert(spec_link_file(links.last().0, links.last().1).statements.contains_key(
            path_key(links.last().0),
        ));
    } else {
        assert(front[l] == links[l]);
        lemma_links_held(m, front, l);
    }
}

/// What the build file of one step holds, where it was made without any
/// conflict: the rule of the step, and for each output, each directory
/// marker and each alias of the step the statement declared for it.
pub proof fn lemma_step_file_holds(inv: InvocationView, position: nat, deps: Seq<Seq<char>>)
    requires
        no_conflicts(inv.spec_ninja_build(position, deps)),
    ensures
        ({
            let file = inv.spec_ninja_build(position, deps);
            let rule_id = inv.spec_rule_id(position);
            &&& file.rules.contains_key(rule_id)
            &&& file.rules[rule_id] == inv.spec_rule()
            &&& forall|o: int|
                0 <= o < inv.spec_outputs().len() ==> file.statements.contains_key(
                    #[trigger] path_key(inv.spec_outputs()[o]),
                ) && file.statements[path_key(inv.spec_outputs()[o])] == spec_output_build(
                    rule_id,
                    deps,
                    inv.spec_outputs()[o],
                )
            &&& forall|d: int|
                0 <= d < inv.spec_dirs().len() ==> file.statements.contains_key(
                    #[trigger] path_key(inv.spec_dirs()[d]),
                ) && file.statements[path_key(inv.spec_dirs()[d])] == spec_build(
                    ENSURE_DIR_ALL_RULE_ID@,
                )
            &&& forall|l: int|
                0 <= l < inv.links.len() ==> file.statements.contains_key(
                    path_key(#[trigger] inv.links[l].0),
                ) && file.statements[path_key(inv.links[l].0)] == spec_link_build(inv.links[l].1)
        }),
{
    let rule_id = inv.spec_rule_id(position);
    let with_rule = spec_declare_rule(spec_empty_file(), rule_id, Some(inv.spec_rule()));
    let with_outputs = spec_declare_outputs(with_rule, rule_id, deps, inv.spec_outputs());
    let with_dirs = spec_merge_dirs(with_outputs, inv.spec_dirs());
    let file = spec_merge_links(with_dirs, inv.links);
    lemma_declare_outputs_extends(with_rule, rule_id, deps, inv.spec_outputs());
    lemma_merge_dirs_extends(with_outputs, inv.spec_dirs());
    lemma_merge_links_extends(with_dirs, inv.links);
    assert(with_rule.rules.contains_key(rule_id));
    assert(no_conflicts(with_dirs));
    assert(no_conflicts(with_outputs));
    assert forall|o: int| 0 <= o < inv.spec_outputs().len() implies file.statements.contains_key(
        #[trigger] path_key(inv.spec_outputs()[o]),
    ) && file.statements[path_key(inv.spec_outputs()[o])] == spec_output_build(
        rule_id,
        deps,
        inv.spec_outputs()[o],
    ) by {
        lemma_outputs_held(with_rule, rule_id, deps, inv.spec_outputs(), o);
        assert(with_outputs.statements.contains_key(path_key(inv.spec_outputs()[o])));
        assert(with_dirs.statements.contains_key(path_key(inv.spec_outputs()[o])));
    }
    assert forall|d: int| 0 <= d < inv.spec_dirs().len() implies file.statements.contains_key(
        #[trigger] path_key(inv.spec_dirs()[d]),
    ) && file.statements[path_key(inv.spec_dirs()[d])] == spec_build(ENSURE_DIR_ALL_RULE_ID@) by {
        lemma_dirs_held(with_outputs, inv.spec_dirs(), d);
        assert(with_dirs.statements.contains_key(path_key(inv.spec_dirs()[d])));
    }
    assert forall|l: int| 0 <= l < inv.links.len() implies file.statements.contains_key(
        path_key(#[trigger] inv.links[l].0),
    ) && file.statements[path_key(inv.links[l].0)] == spec_link_build(inv.links[l].1) by {
        lemma_links_held(with_dirs, inv.links, l);
    }
}

/// A graph made without any conflict keeps the build file of each of its
/// steps, and none of those files had a conflict.
proof fn lemma_plan_file_keeps_steps(plan: Seq<InvocationView>, n: nat, i: int)
    requires
        0 <= i < n,
        no_conflicts(spec_plan_file(plan, n)),
    ensures
        no_conflicts(spec_step_file(plan, i)),
        extends(spec_step_file(plan, i), spec_plan_file(plan, n)),
    decreases n,
{
    let before = spec_plan_file(plan, (n - 1) as nat);
    lemma_merged_held(before, spec_step_file(plan, n - 1));
    if i < n - 1 {
        lemma_plan_file_keeps_steps(plan, (n - 1) as nat, i);
    }
}

/// The keys of two sequences of paths, one after the other, are the keys of
/// both.
proof fn lemma_path_keys_concat(a: Seq<Seq<char>>, b: Seq<Seq<char>>)
    ensures
        path_keys(a + b) == path_keys(a).union(path_keys(b)),
{
    let ab = a + b;
    assert forall|k: PathKey| path_keys(ab).contains(k) implies path_keys(a).union(
        path_keys(b),
    ).contains(k) by {
        let i = choose|i: int| 0 <= i < ab.len() && #[trigger] path_key(ab[i]) == k;
        if i < a.len() {
            assert(ab[i] == a[i]);
        } else {
            assert(ab[i] == b[i - a.len()]);
        }
    }
    assert forall|k: PathKey| path_keys(a).union(path_keys(b)).contains(k) implies path_keys(
        ab,
    ).contains(k) by {
        if path_keys(a).contains(k) {
            let i = choose|i: int| 0 <= i < a.len() && #[trigger] path_key(a[i]) == k;
            assert(ab[i] == a[i]);
        } else {
            let i = choose|i: int| 0 <= i < b.len() && #[trigger] path_key(b[i]) == k;
            assert(ab[i + a.len()] == b[i]);
        }
    }
    assert(path_keys(ab) =~= path_keys(a).union(path_keys(b)));
}

/// Whether the step `inv` provides the file `key`: as one of its outputs,
/// or as the target of one of its aliases.
pub open spec fn provides(inv: InvocationView, key: PathKey) -> bool {
    path_keys(inv.spec_outputs()).contains(key) || path_keys(spec_link_targets(inv.links)).contains(
        key,
    )
}

/// The files that the steps at the positions `deps` provide.
pub open spec fn spec_dependency_keys(plan: Seq<InvocationView>, deps: Seq<usize>) -> Set<PathKey> {
    Set::new(
        |key: PathKey| exists|d: int| 0 <= d < deps.len() && provides(plan[#[trigger] deps[d] as int], key),
    )
}

/// The paths that dependency positions resolve to name exactly the files
/// that the steps at those positions provide.
pub proof fn lemma_resolve_keys(plan: Seq<InvocationView>, deps: Seq<usize>)
    ensures
        path_keys(spec_resolve(plan, deps)) == spec_dependency_keys(plan, deps),
    decreases deps.len(),
{
    if deps.len() == 0 {
        assert(path_keys(spec_resolve(plan, deps)) =~= spec_dependency_keys(plan, deps));
    } else {
        let front = deps.drop_last();
        let inv = plan[deps.last() as int];
        lemma_resolve_keys(plan, front);
        lemma_path_keys_concat(spec_resolve(plan, front), spec_provided(inv));
        lemma_path_keys_concat(inv.spec_outputs(), spec_link_targets(inv.links));
        let resolved = path_keys(spec_resolve(plan, deps));
        assert(spec_resolve(plan, deps) == spec_resolve(plan, front) + spec_provided(inv));
        assert forall|key: PathKey| spec_dependency_keys(plan, deps).contains(key) implies resolved.contains(
            key,
        ) by {
            let d = choose|d: int| 0 <= d < deps.len() && provides(plan[#[trigger] deps[d] as int], key);
            if d < front.len() {
                assert(front[d] == deps[d]);
                assert(spec_dependency_keys(plan, front).contains(key));
            } else {
                assert(deps[d] == deps.last());
                assert(provides(inv, key));
                assert(path_keys(spec_provided(inv)).contains(key));
            }
        }
        assert forall|key: PathKey| resolved.contains(key) implies spec_dependency_keys(
            plan,
            deps,
        ).contains(key) by {
            if spec_dependency_keys(plan, front).contains(key) {
                let d = choose|d: int|
                    0 <= d < front.len() && provides(plan[#[trigger] front[d] as int], key);
                assert(front[d] == deps[d]);
                assert(provides(plan[deps[d] as int], key));
            } else {
                assert(path_keys(spec_provided(inv)).contains(key));
                assert(provides(inv, key));
                assert(deps[deps.len() - 1] == deps.last());
                assert(provides(plan[deps[deps.len() - 1] as int], key));
            }
        }
        assert(path_keys(spec_resolve(plan, deps)) =~= spec_dependency_keys(plan, deps));
    }
}

/// Dependency closure. In a graph made without any conflict, the statement
/// of each output of each step is a statement of the rule of that step, and
/// its explicit dependencies are exactly the files that the steps it
/// depends on provide: their outputs and the targets of their aliases.
pub proof fn lemma_dependency_closure(plan: Seq<InvocationView>, i: int, o: int)
    requires
        0 <= i < plan.len(),
        0 <= o < plan[i].spec_outputs().len(),
        no_conflicts(spec_plan_file(plan, plan.len())),
    ensures
        ({
            let graph = spec_plan_file(plan, plan.len());
            let key = path_key(plan[i].spec_outputs()[o]);
            &&& graph.statements.contains_key(key)
            &&& graph.statements[key].rule == plan[i].spec_rule_id(i as nat)
            &&& graph.statements[key].explicit == spec_dependency_keys(plan, plan[i].deps)
        }),
{
    let deps = spec_resolve(plan, plan[i].deps);
    lemma_plan_file_keeps_steps(plan, plan.len(), i);
    lemma_step_file_holds(plan[i], i as nat, deps);
    lemma_resolve_keys(plan, plan[i].deps);
    let key = path_key(plan[i].spec_outputs()[o]);
    assert(spec_step_file(plan, i).statements.contains_key(key));
}

/// Output uniqueness. Where two steps at different positions each have an
/// output that names the same file, the graph builder meets a conflict, so
/// no graph is made of such a plan.
pub proof fn lemma_shared_output_conflicts(plan: Seq<InvocationView>, i: int, a: int, j: int, b: int)
    requires
        0 <= i < plan.len(),
        0 <= j < plan.len(),
        i != j,
        0 <= a < plan[i].spec_outputs().len(),
        0 <= b < plan[j].spec_outputs().len(),
        path_key(plan[i].spec_outputs()[a]) == path_key(plan[j].spec_outputs()[b]),
    ensures
        !no_conflicts(spec_plan_file(plan, plan.len())),
{
    if no_conflicts(spec_plan_file(plan, plan.len())) {
        lemma_dependency_closure(plan, i, a);
        lemma_dependency_closure(plan, j, b);
        lemma_rule_id_unique(plan[i], i as nat, plan[j], j as nat);
    }
}

/// Merging aliases adds statements of the shared link rule only.
proof fn lemma_links_add_links(m: FileModel, links: Seq<(Seq<char>, Seq<char>)>, key: PathKey)
    requires
        spec_merge_links(m, links).statements.contains_key(key),
    ensures
        m.statements.contains_key(key) && spec_merge_links(m, links).statements[key]
            == m.statements[key] || spec_merge_links(m, links).statements[key].rule
            == LINK_RULE_ID@,
    decreases links.len(),
{
    if links.len() > 0 {
        let front = links.drop_last();
        let before = spec_merge_links(m, front);
        if before.statements.contains_key(key) {
            lemma_links_add_links(m, front, key);
        }
    }
}

/// Custom build steps. A custom build step has exactly one output, the
/// marker file in its working directory, and no directory marker. Its build
/// file holds the statement of that output, made by the rule of the step,
/// and no statement of the shared directory rule. Where the step has no
/// alias, the build file holds nothing else: one rule, one statement, no
/// conflict.
pub proof fn lemma_custom_build_file(inv: InvocationView, position: nat, deps: Seq<Seq<char>>)
    requires
        inv.is_custom_build(),
    ensures
        ({
            let file = inv.spec_ninja_build(position, deps);
            let rule_id = inv.spec_rule_id(position);
            let marker = inv.spec_touch_file();
            let statement = spec_output_build(rule_id, deps, marker);
            &&& inv.spec_outputs() == seq![marker]
            &&& inv.spec_dirs().len() == 0
            &&& file.statements.contains_key(path_key(marker))
            &&& file.statements[path_key(marker)] == statement
            &&& forall|key: PathKey| #[trigger]
                file.statements.contains_key(key) ==> file.statements[key].rule
                    != ENSURE_DIR_ALL_RULE_ID@
            &&& inv.links.len() == 0 ==> {
                &&& file.rules == Map::<Seq<char>, RuleView>::empty().insert(
                    rule_id,
                    inv.spec_rule(),
                )
                &&& file.statements == Map::<PathKey, BuildView>::empty().insert(
                    path_key(marker),
                    statement,
                )
                &&& no_conflicts(file)
            }
        }),
{
    let rule_id = inv.spec_rule_id(position);
    let marker = inv.spec_touch_file();
    let outputs = inv.spec_outputs();
    let with_rule = spec_declare_rule(spec_empty_file(), rule_id, Some(inv.spec_rule()));
    assert(outputs.drop_last() =~= Seq::<Seq<char>>::empty());
    assert(spec_declare_outputs(with_rule, rule_id, deps, outputs.drop_last()) == with_rule);
    let with_outputs = spec_declare_outputs(with_rule, rule_id, deps, outputs);
    assert(with_outputs == spec_declare_statement(
        with_rule,
        path_key(marker),
        spec_output_build(rule_id, deps, marker),
    ));
    assert(spec_merge_dirs(with_outputs, inv.spec_dirs()) == with_outputs);
    let file = spec_merge_links(with_outputs, inv.links);
    lemma_merge_links_extends(with_outputs, inv.links);
    lemma_rule_id_not_shared(inv, position);
    assert(with_outputs.statements.contains_key(path_key(marker)));
    assert forall|key: PathKey| #[trigger] file.statements.contains_key(key) implies file.statements[key].rule
        != ENSURE_DIR_ALL_RULE_ID@ by {
        lemma_links_add_links(with_outputs, inv.links, key);
    }
}

/// The aliases of the pairs, in order.
pub open spec fn spec_link_names(links: Seq<(Seq<char>, Seq<char>)>) -> Seq<Seq<char>> {
    Seq::new(links.len(), |i: int| links[i].0)
}

/// Whether the step `inv` declares a statement for the file `key`: for one
/// of its outputs, of its directory markers or of its aliases.
pub open spec fn declares(inv: InvocationView, key: PathKey) -> bool {
    ||| path_keys(inv.spec_outputs()).contains(key)
    ||| path_keys(inv.spec_dirs()).contains(key)
    ||| path_keys(spec_link_names(inv.links)).contains(key)
}

/// Declaring outputs adds statements for those outputs only.
proof fn lemma_outputs_only(
    m: FileModel,
    rule_id: Seq<char>,
    deps: Seq<Seq<char>>,
    outputs: Seq<Seq<char>>,
    key: PathKey,
)
    requires
        spec_declare_outputs(m, rule_id, deps, outputs).statements.contains_key(key),
    ensures
        m.statements.contains_key(key) || path_keys(outputs).contains(key),
    decreases outputs.len(),
{
    if outputs.len() > 0 {
        let front = outputs.drop_last();
        if key == path_key(outputs.last()) {
            assert(outputs[outputs.len() - 1] == outputs.last());
        } else {
            lemma_outputs_only(m, rule_id, deps, front, key);
            if path_keys(front).contains(key) {
                let i = choose|i: int| 0 <= i < front.len() && #[trigger] path_key(front[i]) == key;
                assert(front[i] == outputs[i]);
            }
        }
    }
}

/// Merging directory markers adds statements for those markers only.
proof fn lemma_dirs_only(m: FileModel, dirs: Seq<Seq<char>>, key: PathKey)
    requires
        spec_merge_dirs(m, dirs).statements.contains_key(key),
    ensures
        m.statements.contains_key(key) || path_keys(dirs).contains(key),
    decreases dirs.len(),
{
    if dirs.len() > 0 {
        let front = dirs.drop_last();
        if key == path_key(dirs.last()) {
            assert(dirs[dirs.len() - 1] == dirs.last());
        } else {
            lemma_dirs_only(m, front, key);
            if path_keys(front).contains(key) {
                let i = choose|i: int| 0 <= i < front.len() && #[trigger] path_key(front[i]) == key;
                assert(front[i] == dirs[i]);
            }
        }
    }
}

/// Merging aliases adds statements for those aliases only.
proof fn lemma_links_only(m: FileModel, links: Seq<(Seq<char>, Seq<char>)>, key: PathKey)
    requires
        spec_merge_links(m, links).statements.contains_key(key),
    ensures
        m.statements.contains_key(key) || path_keys(spec_link_names(links)).contains(key),
    decreases links.len(),
{
    if links.len() > 0 {
        let front = links.drop_last();
        let names = spec_link_names(links);
        if key == path_key(links.last().0) {
            assert(names[links.len() - 1] == links.last().0);
        } else {
            lemma_links_only(m, front, key);
            if path_keys(spec_link_names(front)).contains(key) {
                let i = choose|i: int|
                    0 <= i < front.len() && #[trigger] path_key(spec_link_names(front)[i]) == key;
                assert(names[i] == spec_link_names(front)[i]);
            }
        }
    }
}

/// No statement without a step. Every statement of the graph of the first
/// `n` steps is one that a step among them declares: for an output, a
/// directory marker or an alias of that step.
pub proof fn lemma_statements_come_from_steps(plan: Seq<InvocationView>, n: nat, key: PathKey)
    requires
        spec_plan_file(plan, n).statements.contains_key(key),
    ensures
        exists|i: int| 0 <= i < n && declares(#[trigger] plan[i], key),
    decreases n,
{
    if n > 0 {
        let before = spec_plan_file(plan, (n - 1) as nat);
        if before.statements.contains_key(key) {
            lemma_statements_come_from_steps(plan, (n - 1) as nat, key);
            let i = choose|i: int| 0 <= i < n - 1 && declares(#[trigger] plan[i], key);
            assert(0 <= i < n && declares(plan[i], key));
        } else {
            let inv = plan[n - 1];
            let deps = spec_resolve(plan, inv.deps);
            let rule_id = inv.spec_rule_id((n - 1) as nat);
            let with_rule = spec_declare_rule(spec_empty_file(), rule_id, Some(inv.spec_rule()));
            let with_outputs = spec_declare_outputs(with_rule, rule_id, deps, inv.spec_outputs());
            let with_dirs = spec_merge_dirs(with_outputs, inv.spec_dirs());
            assert(spec_step_file(plan, n - 1).statements.contains_key(key));
            lemma_links_only(with_dirs, inv.links, key);
            if with_dirs.statements.contains_key(key) {
                lemma_dirs_only(with_outputs, inv.spec_dirs(), key);
                if with_outputs.statements.contains_key(key) {
                    lemma_outputs_only(with_rule, rule_id, deps, inv.spec_outputs(), key);
                }
            }
            assert(declares(plan[n - 1], key));
        }
    }
}

/// In a graph made without any conflict, each step has its rule under its
/// identifier, each directory marker of a step has the statement of the
/// shared directory rule, and each alias of a step has the statement of the
/// shared link rule, made from the target of the alias: what several steps
/// declare alike stands once.
pub proof fn lemma_graph_holds_step(plan: Seq<InvocationView>, i: int)
    requires
        0 <= i < plan.len(),
        no_conflicts(spec_plan_file(plan, plan.len())),
    ensures
        ({
            let graph = spec_plan_file(plan, plan.len());
            let rule_id = plan[i].spec_rule_id(i as nat);
            &&& graph.rules.contains_key(rule_id)
            &&& graph.rules[rule_id] == plan[i].spec_rule()
            &&& forall|d: int|
                0 <= d < plan[i].spec_dirs().len() ==> graph.statements.contains_key(
                    #[trigger] path_key(plan[i].spec_dirs()[d]),
                ) && graph.statements[path_key(plan[i].spec_dirs()[d])] == spec_build(
                    ENSURE_DIR_ALL_RULE_ID@,
                )
            &&& forall|l: int|
                0 <= l < plan[i].links.len() ==> graph.statements.contains_key(
                    path_key(#[trigger] plan[i].links[l].0),
                ) && graph.statements[path_key(plan[i].links[l].0)] == spec_link_build(
                    plan[i].links[l].1,
                )
        }),
{
    let deps = spec_resolve(plan, plan[i].deps);
    lemma_plan_file_keeps_steps(plan, plan.len(), i);
    lemma_step_file_holds(plan[i], i as nat, deps);
    let step = spec_step_file(plan, i);
    let graph = spec_plan_file(plan, plan.len());
    assert(step.rules.contains_key(plan[i].spec_rule_id(i as nat)));
    assert forall|d: int| 0 <= d < plan[i].spec_dirs().len() implies graph.statements.contains_key(
        #[trigger] path_key(plan[i].spec_dirs()[d]),
    ) && graph.statements[path_key(plan[i].spec_dirs()[d])] == spec_build(
        ENSURE_DIR_ALL_RULE_ID@,
    ) by {
        assert(step.statements.contains_key(path_key(plan[i].spec_dirs()[d])));
    }
    assert forall|l: int| 0 <= l < plan[i].links.len() implies graph.statements.contains_key(
        path_key(#[trigger] plan[i].links[l].0),
    ) && graph.statements[path_key(plan[i].links[l].0)] == spec_link_build(plan[i].links[l].1) by {
        assert(step.statements.contains_key(path_key(plan[i].links[l].0)));
    }
}

} // verus!
