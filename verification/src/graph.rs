//! The build graph of one invocation: its rule, a statement for each of its
//! outputs, and the statements that make its directories and its aliases.

use vstd::prelude::*;
use crate::model::{
    spec_build, spec_build_explicit, spec_build_implicit, spec_declare_rule,
    spec_declare_statement, spec_empty_file, spec_merge, BuildView, FileModel,
};
use crate::ninja::{
    build_built, build_clone, build_explicit, build_implicit, build_new, file_builder_view,
    file_merge, file_new, file_output, file_rule,
};
use crate::path::{ninja_dir, path_key, path_keys, strs, PathKey};
use crate::plan::{pairs, spec_dir_key, Invocation, InvocationView};
use crate::rules::{
    ensure_dir_all_rule, link_rule, spec_ensure_dir_all_rule, spec_link_rule,
    ENSURE_DIR_ALL_RULE_ID, LINK_RULE_ID,
};

verus! {

/// The implicit dependencies of a statement that writes to the directory of
/// `p`: the marker of that directory, where `p` has one.
pub open spec fn spec_dir_dependency(p: Seq<char>) -> Set<PathKey> {
    match spec_dir_key(p) {
        Some(key) => set![key],
        None => Set::empty(),
    }
}

/// The statement of the output `output` of a step: produced by the rule of
/// the step, from the paths in `deps`, inside the directory of `output`.
pub open spec fn spec_output_build(rule_id: Seq<char>, deps: Seq<Seq<char>>, output: Seq<char>)
    -> BuildView {
    BuildView {
        explicit: path_keys(deps),
        implicit: spec_dir_dependency(output),
        ..spec_build(rule_id)
    }
}

/// The statement of an alias of `target`: a link made from `target`, inside
/// the directory of `target`.
pub open spec fn spec_link_build(target: Seq<char>) -> BuildView {
    BuildView {
        explicit: set![path_key(target)],
        implicit: spec_dir_dependency(target),
        ..spec_build(LINK_RULE_ID@)
    }
}

/// The build file that makes the directory marker `dir`.
pub open spec fn spec_dir_file(dir: Seq<char>) -> FileModel {
    spec_declare_statement(
        spec_declare_rule(spec_empty_file(), ENSURE_DIR_ALL_RULE_ID@, Some(spec_ensure_dir_all_rule())),
        path_key(dir),
        spec_build(ENSURE_DIR_ALL_RULE_ID@),
    )
}

/// The build file that makes `link` an alias of `target`.
pub open spec fn spec_link_file(link: Seq<char>, target: Seq<char>) -> FileModel {
    spec_declare_statement(
        spec_declare_rule(spec_empty_file(), LINK_RULE_ID@, Some(spec_link_rule())),
        path_key(link),
        spec_link_build(target),
    )
}

/// `m` after the statement of each of `outputs` was declared, in order.
pub open spec fn spec_declare_outputs(
    m: FileModel,
    rule_id: Seq<char>,
    deps: Seq<Seq<char>>,
    outputs: Seq<Seq<char>>,
) -> FileModel
    decreases outputs.len(),
{
    if outputs.len() == 0 {
        m
    } else {
        spec_declare_statement(
            spec_declare_outputs(m, rule_id, deps, outputs.drop_last()),
            path_key(outputs.last()),
            spec_output_build(rule_id, deps, outputs.last()),
        )
    }
}

/// `m` after the file of each of `dirs` was merged into it, in order.
pub open spec fn spec_merge_dirs(m: FileModel, dirs: Seq<Seq<char>>) -> FileModel
    decreases dirs.len(),
{
    if dirs.len() == 0 {
        m
    } else {
        spec_merge(spec_merge_dirs(m, dirs.drop_last()), spec_dir_file(dirs.last()))
    }
}

/// `m` after the file of each of `links` was merged into it, in order.
pub open spec fn spec_merge_links(m: FileModel, links: Seq<(Seq<char>, Seq<char>)>) -> FileModel
    decreases links.len(),
{
    if links.len() == 0 {
        m
    } else {
        spec_merge(
            spec_merge_links(m, links.drop_last()),
            spec_link_file(links.last().0, links.last().1),
        )
    }
}

impl InvocationView {
    /// The build file of this step at `position`, given the paths `deps`
    /// that it depends on: its rule; then a statement for each output; then
    /// the directory markers; then the aliases.
    pub open spec fn spec_ninja_build(self, position: nat, deps: Seq<Seq<char>>) -> FileModel {
        let rule_id = self.spec_rule_id(position);
        let with_rule = spec_declare_rule(spec_empty_file(), rule_id, Some(self.spec_rule()));
        let with_outputs = spec_declare_outputs(with_rule, rule_id, deps, self.spec_outputs());
        let with_dirs = spec_merge_dirs(with_outputs, self.spec_dirs());
        spec_merge_links(with_dirs, self.links)
    }
}

/// The keys of a sequence with one more path are those of the sequence and
/// the key of that path.
pub proof fn lemma_path_keys_push(paths: Seq<Seq<char>>, p: Seq<char>)
    ensures
        path_keys(paths.push(p)) == path_keys(paths).insert(path_key(p)),
{
    let more = paths.push(p);
    assert forall|k: PathKey| path_keys(more).contains(k) implies path_keys(paths).insert(
        path_key(p),
    ).contains(k) by {
        let i = choose|i: int| 0 <= i < more.len() && #[trigger] path_key(more[i]) == k;
        if i < paths.len() {
            assert(more[i] == paths[i]);
        }
    }
    assert forall|k: PathKey| path_keys(paths).insert(path_key(p)).contains(k) implies path_keys(
        more,
    ).contains(k) by {
        if path_keys(paths).contains(k) {
            let i = choose|i: int| 0 <= i < paths.len() && #[trigger] path_key(paths[i]) == k;
            assert(more[i] == paths[i]);
        } else {
            assert(more[paths.len() as int] == p);
        }
    }
    assert(path_keys(more) =~= path_keys(paths).insert(path_key(p)));
}

/// The statement builder of `rule_id` with `deps` as explicit dependencies.
fn build_with_deps(rule_id: &str, deps: &Vec<String>) -> (b: ninja_files_data::BuildBuilder)
    ensures
        build_built(b) == Some(
            BuildView { explicit: path_keys(strs(deps@)), ..spec_build(rule_id@) },
        ),
{
    let mut b = build_new(rule_id);
    let mut i: usize = 0;
    assert(path_keys(strs(deps@).take(0)) =~= Set::<PathKey>::empty());
    while i < deps.len()
        invariant
            i <= deps.len(),
            build_built(b) == Some(
                BuildView { explicit: path_keys(strs(deps@).take(i as int)), ..spec_build(rule_id@) },
            ),
        decreases deps.len() - i,
    {
        proof {
            lemma_path_keys_push(strs(deps@).take(i as int), deps@[i as int]@);
            assert(strs(deps@).take(i + 1) =~= strs(deps@).take(i as int).push(deps@[i as int]@));
        }
        b = build_explicit(b, deps[i].as_str());
        i += 1;
    }
    assert(strs(deps@).take(deps.len() as int) =~= strs(deps@));
    b
}

/// `b` with the directory marker of `p` as an implicit dependency, where
/// `p` has one.
fn build_in_dir(b: ninja_files_data::BuildBuilder, p: &str) -> (r: ninja_files_data::BuildBuilder)
    requires
        build_built(b) matches Some(v) && v.implicit == Set::<PathKey>::empty(),
    ensures
        build_built(r) == Some(
            BuildView { implicit: spec_dir_dependency(p@), ..build_built(b)->0 },
        ),
{
    match ninja_dir(p) {
        Some(dir) => {
            let r = build_implicit(b, dir.as_str());
            assert(build_built(r)->0.implicit =~= spec_dir_dependency(p@));
            r
        },
        None => b,
    }
}

impl Invocation {
    /// The build file of this step at position `indice` of the plan, given
    /// the paths `deps` that the steps it depends on provide.
    ///
    /// It holds the rule of the step under its identifier; for each output a
    /// statement of that rule, with `deps` as explicit dependencies and the
    /// directory marker of the output as implicit dependency; for each
    /// directory marker a statement of the shared directory rule; and for
    /// each alias a statement of the shared link rule, which depends on the
    /// target explicitly and on the target's directory marker implicitly.
    pub fn ninja_build(&self, indice: usize, deps: Vec<String>) -> (file:
        ninja_files_data::FileBuilder)
        requires
            self.target_kind@.len() > 0,
        ensures
            file_builder_view(file) == self@.spec_ninja_build(indice as nat, strs(deps@)),
    {
        let rule_id = self.rule_id(indice);
        let build = build_with_deps(rule_id.as_str(), &deps);
        let mut file = file_rule(file_new(), rule_id.as_str(), self.rule());
        let ghost with_rule = file_builder_view(file);

        let outputs = self.outputs();
        let mut i: usize = 0;
        assert(strs(outputs@).take(0) =~= Seq::<Seq<char>>::empty());
        while i < outputs.len()
            invariant
                i <= outputs.len(),
                build_built(build) == Some(
                    BuildView { explicit: path_keys(strs(deps@)), ..spec_build(rule_id@) },
                ),
                file_builder_view(file) == spec_declare_outputs(
                    with_rule,
                    rule_id@,
                    strs(deps@),
                    strs(outputs@).take(i as int),
                ),
            decreases outputs.len() - i,
        {
            let ghost front = strs(outputs@).take(i + 1);
            assert(front.drop_last() =~= strs(outputs@).take(i as int));
            assert(front.last() == outputs@[i as int]@);
            let statement = build_in_dir(build_clone(&build), outputs[i].as_str());
            assert(build_built(statement)->0 =~= spec_output_build(
                rule_id@,
                strs(deps@),
                outputs@[i as int]@,
            ));
            file = file_output(file, outputs[i].as_str(), statement);
            i += 1;
        }
        assert(strs(outputs@).take(outputs.len() as int) =~= strs(outputs@));
        let ghost with_outputs = file_builder_view(file);

        let dirs = self.dirs();
        let mut j: usize = 0;
        assert(strs(dirs@).take(0) =~= Seq::<Seq<char>>::empty());
        while j < dirs.len()
            invariant
                j <= dirs.len(),
                file_builder_view(file) == spec_merge_dirs(with_outputs, strs(dirs@).take(j as int)),
            decreases dirs.len() - j,
        {
            let ghost front = strs(dirs@).take(j + 1);
            assert(front.drop_last() =~= strs(dirs@).take(j as int));
            assert(front.last() == dirs@[j as int]@);
            let f = file_rule(file_new(), ENSURE_DIR_ALL_RULE_ID, ensure_dir_all_rule());
            let f = file_output(f, dirs[j].as_str(), build_new(ENSURE_DIR_ALL_RULE_ID));
            file = file_merge(file, &f);
            j += 1;
        }
        assert(strs(dirs@).take(dirs.len() as int) =~= strs(dirs@));
        let ghost with_dirs = file_builder_view(file);

        let links = self.links();
        let mut k: usize = 0;
        assert(pairs(links@).take(0) =~= Seq::<(Seq<char>, Seq<char>)>::empty());
        while k < links.len()
            invariant
                k <= links.len(),
                file_builder_view(file) == spec_merge_links(with_dirs, pairs(links@).take(k as int)),
            decreases links.len() - k,
        {
            let ghost front = pairs(links@).take(k + 1);
            assert(front.drop_last() =~= pairs(links@).take(k as int));
            assert(front.last() == (links@[k as int].0@, links@[k as int].1@));
            let target = links[k].1.as_str();
            let statement = build_explicit(build_new(LINK_RULE_ID), target);
            let statement = build_in_dir(statement, target);
            assert(build_built(statement)->0 =~= spec_link_build(target@));
            let f = file_rule(file_new(), LINK_RULE_ID, link_rule());
            let f = file_output(f, links[k].0.as_str(), statement);
            file = file_merge(file, &f);
            k += 1;
        }
        assert(pairs(links@).take(links.len() as int) =~= pairs(links@));
        file
    }
}

} // verus!
