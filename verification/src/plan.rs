//! The build plan: an ordered sequence of invocations, each a compiler or
//! linker step that names the steps it depends on by their positions.

use vstd::prelude::*;
use crate::path::{join, ninja_dir, path_join, path_key, path_keys, same_file, spec_ninja_dir, strs};
use crate::text::{decimal, spec_decimal};

verus! {

/// One step of the plan, as the build tool emits it.
#[derive(Debug, PartialEq, Eq)]
pub struct Invocation {
    pub package_name: String,
    pub package_version: String,
    /// The roles of the target ("lib", "bin", ...); the first one names it.
    pub target_kind: Vec<String>,
    /// What the step does ("build", "test", ...); "run-custom-build" for a
    /// custom build step.
    pub compile_mode: String,
    /// Positions, in the plan, of the steps this one depends on.
    pub deps: Vec<usize>,
    /// The files this step declares that it writes; a custom build step may
    /// declare none at all.
    pub outputs: Option<Vec<String>>,
    /// Pairs of an alias and the output it must resolve to.
    pub links: Vec<(String, String)>,
    /// The executable to run.
    pub program: String,
    /// Its arguments, in order.
    pub args: Vec<String>,
    /// The environment to run it in: pairs of a name and a value, in the
    /// order in which the command assigns them.
    pub env: Vec<(String, String)>,
    /// The directory to run it from.
    pub cwd: String,
}

/// The mathematical value of an [`Invocation`].
pub struct InvocationView {
    pub package_name: Seq<char>,
    pub package_version: Seq<char>,
    pub target_kind: Seq<Seq<char>>,
    pub compile_mode: Seq<char>,
    pub deps: Seq<usize>,
    pub outputs: Option<Seq<Seq<char>>>,
    pub links: Seq<(Seq<char>, Seq<char>)>,
    pub program: Seq<char>,
    pub args: Seq<Seq<char>>,
    pub env: Seq<(Seq<char>, Seq<char>)>,
    pub cwd: Seq<char>,
}

/// The view of each pair of strings of a sequence.
pub open spec fn pairs(v: Seq<(String, String)>) -> Seq<(Seq<char>, Seq<char>)> {
    v.map_values(|p: (String, String)| (p.0@, p.1@))
}

/// The compile mode of a custom build step.
pub open spec fn spec_custom_build_mode() -> Seq<char> {
    "run-custom-build"@
}

/// The segment, inside the working directory, of the file that marks a
/// custom build step as done.
pub open spec fn spec_touch_marker() -> Seq<char> {
    ".ninja_touch"@
}

/// `list`, with `p` at its end unless a path of `list` names the same file.
pub open spec fn spec_add_path(list: Seq<Seq<char>>, p: Seq<char>) -> Seq<Seq<char>> {
    if path_keys(list).contains(path_key(p)) {
        list
    } else {
        list.push(p)
    }
}

/// The directory markers of `outputs`, each file once, in the order in which
/// the outputs first ask for them.
pub open spec fn spec_output_dirs(outputs: Seq<Seq<char>>) -> Seq<Seq<char>>
    decreases outputs.len(),
{
    if outputs.len() == 0 {
        Seq::empty()
    } else {
        let rest = spec_output_dirs(outputs.drop_last());
        match spec_ninja_dir(outputs.last()) {
            Some(dir) => spec_add_path(rest, dir),
            None => rest,
        }
    }
}

/// No two paths of `list` name the same file.
pub open spec fn distinct_files(list: Seq<Seq<char>>) -> bool {
    forall|i: int, j: int|
        0 <= i < j < list.len() ==> path_key(#[trigger] list[i]) != path_key(#[trigger] list[j])
}

/// The key of the directory marker of `p`, where `p` has one.
pub open spec fn spec_dir_key(p: Seq<char>) -> Option<Seq<Seq<char>>> {
    match spec_ninja_dir(p) {
        Some(dir) => Some(path_key(dir)),
        None => None,
    }
}

/// The keys of the directory markers that the paths of `outputs` ask for.
pub open spec fn spec_dir_keys(outputs: Seq<Seq<char>>) -> Set<Seq<Seq<char>>> {
    Set::new(
        |k: Seq<Seq<char>>|
            exists|i: int| 0 <= i < outputs.len() && #[trigger] spec_dir_key(outputs[i]) == Some(k),
    )
}

impl InvocationView {
    /// Whether this is a custom build step.
    pub open spec fn is_custom_build(self) -> bool {
        self.compile_mode == spec_custom_build_mode()
    }

    /// What the schema asks of every record: a target kind, and declared
    /// outputs unless the step is a custom build step.
    pub open spec fn well_formed(self) -> bool {
        &&& self.target_kind.len() > 0
        &&& self.outputs is None ==> self.is_custom_build()
    }

    /// The file that marks a custom build step as done.
    pub open spec fn spec_touch_file(self) -> Seq<char> {
        path_join(self.cwd, spec_touch_marker())
    }

    /// The outputs that the build graph tracks: the marker file alone for a
    /// custom build step, else the declared outputs.
    pub open spec fn spec_outputs(self) -> Seq<Seq<char>> {
        if self.is_custom_build() {
            seq![self.spec_touch_file()]
        } else {
            match self.outputs {
                Some(outputs) => outputs,
                None => Seq::empty(),
            }
        }
    }

    /// The directory markers that must exist before the outputs are written:
    /// none for a custom build step.
    pub open spec fn spec_dirs(self) -> Seq<Seq<char>> {
        if self.is_custom_build() {
            Seq::empty()
        } else {
            spec_output_dirs(self.spec_outputs())
        }
    }

    /// The identifier of the rule of this step at `position`.
    pub open spec fn spec_rule_id(self, position: nat) -> Seq<char> {
        spec_decimal(position) + "-"@ + self.package_name + "-"@ + self.package_version + "-"@
            + self.target_kind[0] + "-"@ + self.compile_mode
    }
}

impl View for Invocation {
    type V = InvocationView;

    open spec fn view(&self) -> InvocationView {
        InvocationView {
            package_name: self.package_name@,
            package_version: self.package_version@,
            target_kind: strs(self.target_kind@),
            compile_mode: self.compile_mode@,
            deps: self.deps@,
            outputs: match self.outputs {
                Some(outputs) => Some(strs(outputs@)),
                None => None,
            },
            links: pairs(self.links@),
            program: self.program@,
            args: strs(self.args@),
            env: pairs(self.env@),
            cwd: self.cwd@,
        }
    }
}

/// A copy of each string of `v`.
pub fn clone_strings(v: &Vec<String>) -> (r: Vec<String>)
    ensures
        r@ == v@,
{
    let mut r: Vec<String> = Vec::new();
    let mut i: usize = 0;
    while i < v.len()
        invariant
            i <= v.len(),
            r@ == v@.take(i as int),
        decreases v.len() - i,
    {
        r.push(v[i].clone());
        assert(r@ =~= v@.take(i + 1));
        i += 1;
    }
    assert(v@.take(v.len() as int) =~= v@);
    r
}

/// Whether a path of `list` names the same file as `p`.
pub fn contains_file(list: &Vec<String>, p: &str) -> (r: bool)
    ensures
        r == path_keys(strs(list@)).contains(path_key(p@)),
{
    let mut i: usize = 0;
    while i < list.len()
        invariant
            i <= list.len(),
            forall|j: int| 0 <= j < i ==> path_key(#[trigger] strs(list@)[j]) != path_key(p@),
        decreases list.len() - i,
    {
        if same_file(list[i].as_str(), p) {
            assert(path_key(strs(list@)[i as int]) == path_key(p@));
            return true;
        }
        i += 1;
    }
    false
}

/// The paths of `spec_output_dirs(outputs)` name different files, and their
/// keys are those of the markers that the outputs ask for.
pub proof fn lemma_output_dirs(outputs: Seq<Seq<char>>)
    ensures
        distinct_files(spec_output_dirs(outputs)),
        path_keys(spec_output_dirs(outputs)) == spec_dir_keys(outputs),
    decreases outputs.len(),
{
    let dirs = spec_output_dirs(outputs);
    if outputs.len() == 0 {
        assert(path_keys(dirs) =~= spec_dir_keys(outputs));
    } else {
        let front = outputs.drop_last();
        let rest = spec_output_dirs(front);
        lemma_output_dirs(front);
        assert forall|k: Seq<Seq<char>>| spec_dir_keys(front).contains(k) implies spec_dir_keys(
            outputs,
        ).contains(k) by {
            let i = choose|i: int| 0 <= i < front.len() && #[trigger] spec_dir_key(front[i]) == Some(k);
            assert(front[i] == outputs[i]);
        }
        assert forall|k: Seq<Seq<char>>| spec_dir_keys(outputs).contains(k) implies spec_dir_keys(
            front,
        ).contains(k) || spec_dir_key(outputs.last()) == Some(k) by {
            let i = choose|i: int|
                0 <= i < outputs.len() && #[trigger] spec_dir_key(outputs[i]) == Some(k);
            if i < front.len() {
                assert(front[i] == outputs[i]);
            }
        }
        match spec_ninja_dir(outputs.last()) {
            Some(dir) => {
                assert(spec_dir_key(outputs[outputs.len() - 1]) == Some(path_key(dir)));
                assert(spec_dir_keys(outputs).contains(path_key(dir)));
                if path_keys(rest).contains(path_key(dir)) {
                    assert(path_keys(dirs) =~= spec_dir_keys(outputs));
                } else {
                    assert(dirs == rest.push(dir));
                    assert forall|k: Seq<Seq<char>>| path_keys(dirs).contains(k) implies path_keys(
                        rest,
                    ).contains(k) || k == path_key(dir) by {
                        let i = choose|i: int| 0 <= i < dirs.len() && #[trigger] path_key(dirs[i]) == k;
                        if i < rest.len() {
                            assert(dirs[i] == rest[i]);
                        }
                    }
                    assert forall|k: Seq<Seq<char>>| path_keys(rest).contains(k) implies path_keys(
                        dirs,
                    ).contains(k) by {
                        let i = choose|i: int| 0 <= i < rest.len() && #[trigger] path_key(rest[i]) == k;
                        assert(dirs[i] == rest[i]);
                    }
                    assert(dirs[rest.len() as int] == dir);
                    assert(path_keys(dirs).contains(path_key(dir)));
                    assert(path_keys(dirs) =~= spec_dir_keys(outputs));
                    assert forall|i: int, j: int| 0 <= i < j < dirs.len() implies path_key(
                        #[trigger] dirs[i],
                    ) != path_key(#[trigger] dirs[j]) by {
                        assert(dirs[i] == rest[i]);
                        if j < rest.len() {
                            assert(dirs[j] == rest[j]);
                        } else {
                            assert(path_keys(rest).contains(path_key(rest[i])));
                        }
                    }
                }
            },
            None => {
                assert(path_keys(dirs) =~= spec_dir_keys(outputs));
            },
        }
    }
}

impl Invocation {
    /// Whether this is a custom build step.
    pub fn is_custom_build(&self) -> (r: bool)
        ensures
            r == self@.is_custom_build(),
    {
        self.compile_mode == String::from_str("run-custom-build")
    }

    /// The outputs that the build graph tracks. A custom build step declares
    /// none that can be tracked, so it gets one: a marker file in its
    /// working directory.
    pub fn outputs(&self) -> (r: Vec<String>)
        ensures
            strs(r@) == self@.spec_outputs(),
            self@.is_custom_build() ==> r@.len() == 1,
    {
        if self.is_custom_build() {
            let marker = join(self.cwd.as_str(), ".ninja_touch");
            let r = vec![marker];
            assert(strs(r@) =~= self@.spec_outputs());
            r
        } else {
            match &self.outputs {
                Some(outputs) => clone_strings(outputs),
                None => {
                    let r: Vec<String> = Vec::new();
                    assert(strs(r@) =~= self@.spec_outputs());
                    r
                },
            }
        }
    }

    /// The pairs of an alias and the output that it must resolve to.
    pub fn links(&self) -> (r: Vec<(String, String)>)
        ensures
            pairs(r@) == self@.links,
    {
        let mut r: Vec<(String, String)> = Vec::new();
        let mut i: usize = 0;
        while i < self.links.len()
            invariant
                i <= self.links.len(),
                r@ == self.links@.take(i as int),
            decreases self.links.len() - i,
        {
            r.push((self.links[i].0.clone(), self.links[i].1.clone()));
            assert(r@ =~= self.links@.take(i + 1));
            i += 1;
        }
        assert(self.links@.take(self.links.len() as int) =~= self.links@);
        r
    }

    /// The directory markers of the outputs: for each output that has a
    /// parent directory, the marker inside it, each file once. A custom
    /// build step sets up its own directories and gets none.
    pub fn dirs(&self) -> (r: Vec<String>)
        ensures
            strs(r@) == self@.spec_dirs(),
            self@.is_custom_build() ==> r@.len() == 0,
            distinct_files(strs(r@)),
            !self@.is_custom_build() ==> path_keys(strs(r@)) == spec_dir_keys(self@.spec_outputs()),
    {
        let mut all: Vec<String> = Vec::new();
        if self.is_custom_build() {
            assert(strs(all@) =~= self@.spec_dirs());
            return all;
        }
        let outputs = self.outputs();
        let mut i: usize = 0;
        assert(strs(outputs@).take(0) =~= Seq::<Seq<char>>::empty());
        assert(strs(all@) =~= spec_output_dirs(strs(outputs@).take(0)));
        while i < outputs.len()
            invariant
                i <= outputs.len(),
                strs(all@) == spec_output_dirs(strs(outputs@).take(i as int)),
            decreases outputs.len() - i,
        {
            let ghost before = strs(all@);
            let ghost front = strs(outputs@).take(i + 1);
            assert(front.drop_last() =~= strs(outputs@).take(i as int));
            assert(front.last() == outputs@[i as int]@);
            match ninja_dir(outputs[i].as_str()) {
                Some(dir) => {
                    if !contains_file(&all, dir.as_str()) {
                        all.push(dir);
                        assert(strs(all@) =~= before.push(dir@));
                    }
                },
                None => {},
            }
            i += 1;
        }
        proof {
            assert(strs(outputs@).take(outputs.len() as int) =~= strs(outputs@));
            lemma_output_dirs(self@.spec_outputs());
        }
        all
    }

    /// The identifier of the rule of this step: its position in the plan,
    /// the package's name and version, the first target kind and the compile
    /// mode, joined by hyphens.
    pub fn rule_id(&self, indice: usize) -> (r: String)
        requires
            self.target_kind@.len() > 0,
        ensures
            r@ == self@.spec_rule_id(indice as nat),
    {
        let r = decimal(indice);
        let r = r.concat("-");
        let r = r.concat(self.package_name.as_str());
        let r = r.concat("-");
        let r = r.concat(self.package_version.as_str());
        let r = r.concat("-");
        let r = r.concat(self.target_kind[0].as_str());
        let r = r.concat("-");
        let r = r.concat(self.compile_mode.as_str());
        r
    }
}

} // verus!
