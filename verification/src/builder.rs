//! The graph builder: one pass over the plan that resolves each step's
//! dependency positions to paths and merges the build files of all steps.

use vstd::prelude::*;
use crate::laws::lemma_conflicts_are_between_statements;
use crate::model::{spec_empty_file, spec_merge, ConflictView, FileModel};
use crate::ninja::{file_build, file_builder_view, file_merge, file_new, file_view, Conflict};
use crate::path::{path_key, strs};
use crate::plan::{Invocation, InvocationView};
use crate::text::{decimal, spec_decimal};

verus! {

/// Why no build graph could be made of a plan.
#[derive(Debug, PartialEq, Eq)]
pub enum PlanError {
    /// The record at position `invocation` does not conform to the schema:
    /// it has no target kind, or declares no outputs without being a custom
    /// build step.
    PlanParse { invocation: usize },
    /// The step at position `invocation` depends on position `index`, which
    /// the plan does not have.
    InvalidDependencyIndex { invocation: usize, index: usize },
    /// Two different statements claim the output `path`: one of the rule
    /// `first_rule`, declared first, and one of the rule `second_rule`.
    ConflictingOutput { path: String, first_rule: String, second_rule: String },
}

/// The mathematical value of a [`PlanError`].
pub enum PlanErrorView {
    PlanParse { invocation: nat },
    InvalidDependencyIndex { invocation: nat, index: nat },
    ConflictingOutput { path: Seq<char>, first_rule: Seq<char>, second_rule: Seq<char> },
}

impl View for PlanError {
    type V = PlanErrorView;

    open spec fn view(&self) -> PlanErrorView {
        match self {
            PlanError::PlanParse { invocation } => PlanErrorView::PlanParse {
                invocation: *invocation as nat,
            },
            PlanError::InvalidDependencyIndex { invocation, index } => {
                PlanErrorView::InvalidDependencyIndex {
                    invocation: *invocation as nat,
                    index: *index as nat,
                }
            },
            PlanError::ConflictingOutput { path, first_rule, second_rule } => {
                PlanErrorView::ConflictingOutput {
                    path: path@,
                    first_rule: first_rule@,
                    second_rule: second_rule@,
                }
            },
        }
    }
}

impl PlanErrorView {
    /// The sentence that describes the error.
    pub open spec fn spec_message(self) -> Seq<char> {
        match self {
            PlanErrorView::PlanParse { invocation } => "invocation "@ + spec_decimal(invocation)
                + " does not conform to the schema of a build plan"@,
            PlanErrorView::InvalidDependencyIndex { invocation, index } => "invocation "@
                + spec_decimal(invocation) + " depends on position "@ + spec_decimal(index)
                + ", which the plan does not have"@,
            PlanErrorView::ConflictingOutput { path, first_rule, second_rule } => "output "@ + path
                + " is claimed by rule "@ + first_rule + " and by rule "@ + second_rule,
        }
    }
}

impl PlanError {
    /// The sentence that describes the error.
    pub fn message(&self) -> (r: String)
        ensures
            r@ == self@.spec_message(),
    {
        match self {
            PlanError::PlanParse { invocation } => {
                let r = String::from_str("invocation ");
                let r = r.concat(decimal(*invocation).as_str());
                r.concat(" does not conform to the schema of a build plan")
            },
            PlanError::InvalidDependencyIndex { invocation, index } => {
                let r = String::from_str("invocation ");
                let r = r.concat(decimal(*invocation).as_str());
                let r = r.concat(" depends on position ");
                let r = r.concat(decimal(*index).as_str());
                r.concat(", which the plan does not have")
            },
            PlanError::ConflictingOutput { path, first_rule, second_rule } => {
                let r = String::from_str("output ");
                let r = r.concat(path.as_str());
                let r = r.concat(" is claimed by rule ");
                let r = r.concat(first_rule.as_str());
                let r = r.concat(" and by rule ");
                r.concat(second_rule.as_str())
            },
        }
    }
}

/// The whole plan: the invocations in the order in which the build tool
/// emitted them. Every record of a plan conforms to the schema.
pub struct BuildPlan {
    invocations: Vec<Invocation>,
}

/// The view of each invocation of a sequence.
pub open spec fn views(v: Seq<Invocation>) -> Seq<InvocationView> {
    v.map_values(|i: Invocation| i@)
}

/// Every record conforms to the schema.
pub open spec fn plan_well_formed(plan: Seq<InvocationView>) -> bool {
    forall|i: int| 0 <= i < plan.len() ==> (#[trigger] plan[i]).well_formed()
}

/// Every dependency is a position of the plan.
pub open spec fn indices_valid(plan: Seq<InvocationView>) -> bool {
    forall|i: int, j: int|
        0 <= i < plan.len() && 0 <= j < plan[i].deps.len() ==> (#[trigger] plan[i].deps[j])
            < plan.len()
}

/// The dependency `j` of the step `i` is the first of the plan, in reading
/// order, that is no position of the plan.
pub open spec fn first_out_of_range(plan: Seq<InvocationView>, i: int, j: int) -> bool {
    &&& 0 <= i < plan.len()
    &&& 0 <= j < plan[i].deps.len()
    &&& plan[i].deps[j] >= plan.len()
    &&& forall|j2: int| 0 <= j2 < j ==> (#[trigger] plan[i].deps[j2]) < plan.len()
    &&& forall|i2: int, j2: int|
        0 <= i2 < i && 0 <= j2 < plan[i2].deps.len() ==> (#[trigger] plan[i2].deps[j2])
            < plan.len()
}

/// The targets of the aliases, in order.
pub open spec fn spec_link_targets(links: Seq<(Seq<char>, Seq<char>)>) -> Seq<Seq<char>> {
    Seq::new(links.len(), |i: int| links[i].1)
}

/// What a step provides to the steps that depend on it: its outputs, then
/// the targets of its aliases.
pub open spec fn spec_provided(inv: InvocationView) -> Seq<Seq<char>> {
    inv.spec_outputs() + spec_link_targets(inv.links)
}

/// The paths that the steps at the positions `deps` provide, in order.
pub open spec fn spec_resolve(plan: Seq<InvocationView>, deps: Seq<usize>) -> Seq<Seq<char>>
    decreases deps.len(),
{
    if deps.len() == 0 {
        Seq::empty()
    } else {
        spec_resolve(plan, deps.drop_last()) + spec_provided(plan[deps.last() as int])
    }
}

/// The build file of the step at position `i` of the plan.
pub open spec fn spec_step_file(plan: Seq<InvocationView>, i: int) -> FileModel {
    plan[i].spec_ninja_build(i as nat, spec_resolve(plan, plan[i].deps))
}

/// The build file of the first `n` steps of the plan: the empty file, with
/// the file of each step merged into it in plan order.
pub open spec fn spec_plan_file(plan: Seq<InvocationView>, n: nat) -> FileModel
    decreases n,
{
    if n == 0 {
        spec_empty_file()
    } else {
        spec_merge(spec_plan_file(plan, (n - 1) as nat), spec_step_file(plan, n - 1))
    }
}

impl Invocation {
    /// Whether the record conforms to the schema.
    pub fn is_well_formed(&self) -> (r: bool)
        ensures
            r == self@.well_formed(),
    {
        self.target_kind.len() > 0 && (self.outputs.is_some() || self.is_custom_build())
    }

    /// What this step provides to the steps that depend on it.
    pub fn provided(&self) -> (r: Vec<String>)
        ensures
            strs(r@) == spec_provided(self@),
    {
        let mut all = self.outputs();
        let ghost outputs = strs(all@);
        let mut i: usize = 0;
        assert(spec_link_targets(self@.links).take(0) =~= Seq::<Seq<char>>::empty());
        assert(strs(all@) =~= outputs + spec_link_targets(self@.links).take(0));
        while i < self.links.len()
            invariant
                i <= self.links.len(),
                strs(all@) == outputs + spec_link_targets(self@.links).take(i as int),
            decreases self.links.len() - i,
        {
            let ghost before = strs(all@);
            let ghost target = self.links@[i as int].1@;
            assert(self@.links[i as int] == (self.links@[i as int].0@, target));
            assert(spec_link_targets(self@.links)[i as int] == target);
            all.push(self.links[i].1.clone());
            assert(strs(all@) =~= before.push(target));
            assert(strs(all@) =~= outputs + spec_link_targets(self@.links).take(i + 1));
            i += 1;
        }
        assert(spec_link_targets(self@.links).take(self.links.len() as int) =~= spec_link_targets(
            self@.links,
        ));
        all
    }
}

impl View for BuildPlan {
    type V = Seq<InvocationView>;

    closed spec fn view(&self) -> Seq<InvocationView> {
        views(self.invocations@)
    }
}

impl BuildPlan {
    #[verifier::type_invariant]
    spec fn schema_holds(self) -> bool {
        plan_well_formed(views(self.invocations@))
    }

    /// Makes a plan of the records, in their order. The first record that
    /// does not conform to the schema is reported.
    pub fn new(invocations: Vec<Invocation>) -> (r: Result<BuildPlan, PlanError>)
        ensures
            match r {
                Ok(plan) => {
                    &&& plan@ == views(invocations@)
                    &&& plan_well_formed(plan@)
                    &&& forall|i: int|
                        0 <= i < invocations@.len() ==> (#[trigger] invocations@[i])@.well_formed()
                },
                Err(PlanError::PlanParse { invocation }) => {
                    &&& invocation < invocations@.len()
                    &&& !invocations@[invocation as int]@.well_formed()
                    &&& forall|i: int| 0 <= i < invocation ==> (#[trigger] invocations@[i])@.well_formed()
                },
                Err(_) => false,
            },
    {
        let mut i: usize = 0;
        while i < invocations.len()
            invariant
                i <= invocations.len(),
                forall|k: int| 0 <= k < i ==> (#[trigger] invocations@[k])@.well_formed(),
            decreases invocations.len() - i,
        {
            if !invocations[i].is_well_formed() {
                return Err(PlanError::PlanParse { invocation: i });
            }
            i += 1;
        }
        Ok(BuildPlan { invocations })
    }

    /// The number of steps.
    pub fn len(&self) -> (n: usize)
        ensures
            n == self@.len(),
    {
        self.invocations.len()
    }

    /// The step at `position`.
    pub fn invocation(&self, position: usize) -> (inv: &Invocation)
        requires
            position < self@.len(),
        ensures
            inv@ == self@[position as int],
            inv@.well_formed(),
    {
        proof {
            use_type_invariant(self);
        }
        &self.invocations[position]
    }

    /// Checks that every dependency is a position of the plan; the first one
    /// that is not is reported, with the step that names it.
    pub fn check_indices(&self) -> (r: Result<(), PlanError>)
        ensures
            match r {
                Ok(_) => indices_valid(self@),
                Err(PlanError::InvalidDependencyIndex { invocation, index }) => exists|j: int|
                    first_out_of_range(self@, invocation as int, j) && #[trigger] self@[invocation as int].deps[j]
                        == index,
                Err(_) => false,
            },
    {
        let n = self.invocations.len();
        let mut i: usize = 0;
        while i < n
            invariant
                n == self@.len(),
                i <= n,
                forall|i2: int, j2: int|
                    0 <= i2 < i && 0 <= j2 < self@[i2].deps.len() ==> (#[trigger] self@[i2].deps[j2])
                        < n,
            decreases n - i,
        {
            let deps = &self.invocations[i].deps;
            let mut j: usize = 0;
            while j < deps.len()
                invariant
                    n == self@.len(),
                    i < n,
                    deps@ == self@[i as int].deps,
                    j <= deps.len(),
                    forall|j2: int| 0 <= j2 < j ==> (#[trigger] self@[i as int].deps[j2]) < n,
                    forall|i2: int, j2: int|
                        0 <= i2 < i && 0 <= j2 < self@[i2].deps.len() ==> (
                        #[trigger] self@[i2].deps[j2]) < n,
                decreases deps.len() - j,
            {
                if deps[j] >= n {
                    assert(first_out_of_range(self@, i as int, j as int));
                    return Err(PlanError::InvalidDependencyIndex { invocation: i, index: deps[j] });
                }
                j += 1;
            }
            i += 1;
        }
        Ok(())
    }

    /// The paths that the step at `position` depends on: what each step that
    /// it names provides, in the order in which it names them.
    pub fn resolve(&self, position: usize) -> (r: Vec<String>)
        requires
            position < self@.len(),
            forall|j: int|
                0 <= j < self@[position as int].deps.len() ==> (#[trigger] self@[position as int].deps[j])
                    < self@.len(),
        ensures
            strs(r@) == spec_resolve(self@, self@[position as int].deps),
    {
        let deps = &self.invocations[position].deps;
        let mut all: Vec<String> = Vec::new();
        let mut k: usize = 0;
        assert(deps@.take(0) =~= Seq::<usize>::empty());
        assert(strs(all@) =~= spec_resolve(self@, deps@.take(0)));
        assert(deps@ == self@[position as int].deps);
        assert forall|j: int| 0 <= j < deps@.len() implies (#[trigger] deps@[j]) < self@.len() by {
            assert(self@[position as int].deps[j] < self@.len());
        }
        while k < deps.len()
            invariant
                k <= deps.len(),
                position < self@.len(),
                deps@ == self@[position as int].deps,
                forall|j: int| 0 <= j < deps@.len() ==> (#[trigger] deps@[j]) < self@.len(),
                strs(all@) == spec_resolve(self@, deps@.take(k as int)),
            decreases deps.len() - k,
        {
            let ghost before = strs(all@);
            let ghost front = deps@.take(k + 1);
            assert(front.drop_last() =~= deps@.take(k as int));
            assert(front.last() == deps@[k as int]);
            let mut provided = self.invocations[deps[k]].provided();
            let ghost added = strs(provided@);
            all.append(&mut provided);
            assert(strs(all@) =~= before + added);
            k += 1;
        }
        assert(deps@.take(deps.len() as int) =~= deps@);
        all
    }

    /// Builds the graph of the whole plan.
    ///
    /// The positions are checked first. Then the build file of each step is
    /// merged into one file, in plan order. The result is the file that
    /// [`spec_plan_file`] describes, unless a dependency is no position of
    /// the plan or two different statements claim one output.
    pub fn into_file(self) -> (r: Result<ninja_files_data::File, PlanError>)
        ensures
            match r {
                Ok(f) => {
                    &&& indices_valid(self@)
                    &&& file_view(f) == spec_plan_file(self@, self@.len())
                    &&& spec_plan_file(self@, self@.len()).errors =~= Set::empty()
                },
                Err(PlanError::InvalidDependencyIndex { invocation, index }) => exists|j: int|
                    first_out_of_range(self@, invocation as int, j) && #[trigger] self@[invocation as int].deps[j]
                        == index,
                Err(PlanError::ConflictingOutput { path, first_rule, second_rule }) => {
                    &&& indices_valid(self@)
                    &&& spec_plan_file(self@, self@.len()).errors.contains(
                        ConflictView::Output {
                            key: path_key(path@),
                            first: first_rule@,
                            second: second_rule@,
                        },
                    )
                },
                Err(PlanError::PlanParse { .. }) => false,
            },
    {
        proof {
            use_type_invariant(&self);
        }
        match self.check_indices() {
            Err(e) => {
                return Err(e);
            },
            Ok(_) => {},
        }
        let n = self.invocations.len();
        let mut file = file_new();
        let mut i: usize = 0;
        while i < n
            invariant
                n == self@.len(),
                i <= n,
                indices_valid(self@),
                plan_well_formed(self@),
                file_builder_view(file) == spec_plan_file(self@, i as nat),
            decreases n - i,
        {
            let deps = self.resolve(i);
            assert(self@[i as int].well_formed());
            let step = self.invocations[i].ninja_build(i, deps);
            file = file_merge(file, &step);
            i += 1;
        }
        match file_build(&file) {
            Ok(f) => Ok(f),
            Err(conflicts) => {
                let mut conflicts = conflicts;
                let ghost first = conflicts@[0]@;
                proof {
                    lemma_conflicts_are_between_statements(self@, n as nat);
                    assert(file_builder_view(file).errors.contains(first));
                }
                match conflicts.remove(0) {
                    Conflict::Output { path, first_rule, second_rule } => Err(
                        PlanError::ConflictingOutput { path, first_rule, second_rule },
                    ),
                    _ => {
                        assert(false);
                        vstd::pervasive::unreached()
                    },
                }
            },
        }
    }
}

} // verus!
