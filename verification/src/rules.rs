//! The rules of the build graph: the two shared ones, and the rule that
//! runs one invocation.

use vstd::prelude::*;
use crate::model::{spec_command, spec_command_arg, spec_rule, CommandView, RuleView};
use crate::ninja::{command_arg, command_built, command_new, rule_built, rule_new};
use crate::plan::{Invocation, InvocationView};
use crate::quote::{escape, shell_escaped};
use crate::text::{has_prefix, same_text};

verus! {

/// The identifier of the rule that makes an alias of an output.
pub const LINK_RULE_ID: &'static str = "link";

/// The identifier of the rule that makes sure a directory exists.
pub const ENSURE_DIR_ALL_RULE_ID: &'static str = "ensure_dir_all";

/// The command `process` with the arguments `args`.
pub open spec fn spec_command_line(process: Seq<char>, args: Seq<Seq<char>>) -> CommandView {
    CommandView { process, args, env: Map::empty() }
}

/// The rule that hard-links its input to its output: `ln -f $in $out`.
pub open spec fn spec_link_rule() -> RuleView {
    spec_rule(spec_command_line("ln"@, seq!["-f"@, "$in"@, "$out"@]))
}

/// The rule that creates the directory of its output and touches the
/// output: `mkdir -p $$(dirname $out) && touch $out`.
pub open spec fn spec_ensure_dir_all_rule() -> RuleView {
    spec_rule(
        spec_command_line("mkdir"@, seq!["-p"@, "$$(dirname $out)"@, "&&"@, "touch"@, "$out"@]),
    )
}

/// Whether `arg` asks the compiler for machine-readable diagnostics.
pub open spec fn spec_is_json_flag(arg: Seq<char>) -> bool {
    arg == "--error-format=json"@ || "--json="@.is_prefix_of(arg)
}

/// The arguments of a step as the command gives them: those that ask for
/// machine-readable diagnostics are dropped, each other one is quoted for
/// the shell.
pub open spec fn spec_escaped_args(args: Seq<Seq<char>>) -> Seq<Seq<char>>
    decreases args.len(),
{
    if args.len() == 0 {
        Seq::empty()
    } else {
        let front = spec_escaped_args(args.drop_last());
        if spec_is_json_flag(args.last()) {
            front
        } else {
            front.push(shell_escaped(args.last()))
        }
    }
}

/// One assignment word of the shell: the name, `=`, and the quoted value.
pub open spec fn spec_env_word(name: Seq<char>, value: Seq<char>) -> Seq<char> {
    name + "="@ + shell_escaped(value)
}

/// The assignment words of an environment, in its order.
pub open spec fn spec_env_words(env: Seq<(Seq<char>, Seq<char>)>) -> Seq<Seq<char>> {
    Seq::new(env.len(), |i: int| spec_env_word(env[i].0, env[i].1))
}

/// What a custom build step runs after its program: back to the directory
/// the command started in, then touch the marker file.
pub open spec fn spec_touch_steps(marker: Seq<char>) -> Seq<Seq<char>> {
    seq!["&&"@, "cd -"@, "&&"@, "touch"@, marker]
}

impl InvocationView {
    /// The arguments of `cd`, the process of the command of this step: the
    /// working directory, then, after `&&`, the environment, the program,
    /// its arguments, and the flag for human-readable diagnostics; for a
    /// custom build step, the steps that touch its marker follow.
    pub open spec fn spec_command_args(self) -> Seq<Seq<char>> {
        seq![self.cwd, "&&"@] + spec_env_words(self.env) + seq![self.program] + spec_escaped_args(
            self.args,
        ) + seq!["--error-format=human"@] + if self.is_custom_build() {
            spec_touch_steps(self.spec_touch_file())
        } else {
            Seq::empty()
        }
    }

    /// The rule that runs this step.
    pub open spec fn spec_rule(self) -> RuleView {
        spec_rule(spec_command_line("cd"@, self.spec_command_args()))
    }
}

/// The rule, shared by all invocations, that makes an alias of an output.
pub fn link_rule() -> (r: ninja_files_data::RuleBuilder)
    ensures
        rule_built(r) == Some(spec_link_rule()),
{
    let command = command_new("ln");
    let command = command_arg(command, "-f");
    let command = command_arg(command, "$in");
    let command = command_arg(command, "$out");
    assert(command_built(command)->0.args =~= seq!["-f"@, "$in"@, "$out"@]);
    rule_new(command)
}

/// The rule, shared by all invocations, that makes sure the directory of a
/// marker exists and updates the marker.
pub fn ensure_dir_all_rule() -> (r: ninja_files_data::RuleBuilder)
    ensures
        rule_built(r) == Some(spec_ensure_dir_all_rule()),
{
    let command = command_new("mkdir");
    let command = command_arg(command, "-p");
    let command = command_arg(command, "$$(dirname $out)");
    let command = command_arg(command, "&&");
    let command = command_arg(command, "touch");
    let command = command_arg(command, "$out");
    assert(command_built(command)->0.args =~= seq![
        "-p"@,
        "$$(dirname $out)"@,
        "&&"@,
        "touch"@,
        "$out"@,
    ]);
    rule_new(command)
}

/// Whether `arg` asks the compiler for machine-readable diagnostics.
pub fn is_json_flag(arg: &str) -> (r: bool)
    ensures
        r == spec_is_json_flag(arg@),
{
    same_text(arg, "--error-format=json") || has_prefix(arg, "--json=")
}

impl Invocation {
    /// The rule that runs this step: from its working directory, with its
    /// environment, the program and its quoted arguments, asking for
    /// human-readable diagnostics. A custom build step touches its marker
    /// file once the program has succeeded.
    pub fn rule(&self) -> (r: ninja_files_data::RuleBuilder)
        ensures
            rule_built(r) == Some(self@.spec_rule()),
    {
        let mut command = command_new("cd");
        command = command_arg(command, self.cwd.as_str());
        command = command_arg(command, "&&");
        let ghost head = seq![self@.cwd, "&&"@];
        assert(command_built(command)->0.args =~= head);
        let mut i: usize = 0;
        while i < self.env.len()
            invariant
                i <= self.env.len(),
                command_built(command) == Some(
                    spec_command_line("cd"@, head + spec_env_words(self@.env).take(i as int)),
                ),
            decreases self.env.len() - i,
        {
            let word = String::from_str(self.env[i].0.as_str());
            let word = word.concat("=");
            let word = word.concat(escape(self.env[i].1.as_str()).as_str());
            assert(word@ == spec_env_words(self@.env)[i as int]);
            command = command_arg(command, word.as_str());
            assert(command_built(command)->0.args =~= head + spec_env_words(self@.env).take(i + 1));
            i += 1;
        }
        assert(spec_env_words(self@.env).take(self.env.len() as int) =~= spec_env_words(self@.env));
        command = command_arg(command, self.program.as_str());
        let ghost head = head + spec_env_words(self@.env) + seq![self@.program];
        assert(command_built(command)->0.args =~= head);
        let mut j: usize = 0;
        assert(self@.args.take(0) =~= Seq::<Seq<char>>::empty());
        assert(command_built(command)->0.args =~= head + spec_escaped_args(self@.args.take(0)));
        while j < self.args.len()
            invariant
                j <= self.args.len(),
                command_built(command) == Some(
                    spec_command_line("cd"@, head + spec_escaped_args(self@.args.take(j as int))),
                ),
            decreases self.args.len() - j,
        {
            let ghost front = self@.args.take(j + 1);
            assert(front.drop_last() =~= self@.args.take(j as int));
            assert(front.last() == self.args@[j as int]@);
            if !is_json_flag(self.args[j].as_str()) {
                let word = escape(self.args[j].as_str());
                command = command_arg(command, word.as_str());
                assert(command_built(command)->0.args =~= head + spec_escaped_args(front));
            }
            j += 1;
        }
        assert(self@.args.take(self.args.len() as int) =~= self@.args);
        command = command_arg(command, "--error-format=human");
        let ghost head = head + spec_escaped_args(self@.args) + seq!["--error-format=human"@];
        assert(command_built(command)->0.args =~= head);
        if self.is_custom_build() {
            let marker = crate::path::join(self.cwd.as_str(), ".ninja_touch");
            command = command_arg(command, "&&");
            command = command_arg(command, "cd -");
            command = command_arg(command, "&&");
            command = command_arg(command, "touch");
            command = command_arg(command, marker.as_str());
            assert(command_built(command)->0.args =~= self@.spec_command_args());
        } else {
            assert(command_built(command)->0.args =~= self@.spec_command_args());
        }
        rule_new(command)
    }
}

} // verus!
