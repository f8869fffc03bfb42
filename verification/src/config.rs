//! The configuration: commands that the user binds to keys.

use crate::model::RepoCommit;
use crate::text::texts;
use crate::utils::{arguments_for_commit, command_arguments};
use vstd::prelude::*;

verus! {

/// The configuration of the program.
#[derive(Debug, PartialEq, Eq)]
pub struct Config {
    pub custom_command: Vec<CustomCommand>,
}

/// A command that runs when a key is pressed. In its arguments `{}` stands
/// for the id of the commit that is selected.
#[derive(Debug, PartialEq, Eq)]
pub struct CustomCommand {
    pub key: char,
    pub executable: String,
    pub args: Option<String>,
}

impl Config {
    /// A configuration without commands.
    pub fn new() -> (config: Config)
        ensures
            config.custom_command@.len() == 0,
    {
        Config { custom_command: Vec::new() }
    }
}

impl CustomCommand {
    /// The command that runs `executable` with the arguments `args` when
    /// `key` is pressed.
    pub fn new(key: char, executable: String, args: Option<String>) -> (command: CustomCommand)
        ensures
            command.key == key,
            command.executable == executable,
            command.args == args,
    {
        CustomCommand { key, executable, args }
    }

    /// The text of the arguments; empty where the command has none.
    pub open spec fn args_text(self) -> Seq<char> {
        match self.args {
            Some(args) => args@,
            None => Seq::empty(),
        }
    }

    /// The arguments with which the command is run on the commit.
    pub fn arguments_for(&self, commit: &RepoCommit) -> (arguments: Vec<String>)
        ensures
            texts(arguments@) == command_arguments(self.args_text(), commit.commit_id@),
    {
        proof {
            reveal_strlit("");
            assert(""@ =~= Seq::<char>::empty());
        }
        match &self.args {
            Some(args) => arguments_for_commit(args.as_str(), commit),
            None => arguments_for_commit("", commit),
        }
    }
}

impl Clone for CustomCommand {
    fn clone(&self) -> (copy: CustomCommand)
        ensures
            copy == *self,
    {
        CustomCommand {
            key: self.key,
            executable: self.executable.clone(),
            args: match &self.args {
                Some(args) => Some(args.clone()),
                None => None,
            },
        }
    }
}

/// The configuration that is written where the user has none: `i` opens
/// `gitk` at the commit, `d` shows the commit in a terminal of its own.
pub const DEFAULT_CONFIG: &'static str = r#"
# Custom command section:
#
# You can map keys to custom commands. These commands are
# executed with disconnected stdin/stdout pipes (to avoid
# interference with oper's UI). If you want to execute
# a shell command, wrap the command into a new terminal process.
# The args field allows substitution of {} with the ID of the
# currently selected commit.

# Start gitk whenever 'i' is pressed, the current selected commit
# will be selected in gitk then.
[[custom_command]]
key = "i"
executable = "gitk"
args = "--select-commit={}"

# Execute git show in a seperate terminal window
[[custom_command]]
key = "d"
executable = "gnome-terminal"
args = "-- git show {}"
"#;

} // verus!
