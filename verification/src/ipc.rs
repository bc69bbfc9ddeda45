//! The command-line client's requests: what it may ask for, how a command
//! it names is found, and what the launcher does about each request.

use vstd::prelude::*;

use crate::chars::same_str;
use crate::state::StateModel;
use crate::strs::{split, split_from};

verus! {

/// What the client asks for.
#[derive(Clone, Copy, Debug, PartialEq, Eq, Structural)]
pub enum TopLevelCommand {
    Toggle,
    Show,
    Hide,
    Quit,
    Command,
    Pipe,
}

/// The name a request is given on the command line.
pub open spec fn command_name_spec(c: TopLevelCommand) -> Seq<char> {
    match c {
        TopLevelCommand::Toggle => "toggle"@,
        TopLevelCommand::Show => "show"@,
        TopLevelCommand::Hide => "hide"@,
        TopLevelCommand::Quit => "quit"@,
        TopLevelCommand::Command => "command"@,
        TopLevelCommand::Pipe => "pipe"@,
    }
}

impl TopLevelCommand {
    /// The request's name on the command line.
    pub fn name(&self) -> (r: String)
        ensures
            r@ == command_name_spec(*self),
    {
        match self {
            TopLevelCommand::Toggle => "toggle".to_string(),
            TopLevelCommand::Show => "show".to_string(),
            TopLevelCommand::Hide => "hide".to_string(),
            TopLevelCommand::Quit => "quit".to_string(),
            TopLevelCommand::Command => "command".to_string(),
            TopLevelCommand::Pipe => "pipe".to_string(),
        }
    }
}

/// A request: what to do, and the command to run where that is asked.
#[derive(Debug)]
pub struct CommandPayload {
    pub action: TopLevelCommand,
    pub command: Option<String>,
}

/// The name a command is asked for by: the third `::`-separated part of its
/// key.
pub open spec fn key_name_spec(key: Seq<char>) -> Seq<char> {
    split_from(key, "::"@, 0)[2]
}

/// A key has the three parts a command's name is read from.
pub open spec fn is_command_key(key: Seq<char>) -> bool {
    split_from(key, "::"@, 0).len() >= 3
}

/// The name a command with key `key` is asked for by.
pub fn key_name(key: &str) -> (r: String)
    requires
        is_command_key(key@),
    ensures
        r@ == key_name_spec(key@),
{
    proof {
        reveal_strlit("::");
    }
    let parts = split(key, "::");
    proof {
        assert(parts@.map_values(|p: String| p@).len() == parts@.len());
        assert(parts@.map_values(|p: String| p@)[2] == parts@[2]@);
    }
    parts[2].clone()
}

/// The names of the commands a client may ask for, key by key.
pub fn command_names(keys: &Vec<String>) -> (r: Vec<String>)
    requires
        forall|i: int| 0 <= i < keys@.len() ==> is_command_key(#[trigger] keys@[i]@),
    ensures
        r@.len() == keys@.len(),
        forall|i: int| 0 <= i < r@.len() ==> (#[trigger] r@[i])@ == key_name_spec(keys@[i]@),
{
    let mut r: Vec<String> = Vec::new();
    let mut i: usize = 0;
    while i < keys.len()
        invariant
            i <= keys@.len(),
            forall|i: int| 0 <= i < keys@.len() ==> is_command_key(#[trigger] keys@[i]@),
            r@.len() == i,
            forall|j: int| 0 <= j < i ==> (#[trigger] r@[j])@ == key_name_spec(keys@[j]@),
        decreases keys.len() - i,
    {
        r.push(key_name(keys[i].as_str()));
        i = i + 1;
    }
    r
}

/// What the launcher does about a request.
#[derive(Clone, Copy, Debug, PartialEq, Eq, Structural)]
pub enum IpcOutcome {
    /// Show the window if hidden, else hide it.
    Toggle,
    Show,
    Hide,
    Quit,
    /// Go back to the first view, run the command at this index, and show
    /// the window.
    Run(usize),
    /// Nothing.
    Nothing,
}

/// Why a request is refused.
#[derive(Clone, Copy, Debug, PartialEq, Eq, Structural)]
pub enum IpcError {
    /// A command was asked for without a name.
    NoCommand,
    /// No command has that name.
    NotFound,
}

/// The first command whose key gives `name`, if any.
pub open spec fn found_command(keys: Seq<Seq<char>>, name: Seq<char>) -> Option<int>
    decreases keys.len(),
{
    if keys.len() == 0 {
        None
    } else {
        match found_command(keys.drop_last(), name) {
            Some(i) => Some(i),
            None => if key_name_spec(keys.last()) == name {
                Some(keys.len() - 1)
            } else {
                None
            },
        }
    }
}

/// What the launcher does about `payload`: the window requests directly;
/// for a command, the first command named so, which is run unless its
/// view has the focus already, in which case the window is toggled.
pub open spec fn decide_spec(
    payload: CommandPayload,
    keys: Seq<Seq<char>>,
    ids: Seq<Seq<char>>,
    state: StateModel,
) -> Result<IpcOutcome, IpcError> {
    match payload.action {
        TopLevelCommand::Toggle => Ok(IpcOutcome::Toggle),
        TopLevelCommand::Show => Ok(IpcOutcome::Show),
        TopLevelCommand::Hide => Ok(IpcOutcome::Hide),
        TopLevelCommand::Quit => Ok(IpcOutcome::Quit),
        TopLevelCommand::Pipe => Ok(IpcOutcome::Nothing),
        TopLevelCommand::Command => match payload.command {
            None => Err(IpcError::NoCommand),
            Some(c) => match found_command(keys, c@) {
                None => Err(IpcError::NotFound),
                Some(k) => {
                    let stack = state.inner.stack@;
                    if stack.len() > 0 && stack.last().id@ == ids[k] {
                        Ok(IpcOutcome::Toggle)
                    } else {
                        Ok(IpcOutcome::Run(k as usize))
                    }
                },
            },
        },
    }
}

/// What the launcher does about a request, given the commands' keys and
/// ids (`keys[i]` and `ids[i]` belong to one command) and the view stack.
pub fn decide(payload: &CommandPayload, keys: &Vec<String>, ids: &Vec<String>, state: &StateModel) -> (r: Result<
    IpcOutcome,
    IpcError,
>)
    requires
        keys@.len() == ids@.len(),
        forall|i: int| 0 <= i < keys@.len() ==> is_command_key(#[trigger] keys@[i]@),
    ensures
        r == decide_spec(*payload, keys@.map_values(|k: String| k@), ids@.map_values(|k: String| k@), *state),
{
    match payload.action {
        TopLevelCommand::Toggle => Ok(IpcOutcome::Toggle),
        TopLevelCommand::Show => Ok(IpcOutcome::Show),
        TopLevelCommand::Hide => Ok(IpcOutcome::Hide),
        TopLevelCommand::Quit => Ok(IpcOutcome::Quit),
        TopLevelCommand::Pipe => Ok(IpcOutcome::Nothing),
        TopLevelCommand::Command => match &payload.command {
            None => Err(IpcError::NoCommand),
            Some(c) => {
                let ghost kv = keys@.map_values(|k: String| k@);
                let mut i: usize = 0;
                proof {
                    assert(kv.take(0) =~= Seq::<Seq<char>>::empty());
                }
                while i < keys.len()
                    invariant
                        i <= keys@.len(),
                        keys@.len() == ids@.len(),
                        payload.action == TopLevelCommand::Command,
                        payload.command == Some(*c),
                        kv == keys@.map_values(|k: String| k@),
                        forall|i: int| 0 <= i < keys@.len() ==> is_command_key(#[trigger] keys@[i]@),
                        found_command(kv.take(i as int), c@) is None,
                    decreases keys.len() - i,
                {
                    let name = key_name(keys[i].as_str());
                    proof {
                        assert(kv.take(i + 1).drop_last() =~= kv.take(i as int));
                        assert(kv.take(i + 1).last() == keys@[i as int]@);
                    }
                    if same_str(name.as_str(), c.as_str()) {
                        proof {
                            lemma_found_prefix(kv, c@, i + 1);
                            assert(ids@.map_values(|k: String| k@)[i as int] == ids@[i as int]@);
                        }
                        if state.is_active(ids[i].as_str()) {
                            return Ok(IpcOutcome::Toggle);
                        } else {
                            return Ok(IpcOutcome::Run(i));
                        }
                    }
                    i = i + 1;
                }
                proof {
                    assert(kv.take(i as int) =~= kv);
                }
                Err(IpcError::NotFound)
            },
        },
    }
}

/// A command found in a prefix is the one found in the whole.
proof fn lemma_found_prefix(keys: Seq<Seq<char>>, name: Seq<char>, n: int)
    requires
        0 <= n <= keys.len(),
        found_command(keys.take(n), name) is Some,
    ensures
        found_command(keys, name) == found_command(keys.take(n), name),
    decreases keys.len() - n,
{
    if n < keys.len() {
        assert(keys.take(n + 1).drop_last() =~= keys.take(n));
        lemma_found_prefix(keys, name, n + 1);
    } else {
        assert(keys.take(n) =~= keys);
    }
}

} // verus!
