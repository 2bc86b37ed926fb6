//! Shell integration: the static snippets the `init` command prints, one
//! per supported shell, each defining an alias that jumps to the outermost
//! repository root, and the failures it reports for the other shells.

use vstd::prelude::*;

verus! {

use vstd::string::StringExecFns;

/// The shells the `init` command recognizes.
#[derive(Clone, Copy, PartialEq, Eq, Structural, Debug)]
pub enum Shell {
    Fish,
    Bash,
    Zsh,
    Nushell,
    Elvish,
}

/// Why `init` reported failure instead of printing a snippet.
#[derive(Clone, Copy, PartialEq, Eq, Structural, Debug)]
pub enum InitError {
    /// The shell is recognized but no snippet is defined for it yet.
    Unimplemented,
    /// The name denotes no recognized shell.
    Unsupported,
}

impl InitError {
    /// The fixed user-visible message for this failure.
    pub open spec fn spec_message(self) -> Seq<char> {
        match self {
            InitError::Unimplemented => "Not yet implemented"@,
            InitError::Unsupported => "Unsupported shell specified"@,
        }
    }

    pub fn message(&self) -> (r: String)
        ensures
            r@ == self.spec_message(),
    {
        match self {
            InitError::Unimplemented => String::from_str("Not yet implemented"),
            InitError::Unsupported => String::from_str("Unsupported shell specified"),
        }
    }
}

/// The shell a name denotes, if any.
pub open spec fn spec_shell_of(name: Seq<char>) -> Option<Shell> {
    if name == "fish"@ {
        Some(Shell::Fish)
    } else if name == "bash"@ {
        Some(Shell::Bash)
    } else if name == "zsh"@ {
        Some(Shell::Zsh)
    } else if name == "nushell"@ {
        Some(Shell::Nushell)
    } else if name == "elvish"@ {
        Some(Shell::Elvish)
    } else {
        None
    }
}

pub fn parse_shell(name: &str) -> (r: Option<Shell>)
    ensures
        r == spec_shell_of(name@),
{
    let n = String::from_str(name);
    if n == String::from_str("fish") {
        Some(Shell::Fish)
    } else if n == String::from_str("bash") {
        Some(Shell::Bash)
    } else if n == String::from_str("zsh") {
        Some(Shell::Zsh)
    } else if n == String::from_str("nushell") {
        Some(Shell::Nushell)
    } else if n == String::from_str("elvish") {
        Some(Shell::Elvish)
    } else {
        None
    }
}

/// The fish snippet: an alias, under the chosen name, that changes
/// directory to the outermost repository root.
pub open spec fn fish_snippet_spec(cmd: Seq<char>) -> Seq<char> {
    "alias "@ + cmd + "=\"cd (gitroot find --match last)\""@
}

/// The nushell snippet: an environment-keeping definition doing the same.
pub open spec fn nushell_snippet_spec(cmd: Seq<char>) -> Seq<char> {
    "def --env "@ + cmd + " [] { cd (gitroot find --match last) }"@
}

pub fn fish_snippet(cmd: &str) -> (r: String)
    ensures
        r@ == fish_snippet_spec(cmd@),
{
    let mut s = String::from_str("alias ");
    s.append(cmd);
    s.append("=\"cd (gitroot find --match last)\"");
    s
}

pub fn nushell_snippet(cmd: &str) -> (r: String)
    ensures
        r@ == nushell_snippet_spec(cmd@),
{
    let mut s = String::from_str("def --env ");
    s.append(cmd);
    s.append(" [] { cd (gitroot find --match last) }");
    s
}

/// What `init` yields for a recognized shell: the snippet for the
/// implemented shells, failure for the rest.
pub open spec fn spec_shell_init(shell: Shell, cmd: Seq<char>) -> Result<Seq<char>, InitError> {
    match shell {
        Shell::Fish => Ok(fish_snippet_spec(cmd)),
        Shell::Nushell => Ok(nushell_snippet_spec(cmd)),
        Shell::Bash | Shell::Zsh | Shell::Elvish => Err(InitError::Unimplemented),
    }
}

pub fn shell_init(shell: Shell, cmd: &str) -> (r: Result<String, InitError>)
    ensures
        r is Ok == spec_shell_init(shell, cmd@) is Ok,
        r is Ok ==> r->Ok_0@ == spec_shell_init(shell, cmd@)->Ok_0,
        r is Err ==> r->Err_0 == spec_shell_init(shell, cmd@)->Err_0,
{
    match shell {
        Shell::Fish => Ok(fish_snippet(cmd)),
        Shell::Nushell => Ok(nushell_snippet(cmd)),
        Shell::Bash | Shell::Zsh | Shell::Elvish => Err(InitError::Unimplemented),
    }
}

/// What `init` prints or reports for a shell name as given on the command
/// line: the snippet for an implemented shell, `Unimplemented` for a
/// recognized shell with none, `Unsupported` for any other name.
pub open spec fn spec_init_output(name: Seq<char>, cmd: Seq<char>) -> Result<
    Seq<char>,
    InitError,
> {
    match spec_shell_of(name) {
        Some(shell) => spec_shell_init(shell, cmd),
        None => Err(InitError::Unsupported),
    }
}

pub fn init_output(name: &str, cmd: &str) -> (r: Result<String, InitError>)
    ensures
        r is Ok == spec_init_output(name@, cmd@) is Ok,
        r is Ok ==> r->Ok_0@ == spec_init_output(name@, cmd@)->Ok_0,
        r is Err ==> r->Err_0 == spec_init_output(name@, cmd@)->Err_0,
{
    match parse_shell(name) {
        Some(shell) => shell_init(shell, cmd),
        None => Err(InitError::Unsupported),
    }
}

} // verus!
