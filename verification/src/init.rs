//! Shell-integration scripts: the statement a shell evaluates so that every
//! prompt invokes this program with the terminal's facts.

use vstd::prelude::*;
use vstd::string::StringExecFns;

verus! {

/// The shells an integration script can be produced for.
#[derive(Clone, Copy, Debug)]
pub enum Shell {
    Zsh,
    Bash,
    Fish,
}

/// The zsh hook: sets PS1 from this program before every prompt.
pub fn init_script_zsh(exe_path: String) -> (r: String)
    ensures
        r@ == "unsetopt promptsubst\nprecmd() { PS1=$("@ + exe_path@
            + " --columns=\"$COLUMNS\" --status=\"$pipestatus\" --jobs=\"$(jobs -l | wc -l)\") }\n"@,
{
    proof {
        reveal_strlit("unsetopt promptsubst\nprecmd() { PS1=$(");
        reveal_strlit(
            " --columns=\"$COLUMNS\" --status=\"$pipestatus\" --jobs=\"$(jobs -l | wc -l)\") }\n",
        );
    }
    let mut script = String::from_str("unsetopt promptsubst\nprecmd() { PS1=$(");
    script.append(exe_path.as_str());
    script.append(
        " --columns=\"$COLUMNS\" --status=\"$pipestatus\" --jobs=\"$(jobs -l | wc -l)\") }\n",
    );
    script
}

/// The fish hook: a fish_prompt function that runs this program.
pub fn init_script_fish(exe_path: String) -> (r: String)
    ensures
        r@ == "function fish_prompt\n"@ + exe_path@
            + " --columns=\"$COLUMNS\" --status=\"$pipestatus\" --jobs=(jobs | wc -l)\nend\n"@,
{
    proof {
        reveal_strlit("function fish_prompt\n");
        reveal_strlit(
            " --columns=\"$COLUMNS\" --status=\"$pipestatus\" --jobs=(jobs | wc -l)\nend\n",
        );
    }
    let mut script = String::from_str("function fish_prompt\n");
    script.append(exe_path.as_str());
    script.append(" --columns=\"$COLUMNS\" --status=\"$pipestatus\" --jobs=(jobs | wc -l)\nend\n");
    script
}

/// The bash hook: sets PS1 through PROMPT_COMMAND.
pub fn init_script_bash(exe_path: String) -> (r: String)
    ensures
        r@ == "PROMPT_COMMAND=\"PS1=\\$("@ + exe_path@
            + " --columns=\\\"$COLUMNS\\\" --status=\\\"${pipestatus:-0}\\\" --jobs=${jobs -l | wc -l})\""@,
{
    proof {
        reveal_strlit("PROMPT_COMMAND=\"PS1=\\$(");
        reveal_strlit(
            " --columns=\\\"$COLUMNS\\\" --status=\\\"${pipestatus:-0}\\\" --jobs=${jobs -l | wc -l})\"",
        );
    }
    let mut script = String::from_str("PROMPT_COMMAND=\"PS1=\\$(");
    script.append(exe_path.as_str());
    script.append(
        " --columns=\\\"$COLUMNS\\\" --status=\\\"${pipestatus:-0}\\\" --jobs=${jobs -l | wc -l})\"",
    );
    script
}

/// The integration script for a shell, given this program's resolved path.
pub fn init_script(shell: Shell, exe_path: String) -> (r: String)
    ensures
        r@ == match shell {
            Shell::Zsh => "unsetopt promptsubst\nprecmd() { PS1=$("@ + exe_path@
                + " --columns=\"$COLUMNS\" --status=\"$pipestatus\" --jobs=\"$(jobs -l | wc -l)\") }\n"@,
            Shell::Fish => "function fish_prompt\n"@ + exe_path@
                + " --columns=\"$COLUMNS\" --status=\"$pipestatus\" --jobs=(jobs | wc -l)\nend\n"@,
            Shell::Bash => "PROMPT_COMMAND=\"PS1=\\$("@ + exe_path@
                + " --columns=\\\"$COLUMNS\\\" --status=\\\"${pipestatus:-0}\\\" --jobs=${jobs -l | wc -l})\""@,
        },
{
    match shell {
        Shell::Zsh => init_script_zsh(exe_path),
        Shell::Fish => init_script_fish(exe_path),
        Shell::Bash => init_script_bash(exe_path),
    }
}

} // verus!
