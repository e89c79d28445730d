use promptline::init::{init_script, init_script_bash, init_script_fish, init_script_zsh, Shell};

#[test]
fn zsh_script_wraps_the_executable() {
    let script = init_script_zsh("/usr/bin/promptline".to_string());
    assert_eq!(
        script,
        "unsetopt promptsubst\nprecmd() { PS1=$(/usr/bin/promptline --columns=\"$COLUMNS\" --status=\"$pipestatus\" --jobs=\"$(jobs -l | wc -l)\") }\n"
    );
}

#[test]
fn fish_script_wraps_the_executable() {
    let script = init_script_fish("/usr/bin/promptline".to_string());
    assert_eq!(
        script,
        "function fish_prompt\n/usr/bin/promptline --columns=\"$COLUMNS\" --status=\"$pipestatus\" --jobs=(jobs | wc -l)\nend\n"
    );
}

#[test]
fn bash_script_wraps_the_executable() {
    let script = init_script_bash("/usr/bin/promptline".to_string());
    assert_eq!(
        script,
        "PROMPT_COMMAND=\"PS1=\\$(/usr/bin/promptline --columns=\\\"$COLUMNS\\\" --status=\\\"${pipestatus:-0}\\\" --jobs=${jobs -l | wc -l})\""
    );
}

#[test]
fn init_script_dispatches_on_shell() {
    assert_eq!(
        init_script(Shell::Zsh, "p".to_string()),
        init_script_zsh("p".to_string())
    );
    assert_eq!(
        init_script(Shell::Fish, "p".to_string()),
        init_script_fish("p".to_string())
    );
    assert_eq!(
        init_script(Shell::Bash, "p".to_string()),
        init_script_bash("p".to_string())
    );
}
