use gitroot::shell::{fish_snippet, init_output, nushell_snippet, parse_shell, shell_init, InitError, Shell};

#[test]
fn fish_snippet_exact() {
    assert_eq!(fish_snippet("gr"), "alias gr=\"cd (gitroot find --match last)\"");
}

#[test]
fn nushell_snippet_exact() {
    assert_eq!(nushell_snippet("gr"), "def --env gr [] { cd (gitroot find --match last) }");
}

#[test]
fn init_fish_with_cmd_gr() {
    assert_eq!(
        init_output("fish", "gr"),
        Ok("alias gr=\"cd (gitroot find --match last)\"".to_string())
    );
}

#[test]
fn init_nushell_with_cmd_gr() {
    assert_eq!(
        init_output("nushell", "gr"),
        Ok("def --env gr [] { cd (gitroot find --match last) }".to_string())
    );
}

#[test]
fn snippets_honor_the_chosen_alias() {
    assert_eq!(fish_snippet("root"), "alias root=\"cd (gitroot find --match last)\"");
    assert_eq!(
        init_output("nushell", "up"),
        Ok("def --env up [] { cd (gitroot find --match last) }".to_string())
    );
}

#[test]
fn init_bash_not_yet_implemented() {
    let r = init_output("bash", "gr");
    assert_eq!(r, Err(InitError::Unimplemented));
    assert_eq!(r.unwrap_err().message(), "Not yet implemented");
}

#[test]
fn init_zsh_and_elvish_not_yet_implemented() {
    assert_eq!(init_output("zsh", "gr"), Err(InitError::Unimplemented));
    assert_eq!(init_output("elvish", "gr"), Err(InitError::Unimplemented));
}

#[test]
fn init_unknown_shell_unsupported() {
    let r = init_output("powershell", "gr");
    assert_eq!(r, Err(InitError::Unsupported));
    assert_eq!(r.unwrap_err().message(), "Unsupported shell specified");
}

#[test]
fn shell_parsing() {
    assert_eq!(parse_shell("fish"), Some(Shell::Fish));
    assert_eq!(parse_shell("bash"), Some(Shell::Bash));
    assert_eq!(parse_shell("zsh"), Some(Shell::Zsh));
    assert_eq!(parse_shell("nushell"), Some(Shell::Nushell));
    assert_eq!(parse_shell("elvish"), Some(Shell::Elvish));
    assert_eq!(parse_shell("Fish"), None);
    assert_eq!(parse_shell(""), None);
}

#[test]
fn shell_init_by_variant() {
    assert_eq!(
        shell_init(Shell::Fish, "g"),
        Ok("alias g=\"cd (gitroot find --match last)\"".to_string())
    );
    assert_eq!(
        shell_init(Shell::Nushell, "g"),
        Ok("def --env g [] { cd (gitroot find --match last) }".to_string())
    );
    assert_eq!(shell_init(Shell::Bash, "g"), Err(InitError::Unimplemented));
    assert_eq!(shell_init(Shell::Zsh, "g"), Err(InitError::Unimplemented));
    assert_eq!(shell_init(Shell::Elvish, "g"), Err(InitError::Unimplemented));
}
