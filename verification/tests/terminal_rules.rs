use vertex_ai::terminal::check_command;
use vertex_ai::developer::DeveloperMode;
use vertex_ai::terminal::validate_command;

#[test]
fn dangerous_and_inline_commands_are_rejected() {
    assert!(validate_command(
        DeveloperMode::Auto,
        "git",
        &vec!["reset".to_owned(), "--hard".to_owned()],
        false
    )
    .is_err());
    assert!(validate_command(
        DeveloperMode::Auto,
        "python",
        &vec!["-c".to_owned(), "print('x')".to_owned()],
        false
    )
    .is_err());
    assert!(validate_command(DeveloperMode::Auto, "cargo", &vec!["test".to_owned()], false).is_ok());
}

#[test]
fn an_executable_of_several_components_is_refused() {
    let args: Vec<String> = vec!["status".to_owned()];
    assert!(check_command(DeveloperMode::Execute, "git", 1, &args, false).is_ok());
    let refused = check_command(DeveloperMode::Execute, "git", 2, &args, false).unwrap_err();
    assert_eq!(refused.to_text(), vertex_ai::terminal::validate_command(DeveloperMode::Execute, "/usr/bin/git", &args, false).unwrap_err().to_text());
}
