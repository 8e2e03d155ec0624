use vertex_ai::bridge::{map_execution_result, AgentExecutionStatus};
use vertex_ai::developer::{CommandExecution, CommandStatus, DeveloperMode, DeveloperTask, DeveloperTaskState};

fn command(executable: &str, args: &[&str], stdout: &str, exit_code: Option<i32>) -> CommandExecution {
    CommandExecution {
        id: 99,
        executable: executable.to_owned(),
        args: args.iter().map(|a| (*a).to_owned()).collect(),
        working_directory: ".".to_owned(),
        process_id: None,
        started_at: 1_000,
        finished_at: Some(1_250),
        timeout_ms: 1000,
        exit_code,
        stdout: stdout.to_owned(),
        stderr: String::new(),
        status: CommandStatus::Completed,
    }
}

#[test]
fn deterministic_mapping_never_invents_command_facts() {
    let mut task = DeveloperTask::new(7, "test".to_owned(), DeveloperMode::Auto, "test/model".to_owned()).unwrap();
    task.state = DeveloperTaskState::Completed;
    task.commands.push(command(
        "cargo",
        &["test"],
        "test result: ok. 2 passed; 0 failed; 1 ignored",
        Some(0),
    ));
    let result = map_execution_result(&task);
    assert_eq!(result.test_results.len(), 1);
    assert_eq!(result.test_results[0].result.passed, 2);
    assert_eq!(result.test_results[0].result.failed, 0);
    assert_eq!(result.test_results[0].command.exit_code, Some(0));
}

#[test]
fn build_commands_are_reported_with_their_line_and_duration() {
    let mut task = DeveloperTask::new(7, "build".to_owned(), DeveloperMode::Auto, "m".to_owned()).unwrap();
    task.state = DeveloperTaskState::Failed;
    task.commands.push(command("cargo", &["build", "--release"], "", Some(101)));
    let result = map_execution_result(&task);
    assert_eq!(result.status, AgentExecutionStatus::Failed);
    assert!(result.test_results.is_empty());
    assert_eq!(result.build_results.len(), 1);
    assert_eq!(result.build_results[0].command, "cargo build --release");
    assert_eq!(result.build_results[0].duration_ms, 250);
    assert_eq!(result.build_results[0].exit_code, Some(101));
}
