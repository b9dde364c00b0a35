use macro_commands::custom::{CustomTypableCommand, CustomTypeableCommands};
use macro_commands::executor::{
    first_step, inner_command, next_step, resolve, CommandError, Resolution, Step,
};
use macro_commands::variables::{
    expand, Expansion, ExpansionContext, ExpansionError, ShellRequest,
};

fn command(name: &str, steps: &[&str]) -> CustomTypableCommand {
    CustomTypableCommand {
        name: name.to_string(),
        desc: None,
        commands: steps.iter().map(|s| s.to_string()).collect(),
        accepts: None,
        completer: None,
    }
}

fn drive(command: &CustomTypableCommand, fail_at: Option<usize>) -> (Vec<String>, Result<(), CommandError>) {
    let mut ran = Vec::new();
    let mut step = first_step(command);
    loop {
        match step {
            Step::Stop(result) => return (ran, result),
            Step::Run { index, template } => {
                ran.push(template.to_string());
                let result = if fail_at == Some(index) {
                    Err(CommandError::InnerCommandFailed(format!("step {index}")))
                } else {
                    Ok(())
                };
                step = next_step(command, index, result);
            }
        }
    }
}

#[test]
fn custom_command_shadows_builtin() {
    let registry = CustomTypeableCommands { commands: vec![command(":write", &[":echo custom"])] };
    assert_eq!(resolve(&registry, "write"), Resolution::Custom(&registry.commands[0]));
    assert_eq!(resolve(&registry, ":write"), Resolution::Custom(&registry.commands[0]));
    assert_eq!(resolve(&registry, "quit"), Resolution::Builtin);
}

#[test]
fn steps_run_in_order() {
    let cmd = command("m", &[":one", ":two", ":three"]);
    let (ran, result) = drive(&cmd, None);
    assert_eq!(ran, vec![":one", ":two", ":three"]);
    assert_eq!(result, Ok(()));
}

#[test]
fn failure_stops_the_remaining_steps() {
    let cmd = command("m", &[":one", ":two", ":three"]);
    let (ran, result) = drive(&cmd, Some(1));
    assert_eq!(ran, vec![":one", ":two"]);
    assert_eq!(result, Err(CommandError::InnerCommandFailed("step 1".to_string())));
}

#[test]
fn command_without_steps_succeeds_at_once() {
    let cmd = command("m", &[]);
    assert_eq!(first_step(&cmd), Step::Stop(Ok(())));
    let (ran, result) = drive(&cmd, None);
    assert!(ran.is_empty());
    assert_eq!(result, Ok(()));
}

#[test]
fn next_step_passes_each_error_on() {
    let cmd = command("m", &[":one", ":two"]);
    assert_eq!(first_step(&cmd), Step::Run { index: 0, template: ":one" });
    assert_eq!(next_step(&cmd, 0, Ok(())), Step::Run { index: 1, template: ":two" });
    assert_eq!(next_step(&cmd, 1, Ok(())), Step::Stop(Ok(())));
    assert_eq!(next_step(&cmd, usize::MAX, Ok(())), Step::Stop(Ok(())));
    let unknown = CommandError::UnknownInnerCommand("nope".to_string());
    assert_eq!(next_step(&cmd, 0, Err(unknown.clone())), Step::Stop(Err(unknown)));
    let expansion = CommandError::Expansion(ExpansionError::MissingArgument(1));
    assert_eq!(next_step(&cmd, 0, Err(expansion.clone())), Step::Stop(Err(expansion)));
}

#[test]
fn inner_command_is_the_first_word_without_colons() {
    let words = vec![":write".to_string(), "--force".to_string()];
    assert_eq!(inner_command(&words), Some("write"));
    assert_eq!(inner_command(&vec!["cd".to_string()]), Some("cd"));
    assert_eq!(inner_command(&vec![]), None);
}

#[test]
fn command_errors_have_messages() {
    assert_eq!(
        CommandError::UnknownInnerCommand("nope".to_string()).message(),
        "no such command: `nope`"
    );
    assert_eq!(CommandError::InnerCommandFailed("disk full".to_string()).message(), "disk full");
    assert_eq!(
        CommandError::Expansion(ExpansionError::MissingArgument(1)).message(),
        "missing argument 1"
    );
}

#[test]
fn default_write_macro_forwards_its_argument() {
    let registry = CustomTypeableCommands::default();
    let command = match resolve(&registry, ":w") {
        Resolution::Custom(command) => command,
        Resolution::Builtin => panic!("the default registry has no `w`"),
    };
    let ctx = ExpansionContext {
        path: None,
        language: None,
        cwd: "/".to_string(),
        cursor_line: 0,
        cursor_column: 0,
        selection: String::new(),
        shell: vec!["nu".to_string(), "-c".to_string()],
        args: vec!["src/main.rs".to_string()],
    };
    let mut plans = Vec::new();
    let mut step = first_step(command);
    while let Step::Run { index, template } = step {
        plans.push(expand(&ctx, template));
        step = next_step(command, index, Ok(()));
    }
    assert_eq!(step, Step::Stop(Ok(())));
    assert_eq!(plans.len(), 5);
    assert_eq!(plans[0], Ok(Expansion::Done(":write --force src/main.rs".to_string())));
    for plan in &plans[1..] {
        assert_eq!(
            *plan,
            Ok(Expansion::Shell(ShellRequest {
                before: ":cd ".to_string(),
                command: "src/main.rs | path dirname".to_string(),
                after: String::new(),
            }))
        );
    }
    let lazygit = registry.get("lg").unwrap();
    assert_eq!(
        expand(&ctx, &lazygit.commands[0]),
        Ok(Expansion::Done(":sh wezterm cli spawn --floating-pane lazygit".to_string()))
    );
}
