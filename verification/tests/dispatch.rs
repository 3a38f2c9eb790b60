use taurus_bridge::dispatch::{
    dispatch, execute_ingame_command, ingame_command, IngameAction, Invocation,
};

fn prefixes(list: &[&str]) -> Vec<String> {
    list.iter().map(|p| p.to_string()).collect()
}

fn invocation(server: &str, username: &str, command: &str, args: &[&str]) -> Invocation {
    Invocation {
        server: server.to_string(),
        username: username.to_string(),
        command: command.to_string(),
        args: args.iter().map(|a| a.to_string()).collect(),
    }
}

#[test]
fn equals_sign_dispatches_to_eval() {
    assert_eq!(
        dispatch(&prefixes(&["!"]), "smp", "Steve", "=1+2"),
        Some(invocation("smp", "Steve", "eval", &["1+2"]))
    );
}

#[test]
fn equals_sign_bypasses_the_prefixes() {
    assert_eq!(
        dispatch(&prefixes(&[]), "smp", "Steve", "=1+2"),
        Some(invocation("smp", "Steve", "eval", &["1+2"]))
    );
    assert_eq!(
        dispatch(&prefixes(&["="]), "smp", "Steve", "= let x = 2 "),
        Some(invocation("smp", "Steve", "eval", &["let", "x", "=", "2"]))
    );
    assert_eq!(
        dispatch(&prefixes(&["!"]), "smp", "Steve", "="),
        Some(invocation("smp", "Steve", "eval", &[]))
    );
}

#[test]
fn prefix_dispatches_to_the_named_command() {
    assert_eq!(
        dispatch(&prefixes(&["!"]), "smp", "Steve", "!score Kills"),
        Some(invocation("smp", "Steve", "score", &["Kills"]))
    );
}

#[test]
fn first_matching_prefix_wins() {
    assert_eq!(
        dispatch(&prefixes(&["!", "!!"]), "smp", "Steve", "!!score a  b"),
        Some(invocation("smp", "Steve", "!score", &["a", "b"]))
    );
    assert_eq!(
        dispatch(&prefixes(&["!!", "!"]), "smp", "Steve", "!!score a  b"),
        Some(invocation("smp", "Steve", "score", &["a", "b"]))
    );
    assert_eq!(
        dispatch(&prefixes(&["?", "!"]), "smp", "Steve", "! score"),
        Some(invocation("smp", "Steve", "score", &[]))
    );
}

#[test]
fn message_without_prefix_dispatches_to_nothing() {
    assert_eq!(dispatch(&prefixes(&["!"]), "smp", "Steve", "hello there"), None);
    assert_eq!(dispatch(&prefixes(&["!"]), "smp", "Steve", " !score"), None);
    assert_eq!(dispatch(&prefixes(&["!"]), "smp", "Steve", " =1"), None);
    assert_eq!(dispatch(&prefixes(&[]), "smp", "Steve", "!score Kills"), None);
    assert_eq!(dispatch(&prefixes(&["!"]), "smp", "Steve", ""), None);
}

#[test]
fn prefix_alone_is_no_command() {
    assert_eq!(dispatch(&prefixes(&["!"]), "smp", "Steve", "!"), None);
    assert_eq!(dispatch(&prefixes(&["!", "!s"]), "smp", "Steve", "!   "), None);
}

#[test]
fn ingame_command_reads_a_whole_line() {
    assert_eq!(
        ingame_command(&prefixes(&["!"]), "MSG [smp] <Steve> !score Kills"),
        Some(invocation("smp", "Steve", "score", &["Kills"]))
    );
    assert_eq!(
        ingame_command(&prefixes(&["!"]), "MSG [smp] <Steve> =2*3"),
        Some(invocation("smp", "Steve", "eval", &["2*3"]))
    );
    assert_eq!(ingame_command(&prefixes(&["!"]), "MSG [smp] <Steve> hi"), None);
    assert_eq!(ingame_command(&prefixes(&["!"]), "MSG [smp <Steve> !score"), None);
    assert_eq!(ingame_command(&prefixes(&["!"]), "!score"), None);
}

#[test]
fn score_command_shows_the_board_named_first() {
    let args = vec!["Kills".to_string(), "more".to_string()];
    assert_eq!(
        execute_ingame_command("smp", "Steve", "score", &args),
        IngameAction::Score { server: "smp".to_string(), board: "Kills".to_string() }
    );
    assert_eq!(execute_ingame_command("smp", "Steve", "score", &vec![]), IngameAction::Nothing);
}

#[test]
fn eval_command_joins_its_arguments() {
    let args = vec!["let".to_string(), "x".to_string(), "=".to_string(), "2+2".to_string()];
    assert_eq!(
        execute_ingame_command("smp", "Steve", "eval", &args),
        IngameAction::Eval { username: "Steve".to_string(), line: "let x = 2+2".to_string() }
    );
    assert_eq!(
        execute_ingame_command("smp", "Steve", "eval", &vec![]),
        IngameAction::Eval { username: "Steve".to_string(), line: String::new() }
    );
}

#[test]
fn unknown_command_does_nothing() {
    let args = vec!["x".to_string()];
    assert_eq!(execute_ingame_command("smp", "Steve", "tps", &args), IngameAction::Nothing);
    assert_eq!(execute_ingame_command("smp", "Steve", "", &args), IngameAction::Nothing);
    assert_eq!(execute_ingame_command("smp", "Steve", "Score", &args), IngameAction::Nothing);
}
