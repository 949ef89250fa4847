use dices_rs::command::{Cmd, Command};
use dices_rs::compiler::{split_keyword, Action, Compiler, CompilerError, MAX_RECUR};
use dices_rs::engine::Engine;
use dices_rs::session::{Failure, Reply};

fn dice() -> Command {
    Command::Builtin {
        name: "dice".to_string(),
        cmd: Cmd::Dice,
    }
}

fn macro_(name: &str, text: &str) -> Command {
    Command::Macro {
        name: name.to_string(),
        cmd: text.to_string(),
    }
}

#[test]
fn compile_controls() {
    let n = Engine::new();
    let cc = Compiler::new(&n.cmds);
    assert_eq!(Action::Exit, cc.compile("exit"));
    assert_eq!(Action::List, cc.compile("list"));
    assert_eq!(Action::Aliases, cc.compile("aliases"));
    assert_eq!(Action::Macros, cc.compile("macros"));
}

#[test]
fn unknown_command() {
    let n = Engine::new();
    let cc = Compiler::new(&n.cmds);
    assert_eq!(Action::Error(CompilerError::UnknownCommand), cc.compile("frobnicate"));
    assert_eq!(Action::Error(CompilerError::UnknownCommand), cc.compile(""));
    assert_eq!(Action::Error(CompilerError::UnknownCommand), cc.compile(" dice D6"));
}

#[test]
fn aliases_and_macros_keep_arguments() {
    let mut n = Engine::new();
    n.with(None);
    let cc = Compiler::new(&n.cmds);
    assert_eq!(Action::Execute(dice(), " 3D6".to_string()), cc.compile("roll 3D6"));
    assert_eq!(Action::Execute(dice(), " 2D6".to_string()), cc.compile("doom"));
    assert_eq!(Action::Execute(dice(), " 2D6 +1".to_string()), cc.compile("doom +1"));
}

#[test]
fn cycle_is_detected() {
    let mut n = Engine::new();
    n.merge(vec![
        Command::Alias {
            name: "A".to_string(),
            cmd: "B".to_string(),
        },
        Command::Alias {
            name: "B".to_string(),
            cmd: "A".to_string(),
        },
    ]);
    let cc = Compiler::new(&n.cmds);
    assert_eq!(Action::Error(CompilerError::CycleDetected), cc.compile("A"));
}

fn chain(macros: usize) -> Compiler {
    let mut n = Engine::new();
    let mut list = vec![];
    for i in 0..macros {
        let next = if i + 1 == macros { "dice".to_string() } else { format!("m{}", i + 1) };
        list.push(macro_(&format!("m{}", i), &next));
    }
    n.merge(list);
    Compiler::new(&n.cmds)
}

#[test]
fn depth_limit() {
    assert_eq!(Action::Error(CompilerError::MaxRecursionReached), chain(MAX_RECUR).compile("m0 D6"));
    assert_eq!(Action::Execute(dice(), " D6".to_string()), chain(MAX_RECUR - 1).compile("m0 D6"));
}

#[test]
fn comment_in_a_chain_is_invalid() {
    let mut n = Engine::new();
    n.insert("c".to_string(), Command::Comment);
    let cc = Compiler::new(&n.cmds);
    assert_eq!(Action::Error(CompilerError::InvalidBuiltin), cc.compile("c"));
}

#[test]
fn recurse_returns_the_arguments() {
    let mut n = Engine::new();
    n.with(None);
    let cc = Compiler::new(&n.cmds);
    assert_eq!(Ok((" D8".to_string(), dice())), cc.recurse("roll D8"));
}

#[test]
fn keyword_split() {
    assert_eq!(("dice".to_string(), " 2D6".to_string()), split_keyword("dice 2D6"));
    assert_eq!(("".to_string(), "+1".to_string()), split_keyword("+1"));
    assert_eq!(("D6".to_string(), "".to_string()), split_keyword("D6"));
}

#[test]
fn respond_to_lines() {
    let mut n = Engine::new();
    n.with(None);
    let cc = Compiler::new(&n.cmds);
    assert_eq!(Reply::Quit, n.respond(&cc, "exit"));
    assert_eq!(Reply::Commands(n.list()), n.respond(&cc, "list"));
    assert_eq!(Reply::Show("alias \troll = dice".to_string()), n.respond(&cc, "aliases"));
    assert_eq!(
        Reply::Failed(Failure::Unresolved(CompilerError::UnknownCommand)),
        n.respond(&cc, "frobnicate")
    );
    assert_eq!(
        Reply::Failed(Failure::Rejected(dices_rs::command::EngineError::ParsingDiceset)),
        n.respond(&cc, "dice nothing")
    );
    match n.respond(&cc, "roll 3D6 +2") {
        Reply::Rolled(r) => {
            assert_eq!(3, r.list.len());
            assert_eq!(2, r.bonus);
        }
        other => panic!("{:?}", other),
    }
}

#[test]
fn completion_of_names() {
    let e = Engine::new();
    let (start, names) = dices_rs::complete::complete(&e.cmds, "ma", 2);
    assert_eq!(0, start);
    assert_eq!(vec!["macros".to_string()], names);
    let (start, names) = dices_rs::complete::complete(&e.cmds, "list d", 6);
    assert_eq!(5, start);
    assert_eq!(vec!["dice".to_string()], names);
    let (_, names) = dices_rs::complete::complete(&e.cmds, "", 0);
    assert_eq!(6, names.len());
}
