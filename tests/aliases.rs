use dices_rs::aliases::{builtin_aliases, parse_alias, parse_comment, parse_string, read_definitions};
use dices_rs::command::{Cmd, Command};
use dices_rs::engine::Engine;

const FILE: &str = "# This is for adding a command\n\
doom = \"dice 2D6\"\n\
// These replicate an existing one\n\
rulez = dice\n\
! more comments\n\
move = \"dice 3D6 -9\"\n\
mouv = \"move +7\"\n\
\n\
quit = exit\r\n\
  llist = list  \n\
this line does not read\n\
num = 42\n";

#[test]
fn definitions_of_a_file() {
    let d = read_definitions(FILE);
    let expected = vec![
        ("doom", "dice 2D6"),
        ("rulez", "dice"),
        ("move", "dice 3D6 -9"),
        ("mouv", "move +7"),
        ("quit", "exit"),
        ("llist", "list"),
    ];
    let got: Vec<(&str, &str)> = d.iter().map(|(a, b)| (a.as_str(), b.as_str())).collect();
    assert_eq!(expected, got);
}

#[test]
fn aliases_test_load_aliases_with_file() {
    let mut n = Engine::new();
    n.with(Some(FILE));

    let m = |name: &str, cmd: &str| Command::Macro {
        name: name.to_string(),
        cmd: cmd.to_string(),
    };
    let a = |name: &str, cmd: &str| Command::Alias {
        name: name.to_string(),
        cmd: cmd.to_string(),
    };
    let all = vec![
        ("doom", m("doom", "dice 2D6")),
        ("roll", a("roll", "dice")),
        ("rulez", a("rulez", "dice")),
        ("move", m("move", "dice 3D6 -9")),
        ("mouv", m("mouv", "move +7")),
        ("quit", a("quit", "exit")),
        ("llist", a("llist", "list")),
        ("aliases", Command::Aliases),
        ("exit", Command::Exit),
        ("macros", Command::Macros),
    ];
    for (name, cmd) in all {
        assert!(n.exist(name), "{}", name);
        assert_eq!(&cmd, n.cmds.get(name).unwrap());
    }
    assert!(!n.exist("num"));
}

#[test]
fn aliases_test_load_aliases_with_none() {
    let mut n = Engine::new();
    n.with(None);
    assert_eq!(
        &Command::Alias {
            name: "roll".to_string(),
            cmd: "dice".to_string()
        },
        n.cmds.get("roll").unwrap()
    );
    assert_eq!(
        &Command::Macro {
            name: "doom".to_string(),
            cmd: "dice 2D6".to_string()
        },
        n.cmds.get("doom").unwrap()
    );
    assert_eq!(
        &Command::Builtin {
            name: "dice".to_string(),
            cmd: Cmd::Dice
        },
        n.cmds.get("dice").unwrap()
    );
    assert_eq!(8, n.cmds.len());
}

#[test]
fn builtin_alias_list() {
    assert_eq!(2, builtin_aliases().len());
}

#[test]
fn comments_and_quotes() {
    assert!(read_definitions("#comment").is_empty());
    assert!(read_definitions("# this is a comment").is_empty());
    assert!(read_definitions("// this is a comment").is_empty());
    assert!(read_definitions("! this is a comment").is_empty());
    let d = read_definitions("x = \"this is a string\"");
    assert_eq!("this is a string", d[0].1);
    let d = read_definitions("y='single\"");
    assert_eq!("single", d[0].1);
    assert!(read_definitions("z = \"\"").is_empty());
}

#[test]
fn mouv_resolves_through_move() {
    let mut n = Engine::new();
    n.with(Some(FILE));
    let cc = dices_rs::compiler::Compiler::new(&n.cmds);
    match cc.compile("mouv") {
        dices_rs::compiler::Action::Execute(_, args) => assert_eq!(" 3D6 -9 +7", args),
        other => panic!("{:?}", other),
    }
}

#[test]
fn aliases_test_parse_comment_sharp() {
    let c = parse_comment("# this is a comment").unwrap();
    assert_eq!(Command::Comment, c);
}

#[test]
fn test_parse_comment_sharp_no_space() {
    let c = parse_comment("#comment").unwrap();
    assert_eq!(Command::Comment, c);
}

#[test]
fn aliases_test_parse_comment_c() {
    let c = parse_comment("// this is a comment").unwrap();
    assert_eq!(Command::Comment, c);
}

#[test]
fn aliases_test_parse_comment_exclamation() {
    let c = parse_comment("! this is a comment").unwrap();
    assert_eq!(Command::Comment, c);
}

#[test]
fn aliases_test_parse_string() {
    let a = "\"this is a string\"";

    let r = parse_string(a);
    assert!(r.is_some());
    let r = r.unwrap();
    assert_eq!("this is a string", r);
}

#[test]
fn test_load_aliases() {
    let mut n = Engine::new();
    n.with(Some("doom = \"2D6\"\nrulez = dice\n"));
    assert_eq!(
        &Command::Macro {
            name: "doom".to_string(),
            cmd: "2D6".to_string()
        },
        n.cmds.get("doom").unwrap()
    );
    assert_eq!(
        &Command::Alias {
            name: "rulez".to_string(),
            cmd: "dice".to_string()
        },
        n.cmds.get("rulez").unwrap()
    );
    assert_eq!(
        &Command::Alias {
            name: "roll".to_string(),
            cmd: "dice".to_string()
        },
        n.cmds.get("roll").unwrap()
    );
}

#[test]
fn alias_lines() {
    assert_eq!(
        Some(Command::Macro {
            name: "doom".to_string(),
            cmd: "dice 2D6".to_string()
        }),
        parse_alias("doom = \"dice 2D6\"")
    );
    assert_eq!(
        Some(Command::Macro {
            name: "mouv".to_string(),
            cmd: "move".to_string()
        }),
        parse_alias("mouv=move")
    );
    assert_eq!(None, parse_alias("# doom = dice"));
    assert_eq!(None, parse_alias("doom = dice extra"));
    assert_eq!(None, parse_comment("doom = dice"));
    assert_eq!(None, parse_string("no quotes"));
    assert_eq!(None, parse_string("\"\""));
}

#[test]
fn unicode_white_space_is_trimmed() {
    let d = read_definitions("\u{a0}doom = dice\u{3000}\n\u{2003}# note");
    assert_eq!(1, d.len());
    assert_eq!(("doom".to_string(), "dice".to_string()), d[0]);
}
