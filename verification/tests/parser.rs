use virtual_machine::error::TranslateError;
use virtual_machine::parser::{CommandType, Parser};

#[test]
fn parser_remove_comments() {
    let command = "   push constant 7  // this is comment".to_string();
    assert_eq!(Parser::remove_comments(command), "push constant 7");
}

#[test]
fn parser_remove_unnecessary_parts() {
    let source_lines = vec![
        "//this is comment line".to_string(),
        "push constant 7 // here also comment".to_string(),
        "   add    //whitespace should be trimmed".to_string(),
    ];

    let new_commands = vec!["push constant 7".to_string(), "add".to_string()];
    assert_eq!(
        Parser::remove_unnecessary_parts(source_lines),
        new_commands
    );
}

#[test]
fn parser_new() {
    let source_lines = vec![
        "//this is comment line".to_string(),
        "push constant 7 // here also comment".to_string(),
        "   add    //whitespace should be trimmed".to_string(),
    ];

    let new_commands = vec!["push constant 7".to_string(), "add".to_string()];
    let parser = Parser::new(source_lines);
    assert_eq!(*parser.commands(), new_commands);
    assert_eq!(parser.has_more_commands(), true);
    assert_eq!(parser.index(), 0);
    assert_eq!(parser.command_type(), None);
    assert_eq!(*parser.arg1(), None);
    assert_eq!(*parser.arg2(), None);
}

#[test]
fn parser_advance() {
    let source_lines = vec![
        "//this is comment line".to_string(),
        "push constant 7 // here also comment".to_string(),
        "   add    //whitespace should be trimmed".to_string(),
    ];
    let mut parser = Parser::new(source_lines);
    parser.advance().unwrap();

    assert_eq!(parser.index(), 1);
    assert_eq!(parser.command_type(), Some(CommandType::PUSH));

    parser.advance().unwrap();
    assert_eq!(parser.index(), 2);
    assert_eq!(parser.command_type(), Some(CommandType::ARITHMETIC));
}

#[test]
fn parser_classify_command() {
    assert_eq!(
        Parser::classify_command("add").unwrap(),
        CommandType::ARITHMETIC
    );
    assert_eq!(
        Parser::classify_command("push constant 7").unwrap(),
        CommandType::PUSH
    );
    assert_eq!(
        Parser::classify_command("pop constant 7").unwrap(),
        CommandType::POP
    );
    assert_eq!(
        Parser::classify_command("label").unwrap(),
        CommandType::LABEL
    );
}

#[test]
fn classify_command_refuses_unknown_mnemonic() {
    assert_eq!(
        Parser::classify_command("invalid command"),
        Err(TranslateError::MalformedCommand)
    );
}
