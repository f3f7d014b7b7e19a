use virtual_machine::code_writer::arithmetic_code_generator::{
    add, and, eq, gt, lt, make_condition_code, make_one_operand_code, make_two_operands_code, neg,
    not, or, sub,
};
use virtual_machine::code_writer::arithmetic_command::ArithmeticCommand;
use virtual_machine::code_writer::constant::{POINTER_BASE_ADDRESS, TEMP_BASE_ADDRESS};
use virtual_machine::code_writer::helper::{
    camel_case_filename_without_extention, capitalize_with, file_stem, remove_all,
};
use virtual_machine::code_writer::pop_code_generator::{
    generate_pop_code, generate_pop_sp_to_r13_code,
};
use virtual_machine::code_writer::push_code_generator::{
    generate_push_code, generate_push_d_to_sp_code,
};
use virtual_machine::code_writer::segment::Segment;
use virtual_machine::code_writer::CodeWriter;
use virtual_machine::error::TranslateError;
use virtual_machine::parser::{arity_of, command_type_for, split_words, CommandType, Parser};
use virtual_machine::text::{
    chars_of, decimal_string, is_decimal_str, is_whitespace_char, parse_decimal, same_text,
};
use virtual_machine::translator::{translate, write_command, Failure};

fn lines(text: &[&str]) -> Vec<String> {
    text.iter().map(|s| s.to_string()).collect()
}

#[test]
fn segment_names_are_case_sensitive() {
    assert_eq!(Segment::from_str("argument"), Some(Segment::ARGUMENT));
    assert_eq!(Segment::from_str("local"), Some(Segment::LOCAL));
    assert_eq!(Segment::from_str("static"), Some(Segment::STATIC));
    assert_eq!(Segment::from_str("constant"), Some(Segment::CONSTANT));
    assert_eq!(Segment::from_str("this"), Some(Segment::THIS));
    assert_eq!(Segment::from_str("that"), Some(Segment::THAT));
    assert_eq!(Segment::from_str("pointer"), Some(Segment::POINTER));
    assert_eq!(Segment::from_str("temp"), Some(Segment::TEMP));
    assert_eq!(Segment::from_str("Local"), None);
    assert_eq!(Segment::from_str(""), None);
    assert_eq!(Segment::from_str("locals"), None);
}

#[test]
fn register_alias_of_each_segment() {
    assert_eq!(Segment::to_register_alias_str("local"), Ok("LCL".to_string()));
    assert_eq!(Segment::to_register_alias_str("argument"), Ok("ARG".to_string()));
    assert_eq!(Segment::to_register_alias_str("this"), Ok("THIS".to_string()));
    assert_eq!(Segment::to_register_alias_str("that"), Ok("THAT".to_string()));
    for name in ["static", "constant", "pointer", "temp"] {
        assert_eq!(
            Segment::to_register_alias_str(name),
            Err(TranslateError::UnsupportedOperation)
        );
    }
    assert_eq!(
        Segment::to_register_alias_str("heap"),
        Err(TranslateError::MalformedCommand)
    );
}

#[test]
fn arithmetic_mnemonics() {
    assert_eq!(ArithmeticCommand::from_str("add"), Some(ArithmeticCommand::ADD));
    assert_eq!(ArithmeticCommand::from_str("sub"), Some(ArithmeticCommand::SUB));
    assert_eq!(ArithmeticCommand::from_str("neg"), Some(ArithmeticCommand::NEG));
    assert_eq!(ArithmeticCommand::from_str("eq"), Some(ArithmeticCommand::EQ));
    assert_eq!(ArithmeticCommand::from_str("gt"), Some(ArithmeticCommand::GT));
    assert_eq!(ArithmeticCommand::from_str("lt"), Some(ArithmeticCommand::LT));
    assert_eq!(ArithmeticCommand::from_str("and"), Some(ArithmeticCommand::AND));
    assert_eq!(ArithmeticCommand::from_str("or"), Some(ArithmeticCommand::OR));
    assert_eq!(ArithmeticCommand::from_str("not"), Some(ArithmeticCommand::NOT));
    assert_eq!(ArithmeticCommand::from_str("ADD"), None);
    assert_eq!(ArithmeticCommand::from_str("push"), None);
}

#[test]
fn fixed_bases() {
    assert_eq!(POINTER_BASE_ADDRESS, "3");
    assert_eq!(TEMP_BASE_ADDRESS, "5");
}

#[test]
fn push_of_each_kind_of_segment() {
    let tail = ["@SP", "A=M", "M=D", "@SP", "M=M+1"];
    assert_eq!(generate_push_d_to_sp_code(), lines(&tail));
    let with_tail = |head: &[&str]| {
        let mut all = lines(head);
        all.extend(lines(&tail));
        all
    };
    assert_eq!(
        generate_push_code("constant", "17", "Foo.vm"),
        Ok(with_tail(&["@17", "D=A"]))
    );
    assert_eq!(
        generate_push_code("argument", "2", "Foo.vm"),
        Ok(with_tail(&["@ARG", "D=M", "@2", "A=D+A", "D=M"]))
    );
    assert_eq!(
        generate_push_code("this", "0", "Foo.vm"),
        Ok(with_tail(&["@THIS", "D=M", "@0", "A=D+A", "D=M"]))
    );
    assert_eq!(
        generate_push_code("that", "6", "Foo.vm"),
        Ok(with_tail(&["@THAT", "D=M", "@6", "A=D+A", "D=M"]))
    );
    assert_eq!(
        generate_push_code("pointer", "1", "Foo.vm"),
        Ok(with_tail(&["@3", "D=A", "@1", "A=D+A", "D=M"]))
    );
    assert_eq!(
        generate_push_code("temp", "7", "Foo.vm"),
        Ok(with_tail(&["@5", "D=A", "@7", "A=D+A", "D=M"]))
    );
    assert_eq!(
        generate_push_code("static", "3", "some/dir/foo.vm"),
        Ok(with_tail(&["@Foo.3", "D=M"]))
    );
}

#[test]
fn pop_of_each_kind_of_segment() {
    let tail = ["@SP", "AM=M-1", "D=M", "@R13", "A=M", "M=D"];
    assert_eq!(generate_pop_sp_to_r13_code(), lines(&tail));
    let with_tail = |head: &[&str]| {
        let mut all = lines(head);
        all.extend(lines(&tail));
        all
    };
    assert_eq!(
        generate_pop_code("argument", "2", "Foo.vm"),
        Ok(with_tail(&["@ARG", "D=M", "@2", "D=D+A", "@R13", "M=D"]))
    );
    assert_eq!(
        generate_pop_code("pointer", "0", "Foo.vm"),
        Ok(with_tail(&["@3", "D=A", "@0", "D=D+A", "@R13", "M=D"]))
    );
    assert_eq!(
        generate_pop_code("temp", "4", "Foo.vm"),
        Ok(with_tail(&["@5", "D=A", "@4", "D=D+A", "@R13", "M=D"]))
    );
    assert_eq!(
        generate_pop_code("static", "8", "bar.vm"),
        Ok(with_tail(&["@Bar.8", "D=A", "@R13", "M=D"]))
    );
}

#[test]
fn push_and_pop_refuse_what_is_no_command() {
    assert_eq!(
        generate_push_code("heap", "1", "a"),
        Err(TranslateError::MalformedCommand)
    );
    assert_eq!(
        generate_push_code("local", "x", "a"),
        Err(TranslateError::MalformedCommand)
    );
    assert_eq!(
        generate_push_code("local", "", "a"),
        Err(TranslateError::MalformedCommand)
    );
    assert_eq!(
        generate_push_code("local", "-1", "a"),
        Err(TranslateError::MalformedCommand)
    );
    assert_eq!(
        generate_pop_code("heap", "1", "a"),
        Err(TranslateError::MalformedCommand)
    );
    assert_eq!(
        generate_pop_code("local", "1x", "a"),
        Err(TranslateError::MalformedCommand)
    );
    assert_eq!(
        generate_pop_code("constant", "1", "a"),
        Err(TranslateError::UnsupportedOperation)
    );
    assert_eq!(
        generate_pop_code("constant", "x", "a"),
        Err(TranslateError::MalformedCommand)
    );
}

#[test]
fn a_refused_command_leaves_the_writer_as_it_was() {
    let mut writer = CodeWriter::new("a".to_string());
    writer.push("constant", "1").unwrap();
    let before = writer.generated_code().clone();
    assert_eq!(writer.push("foo", "1"), Err(TranslateError::MalformedCommand));
    assert_eq!(writer.pop("constant", "1"), Err(TranslateError::UnsupportedOperation));
    assert_eq!(
        writer.run_arichmetic_command("foo"),
        Err(TranslateError::MalformedCommand)
    );
    assert_eq!(writer.write_call("Foo", "two"), Err(TranslateError::MalformedCommand));
    assert_eq!(
        writer.write_function("Foo", "two"),
        Err(TranslateError::MalformedCommand)
    );
    assert_eq!(
        writer.write_function("Foo", "2147483648"),
        Err(TranslateError::MalformedCommand)
    );
    assert_eq!(*writer.generated_code(), before);
    assert_eq!(*writer.function_name_stack(), lines(&["null"]));
    assert_eq!(writer.symbol_count(), 0);
    assert_eq!(writer.return_address_count(), 0);
}

#[test]
fn unary_and_binary_templates() {
    assert_eq!(
        neg(),
        lines(&["@SP", "M=M-1", "A=M", "M=-M", "@SP", "M=M+1"])
    );
    assert_eq!(
        not(),
        lines(&["@SP", "M=M-1", "A=M", "M=!M", "@SP", "M=M+1"])
    );
    assert_eq!(make_one_operand_code("-"), neg());
    let binary = |operator: &str| {
        let line = format!("M=M{}D", operator);
        lines(&[
            "@SP", "M=M-1", "A=M", "D=M", "@SP", "M=M-1", "A=M", &line, "@SP", "M=M+1",
        ])
    };
    assert_eq!(add(), binary("+"));
    assert_eq!(sub(), binary("-"));
    assert_eq!(and(), binary("&"));
    assert_eq!(or(), binary("|"));
    assert_eq!(make_two_operands_code("+"), add());
}

#[test]
fn comparison_template() {
    let expected = |count: &str, jump: &str| {
        let to_true = format!("@IF_CONDITION.{}", count);
        let condition = format!("D;{}", jump);
        let to_join = format!("@IF_CONDITION.{}.FINAL", count);
        let on_true = format!("(IF_CONDITION.{})", count);
        let join = format!("(IF_CONDITION.{}.FINAL)", count);
        lines(&[
            "@SP", "M=M-1", "A=M", "D=M", "@SP", "M=M-1", "A=M", "MD=M-D", &to_true, &condition,
            "@SP", "A=M", "M=0", &to_join, "0;JMP", &on_true, "@SP", "A=M", "M=-1", &join, "@SP",
            "M=M+1",
        ])
    };
    assert_eq!(eq(&1), expected("1", "JEQ"));
    assert_eq!(gt(&20), expected("20", "JGT"));
    assert_eq!(lt(&305), expected("305", "JLT"));
    assert_eq!(make_condition_code(&0, "JEQ"), expected("0", "JEQ"));
}

#[test]
fn each_comparison_gets_labels_of_its_own() {
    let mut writer = CodeWriter::new("a".to_string());
    for command in ["eq", "add", "gt", "lt", "eq", "not"] {
        writer.run_arichmetic_command(command).unwrap();
    }
    assert_eq!(writer.symbol_count(), 4);
    let declared: Vec<&String> = writer
        .generated_code()
        .iter()
        .filter(|line| line.starts_with('('))
        .collect();
    assert_eq!(
        declared,
        [
            "(IF_CONDITION.1)",
            "(IF_CONDITION.1.FINAL)",
            "(IF_CONDITION.2)",
            "(IF_CONDITION.2.FINAL)",
            "(IF_CONDITION.3)",
            "(IF_CONDITION.3.FINAL)",
            "(IF_CONDITION.4)",
            "(IF_CONDITION.4.FINAL)",
        ]
    );
    for (i, a) in declared.iter().enumerate() {
        for b in &declared[i + 1..] {
            assert_ne!(a, b);
        }
    }
}

#[test]
fn labels_are_scoped_by_function() {
    let mut writer = CodeWriter::new("a".to_string());
    writer.write_function("Foo", "0").unwrap();
    writer.write_label("LOOP");
    writer.write_go_to("LOOP");
    writer.write_function("Bar", "0").unwrap();
    writer.write_label("LOOP");
    writer.write_if_go_to("LOOP");
    writer.write_return();
    writer.write_label("END");
    let code = writer.generated_code();
    assert_eq!(code[0], "(Foo)");
    assert_eq!(code[1], "(Foo$LOOP)");
    assert_eq!(code[2], "@Foo$LOOP");
    assert_eq!(code[4], "(Bar)");
    assert_eq!(code[5], "(Bar$LOOP)");
    assert_eq!(code[9], "@Bar$LOOP");
    assert_eq!(code[code.len() - 1], "(Bar$END)");
    assert_ne!(code[1], code[5]);
    assert_eq!(*writer.function_name_stack(), lines(&["null", "Foo", "Bar"]));
}

#[test]
fn function_without_locals_writes_its_label_only() {
    let mut writer = CodeWriter::new("a".to_string());
    writer.write_function("Foo", "0").unwrap();
    assert_eq!(*writer.generated_code(), lines(&["(Foo)"]));
}

#[test]
fn function_writes_seven_lines_for_each_local() {
    let mut writer = CodeWriter::new("a".to_string());
    writer.write_function("Foo", "2").unwrap();
    let code = writer.generated_code();
    assert_eq!(code.len(), 1 + 2 * 7);
    assert_eq!(code[0], "(Foo)");
    assert_eq!(code.iter().filter(|line| *line == "@0").count(), 2);
}

#[test]
fn call_writes_the_frame_and_the_jump() {
    let mut writer = CodeWriter::new("a".to_string());
    writer.write_call("Foo", "2").unwrap();
    let push = ["@SP", "A=M", "M=D", "@SP", "M=M+1"];
    let mut expected = lines(&["@Return_address.1", "D=A"]);
    expected.extend(lines(&push));
    for register in ["@LCL", "@ARG", "@THIS", "@THAT"] {
        expected.extend(lines(&[register, "D=M"]));
        expected.extend(lines(&push));
    }
    expected.extend(lines(&[
        "@SP", "D=M", "@2", "D=D-A", "@5", "D=D-A", "@ARG", "M=D", "@SP", "D=M", "@LCL", "M=D",
        "@Foo", "0;JMP", "(Return_address.1)",
    ]));
    assert_eq!(*writer.generated_code(), expected);
    assert_eq!(writer.return_address_count(), 1);
}

#[test]
fn two_calls_get_two_return_addresses() {
    let mut writer = CodeWriter::new("a".to_string());
    writer.write_call("Foo", "0").unwrap();
    writer.write_call("Foo", "0").unwrap();
    let declared: Vec<&String> = writer
        .generated_code()
        .iter()
        .filter(|line| line.starts_with('('))
        .collect();
    assert_eq!(declared, ["(Return_address.1)", "(Return_address.2)"]);
    assert_eq!(writer.return_address_count(), 2);
    assert_eq!(writer.symbol_count(), 0);
}

#[test]
fn return_restores_that_this_arg_lcl_in_this_order() {
    let mut writer = CodeWriter::new("a".to_string());
    writer.write_return();
    let restore = |distance: &str, register: &str| {
        lines(&["@FRAME", "D=M", distance, "A=D-A", "D=M", register, "M=D"])
    };
    let mut expected = lines(&[
        "@LCL", "D=M", "@FRAME", "M=D", "@5", "A=D-A", "D=M", "@RET", "M=D", "@ARG", "D=M", "@0",
        "D=D+A", "@R13", "M=D", "@SP", "AM=M-1", "D=M", "@R13", "A=M", "M=D", "@ARG", "D=M",
        "@SP", "M=D+1",
    ]);
    expected.extend(restore("@1", "@THAT"));
    expected.extend(restore("@2", "@THIS"));
    expected.extend(restore("@3", "@ARG"));
    expected.extend(restore("@4", "@LCL"));
    expected.extend(lines(&["@RET", "A=M", "0;JMP"]));
    assert_eq!(*writer.generated_code(), expected);
    assert_eq!(*writer.function_name_stack(), lines(&["null"]));
}

#[test]
fn write_init_writes_nothing() {
    let mut writer = CodeWriter::new("a".to_string());
    writer.write_init();
    assert!(writer.generated_code().is_empty());
    writer.write_label("x");
    writer.write_init();
    assert_eq!(writer.generated_code().len(), 1);
}

#[test]
fn unit_names() {
    assert_eq!(camel_case_filename_without_extention("MyFile.vm"), "Myfile");
    assert_eq!(camel_case_filename_without_extention("filename.vm"), "Filename");
    assert_eq!(camel_case_filename_without_extention("a/b/"), "");
    assert_eq!(camel_case_filename_without_extention(""), "");
    assert_eq!(camel_case_filename_without_extention("x.vm.vm"), "X");
    assert_eq!(camel_case_filename_without_extention("FOO.VM"), "Foo.vm");
    assert_eq!(camel_case_filename_without_extention("dir.vm/prog"), "Prog");
    assert_eq!(camel_case_filename_without_extention("ßeta.vm"), "SSeta");
    assert_eq!(file_stem("../path/to/filename.vm"), "filename");
    assert_eq!(file_stem("plain"), "plain");
    assert_eq!(remove_all("a.vmb.vm.v", ".vm"), "ab.v");
    assert_eq!(remove_all("aaa", "aa"), "a");
    assert_eq!(remove_all("abc", ""), "abc");
    assert_eq!(capitalize_with("X", "abc"), "Xbc");
    assert_eq!(capitalize_with("X", ""), "");
}

#[test]
fn text_helpers() {
    assert_eq!(decimal_string(0), "0");
    assert_eq!(decimal_string(7), "7");
    assert_eq!(decimal_string(10), "10");
    assert_eq!(decimal_string(4096), "4096");
    assert_eq!(decimal_string(usize::MAX), usize::MAX.to_string());
    assert!(is_decimal_str("0"));
    assert!(is_decimal_str("007"));
    assert!(!is_decimal_str(""));
    assert!(!is_decimal_str("+1"));
    assert!(!is_decimal_str("1 "));
    assert!(!is_decimal_str("١"));
    assert_eq!(parse_decimal("12", 100), Some(12));
    assert_eq!(parse_decimal("100", 100), Some(100));
    assert_eq!(parse_decimal("101", 100), None);
    assert_eq!(parse_decimal("0000000000000000000012", 100), Some(12));
    assert_eq!(parse_decimal("99999999999999999999", u32::MAX), None);
    assert_eq!(parse_decimal("4294967295", u32::MAX), Some(u32::MAX));
    assert_eq!(parse_decimal("4294967296", u32::MAX), None);
    assert_eq!(parse_decimal("", 100), None);
    assert_eq!(parse_decimal("1a", 100), None);
    assert_eq!(chars_of("añ\u{1F600}"), vec!['a', 'ñ', '\u{1F600}']);
    assert!(same_text("abc", "abc"));
    assert!(!same_text("abc", "abd"));
    assert!(!same_text("abc", "ab"));
    for code in 0..0x11_0000u32 {
        if let Some(c) = char::from_u32(code) {
            assert_eq!(is_whitespace_char(c), c.is_whitespace(), "U+{:04X}", code);
        }
    }
}

#[test]
fn words_of_a_command() {
    assert_eq!(split_words("push constant 7"), lines(&["push", "constant", "7"]));
    assert_eq!(split_words("  push\tconstant \u{3000} 7  "), lines(&["push", "constant", "7"]));
    assert_eq!(split_words(""), Vec::<String>::new());
    assert_eq!(split_words(" \t "), Vec::<String>::new());
    assert_eq!(split_words("add"), lines(&["add"]));
}

#[test]
fn kinds_and_arities() {
    for mnemonic in ["add", "sub", "neg", "eq", "gt", "lt", "and", "or", "not"] {
        assert_eq!(command_type_for(mnemonic), Some(CommandType::ARITHMETIC));
    }
    assert_eq!(command_type_for("push"), Some(CommandType::PUSH));
    assert_eq!(command_type_for("pop"), Some(CommandType::POP));
    assert_eq!(command_type_for("label"), Some(CommandType::LABEL));
    assert_eq!(command_type_for("goto"), Some(CommandType::GOTO));
    assert_eq!(command_type_for("if-goto"), Some(CommandType::IF));
    assert_eq!(command_type_for("function"), Some(CommandType::FUNCTION));
    assert_eq!(command_type_for("return"), Some(CommandType::RETURN));
    assert_eq!(command_type_for("call"), Some(CommandType::CALL));
    assert_eq!(command_type_for("Push"), None);
    assert_eq!(command_type_for("if"), None);
    assert_eq!(arity_of(CommandType::ARITHMETIC), 0);
    assert_eq!(arity_of(CommandType::RETURN), 0);
    assert_eq!(arity_of(CommandType::LABEL), 1);
    assert_eq!(arity_of(CommandType::GOTO), 1);
    assert_eq!(arity_of(CommandType::IF), 1);
    assert_eq!(arity_of(CommandType::PUSH), 2);
    assert_eq!(arity_of(CommandType::POP), 2);
    assert_eq!(arity_of(CommandType::FUNCTION), 2);
    assert_eq!(arity_of(CommandType::CALL), 2);
}

#[test]
fn cleaning_lines() {
    assert_eq!(Parser::remove_comments("add".to_string()), "add");
    assert_eq!(Parser::remove_comments("add//x//y".to_string()), "add");
    assert_eq!(Parser::remove_comments("  // only a comment".to_string()), "");
    assert_eq!(Parser::remove_comments("a / b".to_string()), "a / b");
    assert_eq!(Parser::remove_comments("a /".to_string()), "a /");
    assert_eq!(Parser::remove_comments("\t\u{a0}pop local 1\r".to_string()), "pop local 1");
    assert_eq!(Parser::remove_comments("".to_string()), "");
    assert_eq!(
        Parser::remove_unnecessary_parts(lines(&["", "   ", "//", "/x", " add ", "neg // n"])),
        lines(&["/x", "add", "neg"])
    );
}

#[test]
fn advance_sets_the_arguments() {
    let mut parser = Parser::new(lines(&[
        "push constant 7",
        "add",
        "label LOOP",
        "return",
        "call Foo 2",
    ]));
    assert_eq!(parser.commands().len(), 5);
    parser.advance().unwrap();
    assert_eq!(parser.command_type(), Some(CommandType::PUSH));
    assert_eq!(*parser.arg1(), Some("constant".to_string()));
    assert_eq!(*parser.arg2(), Some("7".to_string()));
    parser.advance().unwrap();
    assert_eq!(parser.command_type(), Some(CommandType::ARITHMETIC));
    assert_eq!(*parser.arg1(), Some("add".to_string()));
    assert_eq!(*parser.arg2(), None);
    parser.advance().unwrap();
    assert_eq!(parser.command_type(), Some(CommandType::LABEL));
    assert_eq!(*parser.arg1(), Some("LOOP".to_string()));
    assert_eq!(*parser.arg2(), None);
    parser.advance().unwrap();
    assert_eq!(parser.command_type(), Some(CommandType::RETURN));
    assert_eq!(*parser.arg1(), None);
    assert_eq!(*parser.arg2(), None);
    assert!(parser.has_more_commands());
    parser.advance().unwrap();
    assert_eq!(parser.command_type(), Some(CommandType::CALL));
    assert_eq!(*parser.arg1(), Some("Foo".to_string()));
    assert_eq!(*parser.arg2(), Some("2".to_string()));
    assert_eq!(parser.index(), 5);
    assert!(!parser.has_more_commands());
    parser.advance().unwrap();
    assert_eq!(parser.index(), 5);
    assert_eq!(parser.command_type(), Some(CommandType::CALL));
}

#[test]
fn advance_refuses_a_malformed_command_and_stays() {
    for text in ["foo bar", "foo", "push constant", "add 1", "label", "return 0", "goto a b"] {
        let mut parser = Parser::new(lines(&["neg", text]));
        parser.advance().unwrap();
        assert_eq!(parser.advance(), Err(TranslateError::MalformedCommand), "{}", text);
        assert_eq!(parser.index(), 1);
        assert_eq!(parser.command_type(), Some(CommandType::ARITHMETIC));
        assert_eq!(*parser.arg1(), Some("neg".to_string()));
        assert!(parser.has_more_commands());
    }
}

#[test]
fn parser_without_commands() {
    let mut parser = Parser::new(lines(&["// nothing", ""]));
    assert!(!parser.has_more_commands());
    assert_eq!(parser.advance(), Ok(()));
    assert_eq!(parser.index(), 0);
    assert_eq!(parser.command_type(), None);
}

#[test]
fn translate_writes_the_commands_in_order() {
    let code = translate(
        lines(&["// a program", "push constant 7", "", "push constant 8 // eight", "add"]),
        "Prog.vm".to_string(),
    )
    .unwrap();
    let mut writer = CodeWriter::new("Prog.vm".to_string());
    writer.push("constant", "7").unwrap();
    writer.push("constant", "8").unwrap();
    writer.run_arichmetic_command("add").unwrap();
    assert_eq!(code, *writer.generated_code());
    assert_eq!(code.len(), 7 + 7 + 10);
}

#[test]
fn translate_dispatches_every_kind() {
    let program = [
        "function Main 1",
        "push static 2",
        "pop local 0",
        "label LOOP",
        "push local 0",
        "if-goto LOOP",
        "goto LOOP",
        "call Main 0",
        "eq",
        "return",
    ];
    let code = translate(lines(&program), "dir/main.vm".to_string()).unwrap();
    let mut writer = CodeWriter::new("dir/main.vm".to_string());
    writer.write_function("Main", "1").unwrap();
    writer.push("static", "2").unwrap();
    writer.pop("local", "0").unwrap();
    writer.write_label("LOOP");
    writer.push("local", "0").unwrap();
    writer.write_if_go_to("LOOP");
    writer.write_go_to("LOOP");
    writer.write_call("Main", "0").unwrap();
    writer.run_arichmetic_command("eq").unwrap();
    writer.write_return();
    assert_eq!(code, *writer.generated_code());
    assert!(code.contains(&"@Main.2".to_string()));
    assert!(code.contains(&"(Main$LOOP)".to_string()));
}

#[test]
fn translate_of_nothing_is_nothing() {
    assert_eq!(translate(Vec::new(), "a.vm".to_string()), Ok(Vec::new()));
    assert_eq!(translate(lines(&["// x", "  "]), "a.vm".to_string()), Ok(Vec::new()));
}

#[test]
fn translate_stops_at_the_first_refused_command() {
    let failed = |program: &[&str]| translate(lines(program), "a.vm".to_string()).unwrap_err();
    assert_eq!(
        failed(&["push constant 1", "foo bar", "add"]),
        Failure { error: TranslateError::MalformedCommand, command: "foo bar".to_string() }
    );
    assert_eq!(
        failed(&["foo"]),
        Failure { error: TranslateError::MalformedCommand, command: "foo".to_string() }
    );
    assert_eq!(
        failed(&["add", "  pop constant 3 // no such cell", "bogus"]),
        Failure {
            error: TranslateError::UnsupportedOperation,
            command: "pop constant 3".to_string()
        }
    );
    assert_eq!(
        failed(&["push heap 3"]),
        Failure { error: TranslateError::MalformedCommand, command: "push heap 3".to_string() }
    );
    assert_eq!(
        failed(&["function Foo x"]),
        Failure { error: TranslateError::MalformedCommand, command: "function Foo x".to_string() }
    );
    assert_eq!(
        failed(&["/ not a comment"]),
        Failure {
            error: TranslateError::MalformedCommand,
            command: "/ not a comment".to_string()
        }
    );
}

#[test]
fn write_command_needs_the_arguments_of_the_kind() {
    let mut writer = CodeWriter::new("a".to_string());
    let one = Some("local".to_string());
    assert_eq!(
        write_command(&mut writer, CommandType::PUSH, &one, &None),
        Err(TranslateError::MalformedCommand)
    );
    assert_eq!(
        write_command(&mut writer, CommandType::LABEL, &None, &None),
        Err(TranslateError::MalformedCommand)
    );
    assert!(writer.generated_code().is_empty());
    assert_eq!(write_command(&mut writer, CommandType::RETURN, &None, &None), Ok(()));
    assert_eq!(writer.generated_code().len(), 56);
}
