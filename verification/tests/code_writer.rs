use virtual_machine::code_writer::CodeWriter;

fn lines(text: &[&str]) -> Vec<String> {
    text.iter().map(|s| s.to_string()).collect()
}

#[test]
fn push_local() {
    let expected_result = vec![
        "@LCL".to_string(),
        "D=M".to_string(),
        "@1".to_string(),
        "A=D+A".to_string(),
        "D=M".to_string(),
        "@SP".to_string(),
        "A=M".to_string(),
        "M=D".to_string(),
        "@SP".to_string(),
        "M=M+1".to_string(),
    ];
    let mut code_writer = CodeWriter::new("a".to_string());
    code_writer.push("local", "1").unwrap();
    assert_eq!(*code_writer.generated_code(), expected_result)
}

#[test]
fn pop_local() {
    let expected_result = vec![
        "@LCL".to_string(),
        "D=M".to_string(),
        "@1".to_string(),
        "D=D+A".to_string(),
        "@R13".to_string(),
        "M=D".to_string(),
        "@SP".to_string(),
        "AM=M-1".to_string(),
        "D=M".to_string(),
        "@R13".to_string(),
        "A=M".to_string(),
        "M=D".to_string(),
    ];
    let mut code_writer = CodeWriter::new("a".to_string());
    code_writer.pop("local", "1").unwrap();
    assert_eq!(*code_writer.generated_code(), expected_result)
}

#[test]
fn write_label() {
    let expected_result = ["(null$b)".to_string()];
    let mut code_writer = CodeWriter::new("a".to_string());
    code_writer.write_label("b");
    assert_eq!(*code_writer.generated_code(), expected_result)
}

#[test]
fn write_go_to() {
    let expected_result = ["@null$b".to_string(), "0;JMP".to_string()];
    let mut code_writer = CodeWriter::new("a".to_string());
    code_writer.write_go_to("b");
    assert_eq!(*code_writer.generated_code(), expected_result)
}

#[test]
fn write_if_go_to() {
    let expected_result = [
        "@SP".to_string(),
        "AM=M-1".to_string(),
        "D=M".to_string(),
        "@null$b".to_string(),
        "D;JNE".to_string(),
    ];
    let mut code_writer = CodeWriter::new("a".to_string());
    code_writer.write_if_go_to("b");
    assert_eq!(*code_writer.generated_code(), expected_result)
}

#[test]
fn write_function() {
    let expected_result = [
        "(Functionname)".to_string(),
        "@0".to_string(),
        "D=A".to_string(),
        "@SP".to_string(),
        "A=M".to_string(),
        "M=D".to_string(),
        "@SP".to_string(),
        "M=M+1".to_string(),
        "@0".to_string(),
        "D=A".to_string(),
        "@SP".to_string(),
        "A=M".to_string(),
        "M=D".to_string(),
        "@SP".to_string(),
        "M=M+1".to_string(),
    ];

    let mut code_writer = CodeWriter::new("a".to_string());
    code_writer.write_function("Functionname", "2").unwrap();
    assert_eq!(*code_writer.generated_code(), expected_result);
    assert_eq!(code_writer.function_name_stack().len(), 2);
    assert_eq!(
        code_writer.function_name_stack().clone().pop().unwrap(),
        "Functionname".to_string()
    )
}

#[test]
fn new_writer_is_empty() {
    let code_writer = CodeWriter::new("a".to_string());
    assert!(code_writer.generated_code().is_empty());
    assert_eq!(*code_writer.function_name_stack(), lines(&["null"]));
    assert_eq!(code_writer.symbol_count(), 0);
    assert_eq!(code_writer.return_address_count(), 0);
}
