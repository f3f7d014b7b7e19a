use virtual_machine::code_writer::helper::camel_case_filename_without_extention;
use virtual_machine::code_writer::push_code_generator::push_constant;
use virtual_machine::code_writer::return_address_generator::ReturnAddressGenerator;

#[test]
fn test_camel_case_filename_without_extention() {
    let expected_result = "Filename";
    let result = camel_case_filename_without_extention("../path/to/filename.vm");
    assert_eq!(result, expected_result)
}

#[test]
fn test_push_constant() {
    let expected_result = vec![
        "@7".to_string(),
        "D=A".to_string(),
        "@SP".to_string(),
        "A=M".to_string(),
        "M=D".to_string(),
        "@SP".to_string(),
        "M=M+1".to_string(),
    ];
    let result = push_constant("7");
    assert_eq!(result, expected_result)
}

#[test]
fn generate_new_return_address() {
    let mut return_address_generator = ReturnAddressGenerator::new();
    let return_address: String = return_address_generator.generate_new_return_address();
    assert_eq!("Return_address.1", return_address)
}

#[test]
fn increment_counter() {
    let mut return_address_generator = ReturnAddressGenerator::new();
    let _ = return_address_generator.generate_new_return_address();
    assert_eq!(1, return_address_generator.counter());

    let _ = return_address_generator.generate_new_return_address();
    assert_eq!(2, return_address_generator.counter())
}
