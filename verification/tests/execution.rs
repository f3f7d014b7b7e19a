use std::collections::HashMap;
use virtual_machine::code_writer::CodeWriter;
use virtual_machine::translator::translate;

/// A small interpreter of the target machine, enough to run what the
/// translator writes.
struct Cpu {
    ram: Vec<u16>,
    a: u16,
    d: u16,
    pc: usize,
}

fn predefined(name: &str) -> Option<u16> {
    match name {
        "SP" => Some(0),
        "LCL" => Some(1),
        "ARG" => Some(2),
        "THIS" => Some(3),
        "THAT" => Some(4),
        "SCREEN" => Some(0x4000),
        "KBD" => Some(0x6000),
        _ => {
            let number = name.strip_prefix('R')?.parse::<u16>().ok()?;
            if number < 16 {
                Some(number)
            } else {
                None
            }
        }
    }
}

fn assemble(code: &[String]) -> (Vec<String>, HashMap<String, u16>) {
    let mut symbols: HashMap<String, u16> = HashMap::new();
    let mut program: Vec<String> = Vec::new();
    for line in code {
        if line.starts_with('(') {
            let name = &line[1..line.len() - 1];
            symbols.insert(name.to_string(), program.len() as u16);
        } else {
            program.push(line.clone());
        }
    }
    let mut next_variable: u16 = 16;
    for line in &program {
        if let Some(name) = line.strip_prefix('@') {
            let known = name.parse::<u16>().is_ok()
                || predefined(name).is_some()
                || symbols.contains_key(name);
            if !known {
                symbols.insert(name.to_string(), next_variable);
                next_variable += 1;
            }
        }
    }
    (program, symbols)
}

fn operand(cpu: &Cpu, name: char) -> u16 {
    match name {
        '0' => 0,
        '1' => 1,
        'D' => cpu.d,
        'A' => cpu.a,
        'M' => cpu.ram[(cpu.a & 0x7fff) as usize],
        other => panic!("no operand {}", other),
    }
}

fn compute(cpu: &Cpu, comp: &str) -> u16 {
    let c: Vec<char> = comp.chars().collect();
    match c.len() {
        1 => operand(cpu, c[0]),
        2 => {
            let x = operand(cpu, c[1]);
            if c[0] == '-' {
                x.wrapping_neg()
            } else {
                !x
            }
        }
        3 => {
            let x = operand(cpu, c[0]);
            let y = operand(cpu, c[2]);
            match c[1] {
                '+' => x.wrapping_add(y),
                '-' => x.wrapping_sub(y),
                '&' => x & y,
                '|' => x | y,
                other => panic!("no operator {}", other),
            }
        }
        _ => panic!("no computation {}", comp),
    }
}

fn step(cpu: &mut Cpu, line: &str, symbols: &HashMap<String, u16>) {
    if let Some(name) = line.strip_prefix('@') {
        cpu.a = match name.parse::<u16>() {
            Ok(number) => number,
            Err(_) => predefined(name).unwrap_or_else(|| symbols[name]),
        };
        cpu.pc += 1;
        return;
    }
    let (dest, rest) = match line.split_once('=') {
        Some((dest, rest)) => (dest, rest),
        None => ("", line),
    };
    let (comp, jump) = match rest.split_once(';') {
        Some((comp, jump)) => (comp, jump),
        None => (rest, ""),
    };
    let value = compute(cpu, comp);
    let address = (cpu.a & 0x7fff) as usize;
    let target = cpu.a as usize;
    if dest.contains('M') {
        cpu.ram[address] = value;
    }
    if dest.contains('A') {
        cpu.a = value;
    }
    if dest.contains('D') {
        cpu.d = value;
    }
    let signed = value as i16;
    let taken = match jump {
        "" => false,
        "JMP" => true,
        "JEQ" => signed == 0,
        "JNE" => signed != 0,
        "JGT" => signed > 0,
        "JGE" => signed >= 0,
        "JLT" => signed < 0,
        "JLE" => signed <= 0,
        other => panic!("no jump {}", other),
    };
    cpu.pc = if taken { target } else { cpu.pc + 1 };
}

/// Runs `code` from its first line until the program counter leaves it or
/// reaches the label `stop`.
fn run(code: &[String], ram: Vec<u16>, stop: Option<&str>) -> Cpu {
    let (program, symbols) = assemble(code);
    let stop_at = stop.map(|name| symbols[name] as usize);
    let mut cpu = Cpu { ram, a: 0, d: 0, pc: 0 };
    let mut steps = 0;
    while cpu.pc < program.len() && Some(cpu.pc) != stop_at {
        let line = program[cpu.pc].clone();
        step(&mut cpu, &line, &symbols);
        steps += 1;
        assert!(steps < 100_000, "the program does not stop");
    }
    cpu
}

fn memory(sp: u16) -> Vec<u16> {
    let mut ram = vec![0u16; 0x8000];
    ram[0] = sp;
    ram
}

fn source(lines: &[&str]) -> Vec<String> {
    lines.iter().map(|s| s.to_string()).collect()
}

fn translated(lines: &[&str]) -> Vec<String> {
    translate(source(lines), "Test.vm".to_string()).unwrap()
}

#[test]
fn add_leaves_the_sum_on_the_stack() {
    let code = translated(&["push constant 7", "push constant 8", "add"]);
    let cpu = run(&code, memory(256), None);
    assert_eq!(cpu.ram[0], 257);
    assert_eq!(cpu.ram[256], 15);
}

#[test]
fn neg_negates_the_top_of_the_stack() {
    let code = translated(&["push constant 5", "neg"]);
    let cpu = run(&code, memory(256), None);
    assert_eq!(cpu.ram[0], 257);
    assert_eq!(cpu.ram[256] as i16, -5);
}

#[test]
fn push_local_reads_the_cell_above_the_base() {
    let code = translated(&["push local 1"]);
    let mut ram = memory(256);
    ram[1] = 1000;
    ram[1000] = 11;
    ram[1001] = 4321;
    ram[1002] = 33;
    let cpu = run(&code, ram, None);
    assert_eq!(cpu.ram[0], 257);
    assert_eq!(cpu.ram[256], 4321);
}

#[test]
fn binary_commands_take_the_left_operand_first() {
    let cpu = run(&translated(&["push constant 9", "push constant 4", "sub"]), memory(256), None);
    assert_eq!((cpu.ram[0], cpu.ram[256]), (257, 5));
    let cpu = run(&translated(&["push constant 12", "push constant 10", "and"]), memory(256), None);
    assert_eq!((cpu.ram[0], cpu.ram[256]), (257, 8));
    let cpu = run(&translated(&["push constant 12", "push constant 10", "or"]), memory(256), None);
    assert_eq!((cpu.ram[0], cpu.ram[256]), (257, 14));
    let cpu = run(&translated(&["push constant 0", "not"]), memory(256), None);
    assert_eq!((cpu.ram[0], cpu.ram[256]), (257, 0xffff));
}

#[test]
fn comparisons_push_all_ones_or_zero() {
    let cases = [
        ("eq", 3, 3, 0xffff),
        ("eq", 3, 4, 0),
        ("gt", 4, 3, 0xffff),
        ("gt", 3, 4, 0),
        ("gt", 3, 3, 0),
        ("lt", 3, 4, 0xffff),
        ("lt", 4, 3, 0),
        ("lt", 3, 3, 0),
    ];
    for (command, left, right, expected) in cases {
        let push_left = format!("push constant {}", left);
        let push_right = format!("push constant {}", right);
        let code = translated(&[&push_left, &push_right, command]);
        let cpu = run(&code, memory(256), None);
        assert_eq!(cpu.ram[0], 257, "{} {} {}", left, command, right);
        assert_eq!(cpu.ram[256], expected, "{} {} {}", left, command, right);
    }
}

#[test]
fn several_comparisons_do_not_disturb_each_other() {
    let code = translated(&[
        "push constant 1",
        "push constant 2",
        "lt",
        "push constant 2",
        "push constant 1",
        "lt",
        "push constant 5",
        "push constant 5",
        "eq",
    ]);
    let cpu = run(&code, memory(256), None);
    assert_eq!(cpu.ram[0], 259);
    assert_eq!(&cpu.ram[256..259], &[0xffff, 0, 0xffff]);
}

#[test]
fn push_then_pop_leaves_the_variable_and_the_stack() {
    let segments = [
        ("local", 2, 302),
        ("argument", 1, 401),
        ("this", 0, 3000),
        ("that", 5, 3015),
        ("pointer", 1, 4),
        ("temp", 3, 8),
        ("static", 4, 16),
    ];
    for (segment, index, cell) in segments {
        let push = format!("push {} {}", segment, index);
        let pop = format!("pop {} {}", segment, index);
        let code = translated(&[&push, &pop]);
        let mut ram = memory(256);
        ram[1] = 300;
        ram[2] = 400;
        ram[3] = 3000;
        ram[4] = 3010;
        ram[cell] = if cell == 4 { 3010 } else { 777 };
        let before = ram.clone();
        let cpu = run(&code, ram, None);
        for k in 0..0x8000 {
            if k != 13 && k != 256 {
                assert_eq!(cpu.ram[k], before[k], "{} {} cell {}", segment, index, k);
            }
        }
    }
}

#[test]
fn pop_stores_the_top_of_the_stack() {
    let code = translated(&["push constant 21", "pop temp 2", "push constant 9", "pop static 0"]);
    let cpu = run(&code, memory(256), None);
    assert_eq!(cpu.ram[0], 256);
    assert_eq!(cpu.ram[7], 21);
    assert_eq!(cpu.ram[16], 9);
}

#[test]
fn if_goto_jumps_on_a_value_that_is_not_zero() {
    let program = [
        "push constant 0",
        "if-goto SKIP",
        "push constant 1",
        "pop temp 0",
        "label SKIP",
        "push constant 3",
        "if-goto END",
        "push constant 2",
        "pop temp 1",
        "label END",
    ];
    let cpu = run(&translated(&program), memory(256), None);
    assert_eq!(cpu.ram[0], 256);
    assert_eq!(cpu.ram[5], 1);
    assert_eq!(cpu.ram[6], 0);
}

#[test]
fn goto_jumps_always() {
    let program = ["goto END", "push constant 1", "pop temp 0", "label END"];
    let cpu = run(&translated(&program), memory(256), None);
    assert_eq!(cpu.ram[0], 256);
    assert_eq!(cpu.ram[5], 0);
}

#[test]
fn return_restores_what_call_has_saved() {
    let program = [
        "push constant 10",
        "push constant 20",
        "call Sum 2",
        "goto END",
        "function Sum 1",
        "push argument 0",
        "push argument 1",
        "add",
        "pop local 0",
        "push local 0",
        "return",
        "label END",
    ];
    let code = translated(&program);
    let mut ram = memory(256);
    ram[1] = 1111;
    ram[2] = 2222;
    ram[3] = 3333;
    ram[4] = 4444;
    let cpu = run(&code, ram, Some("Return_address.1"));
    assert_eq!(cpu.ram[1], 1111);
    assert_eq!(cpu.ram[2], 2222);
    assert_eq!(cpu.ram[3], 3333);
    assert_eq!(cpu.ram[4], 4444);
    assert_eq!(cpu.ram[0], 257);
    assert_eq!(cpu.ram[256], 30);
}

#[test]
fn call_pushes_the_frame_in_order() {
    let mut writer = CodeWriter::new("Test.vm".to_string());
    writer.write_call("Foo", "0").unwrap();
    writer.write_function("Foo", "0").unwrap();
    let mut ram = memory(256);
    ram[1] = 1111;
    ram[2] = 2222;
    ram[3] = 3333;
    ram[4] = 4444;
    let code = writer.generated_code().clone();
    let (_, symbols) = assemble(&code);
    let cpu = run(&code, ram, None);
    assert_eq!(cpu.ram[256], symbols["Return_address.1"]);
    assert_eq!(&cpu.ram[257..261], &[1111, 2222, 3333, 4444]);
    assert_eq!(cpu.ram[0], 261);
    assert_eq!(cpu.ram[1], 261);
    assert_eq!(cpu.ram[2], 256);
}

#[test]
fn function_clears_its_local_variables() {
    let code = translated(&["function Foo 3"]);
    let mut ram = memory(256);
    ram[256] = 9;
    ram[257] = 9;
    ram[258] = 9;
    let cpu = run(&code, ram, None);
    assert_eq!(cpu.ram[0], 259);
    assert_eq!(&cpu.ram[256..259], &[0, 0, 0]);
}
