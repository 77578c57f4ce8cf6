//! Tests of the disassembler and of value display forms.

use stack_vm::byte_reader::push_u32_be;
use stack_vm::chunk::Chunk;
use stack_vm::disassembler::disassemble_chunk;
use stack_vm::value::Value;
use stack_vm::vm::{Error, OP_ADD, OP_LOAD_LITERAL, OP_RETURN, VM};

fn emit(code: &mut Vec<u8>, opcode: u8, operands: &[u32], source_offset: u32) {
    code.push(opcode);
    for w in operands {
        push_u32_be(code, *w);
    }
    push_u32_be(code, source_offset);
}

fn adding_chunk() -> Chunk {
    let mut chunk = Chunk::new();
    chunk.literals.push(Value::Integer(120));
    chunk.literals.push(Value::Integer(130));
    emit(&mut chunk.bytecode, OP_LOAD_LITERAL, &[0], 0);
    emit(&mut chunk.bytecode, OP_LOAD_LITERAL, &[1], 0);
    emit(&mut chunk.bytecode, OP_ADD, &[], 0);
    emit(&mut chunk.bytecode, OP_RETURN, &[], 0);
    chunk
}

#[test]
fn display_forms() {
    assert_eq!(Value::Integer(0).display_string(), "0");
    assert_eq!(Value::Integer(120).display_string(), "120");
    assert_eq!(Value::Integer(u64::MAX).display_string(), "18446744073709551615");
    assert_eq!(Value::String("abc".to_owned()).display_string(), "\"abc\"");
    assert_eq!(Value::String("".to_owned()).display_string(), "\"\"");
}

#[test]
fn disassembly_stability() {
    let chunk = adding_chunk();
    let text = disassemble_chunk(&chunk, "main").unwrap();
    // One unused operand slot prints as a space and four blank columns.
    let blank_slot = "     ";
    let mut expected = String::new();
    expected.push_str("-- main --\n");
    expected.push_str("main.data:\n");
    expected.push_str("  0000 120\n");
    expected.push_str("  0001 130\n");
    expected.push_str("\n");
    expected.push_str("main.code:\n");
    expected.push_str(&format!("  0000 LoadLit  0000{}{} <0000>\n", blank_slot, blank_slot));
    expected.push_str(&format!("  0009 LoadLit  0001{}{} <0000>\n", blank_slot, blank_slot));
    expected.push_str(&format!("  0018 Add     {}{}{} <0000>\n", blank_slot, blank_slot, blank_slot));
    expected.push_str(&format!("  0023 Return  {}{}{} <0000>\n", blank_slot, blank_slot, blank_slot));
    expected.push_str("\n");
    assert_eq!(text, expected);

    // Exactly two literal lines and four instruction lines, with offsets
    // advancing by 1 + 4 * operand_count + 4 per instruction.
    let literal_lines: Vec<&str> = text
        .lines()
        .filter(|l| l.starts_with("  000") && !l.contains('<'))
        .collect();
    assert_eq!(literal_lines, vec!["  0000 120", "  0001 130"]);
    let code_lines: Vec<&str> = text.lines().filter(|l| l.contains('<')).collect();
    assert_eq!(code_lines.len(), 4);
    let offsets: Vec<usize> = code_lines
        .iter()
        .map(|l| l[2..6].parse::<usize>().unwrap())
        .collect();
    assert_eq!(offsets, vec![0, 9, 18, 23]);
}

#[test]
fn disassembly_prints_source_offsets() {
    let mut chunk = Chunk::new();
    emit(&mut chunk.bytecode, OP_RETURN, &[], 17);
    let text = disassemble_chunk(&chunk, "m").unwrap();
    let blank_slot = "     ";
    let expected = format!(
        "-- m --\nm.data:\n\nm.code:\n  0000 Return  {}{}{} <0017>\n\n",
        blank_slot, blank_slot, blank_slot
    );
    assert_eq!(text, expected);
}

#[test]
fn disassembly_quotes_string_literals() {
    let mut chunk = Chunk::new();
    chunk.literals.push(Value::String("test/file.emx".to_owned()));
    emit(&mut chunk.bytecode, OP_RETURN, &[], 0);
    let text = disassemble_chunk(&chunk, "main").unwrap();
    assert!(text.contains("  0000 \"test/file.emx\"\n"));
}

#[test]
fn disassembly_rejects_unknown_opcode() {
    let mut chunk = Chunk::new();
    emit(&mut chunk.bytecode, OP_RETURN, &[], 0);
    chunk.bytecode.push(9);
    let result = disassemble_chunk(&chunk, "main");
    assert_eq!(result, Err(Error::UnknownOpcode { byte: 9, offset: 5 }));
}

#[test]
fn disassembly_rejects_truncated_instruction() {
    let mut chunk = Chunk::new();
    chunk.bytecode.push(OP_LOAD_LITERAL);
    chunk.bytecode.extend([0, 0, 0, 1]);
    let result = disassemble_chunk(&chunk, "main");
    assert_eq!(result, Err(Error::TruncatedInstruction { offset: 0 }));
}

#[test]
fn disassembly_of_wide_values_keeps_full_digits() {
    let mut chunk = Chunk::new();
    emit(&mut chunk.bytecode, OP_LOAD_LITERAL, &[70000], 123456);
    chunk.literals.push(Value::Integer(1));
    // The operand is out of range for execution but disassembles fine.
    let text = disassemble_chunk(&chunk, "w").unwrap();
    let blank_slot = "     ";
    let line = format!(" LoadLit  70000{}{} <123456>\n", blank_slot, blank_slot);
    assert!(text.contains(&line));
}

#[test]
fn vm_disassemble_delegates() {
    let chunk = adding_chunk();
    let vm = VM::new();
    let via_vm = vm.disassemble(&chunk, "main").unwrap();
    let direct = disassemble_chunk(&chunk, "main").unwrap();
    assert_eq!(via_vm, direct);
}
