use rustv::backend::gen::{gen, gen_add, gen_sub};
use rustv::front_end::ir::{Chunk, IR};
use rustv::front_end::lexer::Token;
use rustv::front_end::scanner::Scanner;

#[test]
fn scanner_reads_letters_and_parentheses() {
    let mut scanner = Scanner::new("(aЯ)".to_string());
    assert_eq!(scanner.scan(), Ok(Token::LParen));
    assert_eq!(scanner.scan(), Ok(Token::Identifier("a".to_string())));
    assert_eq!(scanner.scan(), Ok(Token::Identifier("Я".to_string())));
    assert_eq!(scanner.scan(), Ok(Token::RParen));
}

#[test]
fn scanner_reads_each_letter_as_a_word_of_its_own() {
    let mut scanner = Scanner::new("zZаяАб".to_string());
    for letter in ["z", "Z", "а", "я", "А", "б"] {
        assert_eq!(scanner.scan(), Ok(Token::Identifier(letter.to_string())));
    }
}

#[test]
fn a_chunk_keeps_its_operations_in_order() {
    let mut chunk = Chunk::new();
    assert!(chunk.ops.is_empty());
    chunk.add(IR::OP_ADD);
    chunk.add(IR::OP_DIV);
    chunk.add(IR::OP_SUB);
    chunk.add(IR::OP_MUL);
    assert_eq!(chunk.ops, vec![IR::OP_ADD, IR::OP_DIV, IR::OP_SUB, IR::OP_MUL]);
}

#[test]
fn the_generated_program_is_fixed() {
    assert_eq!(
        gen(),
        "global _start\nsection .text\n_start:\n    ; generated code\n    mov rax, 60\n    mov rdi, 69\n    syscall\n"
    );
}

#[test]
fn addition_loads_both_constants_and_adds() {
    assert_eq!(
        gen_add(5, -3),
        "    ; add instruction\n    mov rax, 5\n    mov rbx, -3\n    add rax, rbx\n"
    );
    assert_eq!(
        gen_add(i32::MIN, i32::MAX),
        "    ; add instruction\n    mov rax, -2147483648\n    mov rbx, 2147483647\n    add rax, rbx\n"
    );
}

#[test]
fn subtraction_loads_both_constants_and_subtracts() {
    assert_eq!(
        gen_sub(0, 10),
        "    ; sub instruction\n    mov rax, 0\n    mov rbx, 10\n    sub rax, rbx\n"
    );
}
