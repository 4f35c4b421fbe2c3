//! Assembly text for the target machine.
//!
//! Each function gives the text of a piece of a program; writing it to a file
//! is left to the caller.

use crate::decimal::{int_text, push_int_text};
use crate::text::string_from_chars;
use vstd::prelude::*;
use vstd::string::StringExecFns;

verus! {

/// The text of an instruction that loads the constant `n` into the register
/// named at the end of `head`: `head`, then `n` in decimal, then a newline.
pub open spec fn load_text(head: Seq<char>, n: int) -> Seq<char> {
    head + int_text(n) + seq!['\n']
}

/// The text that [`gen_add`] gives for `lhs` and `rhs`.
pub open spec fn add_text(lhs: int, rhs: int) -> Seq<char> {
    "    ; add instruction\n"@ + load_text("    mov rax, "@, lhs) + load_text(
        "    mov rbx, "@,
        rhs,
    ) + "    add rax, rbx\n"@
}

/// The text that [`gen_sub`] gives for `lhs` and `rhs`.
pub open spec fn sub_text(lhs: int, rhs: int) -> Seq<char> {
    "    ; sub instruction\n"@ + load_text("    mov rax, "@, lhs) + load_text(
        "    mov rbx, "@,
        rhs,
    ) + "    sub rax, rbx\n"@
}

/// Appends to `out` the instruction that loads `n`: `head`, `n` in decimal and
/// a newline.
fn push_load(out: &mut String, head: &str, n: i32)
    ensures
        final(out)@ == old(out)@ + load_text(head@, n as int),
{
    let mut digits: Vec<char> = Vec::new();
    push_int_text(n, &mut digits);
    digits.push('\n');
    assert(digits@ == int_text(n as int) + seq!['\n']);
    let tail = string_from_chars(digits);
    out.append(head);
    out.append(tail.as_str());
    assert(final(out)@ == old(out)@ + load_text(head@, n as int)) by {
        assert(old(out)@ + head@ + (int_text(n as int) + seq!['\n']) =~= old(out)@ + (head@
            + int_text(n as int) + seq!['\n']));
    }
}

/// The whole program that the back end emits so far, whatever the source: it
/// leaves with status 69.
pub fn gen() -> (text: String)
    ensures
        text@
            == "global _start\nsection .text\n_start:\n    ; generated code\n    mov rax, 60\n    mov rdi, 69\n    syscall\n"@,
{
    String::from_str(
        "global _start\nsection .text\n_start:\n    ; generated code\n    mov rax, 60\n    mov rdi, 69\n    syscall\n",
    )
}

/// The instructions that add the constants `lhs` and `rhs`.
pub fn gen_add(lhs: i32, rhs: i32) -> (text: String)
    ensures
        text@ == add_text(lhs as int, rhs as int),
{
    let mut text = String::from_str("    ; add instruction\n");
    push_load(&mut text, "    mov rax, ", lhs);
    push_load(&mut text, "    mov rbx, ", rhs);
    text.append("    add rax, rbx\n");
    text
}

/// The instructions that subtract the constant `rhs` from the constant `lhs`.
pub fn gen_sub(lhs: i32, rhs: i32) -> (text: String)
    ensures
        text@ == sub_text(lhs as int, rhs as int),
{
    let mut text = String::from_str("    ; sub instruction\n");
    push_load(&mut text, "    mov rax, ", lhs);
    push_load(&mut text, "    mov rbx, ", rhs);
    text.append("    sub rax, rbx\n");
    text
}

} // verus!
