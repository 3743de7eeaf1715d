use vstd::prelude::*;

use crate::hardware::{n_of, nn_of, nnn_of, op_of, x_of, y_of};

verus! {

/// The digit character for `d < 16`, lowercase.
pub open spec fn digit_char(d: nat) -> char {
    seq!['0', '1', '2', '3', '4', '5', '6', '7', '8', '9', 'a', 'b', 'c', 'd', 'e', 'f'][d as int]
}

/// `v` in lowercase hexadecimal, without prefix or leading zeros.
pub open spec fn hex_text(v: nat) -> Seq<char>
    decreases v,
{
    if v < 16 {
        seq![digit_char(v)]
    } else {
        hex_text(v / 16) + seq![digit_char(v % 16)]
    }
}

/// `v` in decimal, without leading zeros.
pub open spec fn dec_text(v: nat) -> Seq<char>
    decreases v,
{
    if v < 10 {
        seq![digit_char(v)]
    } else {
        dec_text(v / 10) + seq![digit_char(v % 10)]
    }
}

/// Relies on std's `{:x}` formatting of an integer: lowercase hexadecimal
/// digits without prefix, padding or leading zeros.
#[verifier::external_body]
fn hex_string(v: u16) -> (r: String)
    ensures
        r@ == hex_text(v as nat),
{
    format!("{v:x}")
}

/// Relies on std's `{}` formatting of an integer: decimal digits without
/// padding or leading zeros.
#[verifier::external_body]
fn dec_string(v: u16) -> (r: String)
    ensures
        r@ == dec_text(v as nat),
{
    format!("{v}")
}

/// The one-line description of an instruction shown by the debugger; empty
/// for a word outside the instruction set.
pub open spec fn op_text(instr: u16) -> Seq<char> {
    let op = op_of(instr);
    let low = instr % 0x100;
    let n = n_of(instr);
    let x = dec_text(x_of(instr) as nat);
    let y = dec_text(y_of(instr) as nat);
    let nn = hex_text(nn_of(instr) as nat);
    let nnn = hex_text(nnn_of(instr) as nat);
    if instr == 0x00E0 {
        "clear"@
    } else if instr == 0x00EE {
        "return from subroutine"@
    } else if op == 1 {
        "jmp to "@ + nnn
    } else if op == 2 {
        "push subroutine "@ + nnn
    } else if op == 3 {
        "skip if r["@ + x + "] == "@ + nn
    } else if op == 4 {
        "skip if r["@ + x + "] != "@ + nn
    } else if op == 5 && n == 0 {
        "skip if r["@ + x + "] == r["@ + y + "]"@
    } else if op == 6 {
        "r["@ + x + "] = "@ + nn
    } else if op == 7 {
        "r["@ + x + "] += "@ + nn
    } else if op == 8 && n == 0 {
        "r["@ + x + "] = r["@ + y + "]"@
    } else if op == 8 && n == 1 {
        "r["@ + x + "] = r["@ + x + "] | r["@ + y + "]"@
    } else if op == 8 && n == 2 {
        "r["@ + x + "] = r["@ + x + "] & r["@ + y + "]"@
    } else if op == 8 && n == 3 {
        "r["@ + x + "] = r["@ + x + "] ^ r["@ + y + "]"@
    } else if op == 8 && n == 4 {
        "r["@ + x + "] = r["@ + x + "] + r["@ + y + "]"@
    } else if op == 8 && n == 5 {
        "r["@ + x + "] = r["@ + x + "] - r["@ + y + "]"@
    } else if op == 8 && n == 6 {
        "r["@ + x + "] = r["@ + x + "] >> 1"@
    } else if op == 8 && n == 7 {
        "r["@ + x + "] = r["@ + y + "] - r["@ + x + "]"@
    } else if op == 8 && n == 0xE {
        "r["@ + x + "] = r["@ + x + "] << 1"@
    } else if op == 9 && n == 0 {
        "skip if r["@ + x + "] != r["@ + y + "]"@
    } else if op == 0xA {
        "i = "@ + dec_text(nnn_of(instr) as nat)
    } else if op == 0xB {
        "pc = r["@ + x + "] + "@ + nnn
    } else if op == 0xC {
        "rand & "@ + nn
    } else if op == 0xD {
        "draw at x=r["@ + x + "],y=r["@ + y + "]"@
    } else if op == 0xE && low == 0x9E {
        "skip if r["@ + x + "]) pressed"@
    } else if op == 0xE && low == 0xA1 {
        "skip if r["@ + x + "]) not pressed"@
    } else if op == 0xF && low == 0x07 {
        "r["@ + x + "] = delay"@
    } else if op == 0xF && low == 0x15 {
        "delay = r["@ + x + "]"@
    } else if op == 0xF && low == 0x18 {
        "sound = r["@ + x + "]"@
    } else if op == 0xF && low == 0x1E {
        "i += r["@ + x + "]"@
    } else if op == 0xF && low == 0x0A {
        "wait for any keypres"@
    } else if op == 0xF && low == 0x29 {
        "i = r["@ + x + "]th CHAR"@
    } else if op == 0xF && low == 0x55 {
        "store regs in mem"@
    } else if op == 0xF && low == 0x65 {
        "load regs from mem"@
    } else {
        ""@
    }
}

/// Describes an instruction for the debugger.
pub fn map_op(instr: u16) -> (r: String)
    ensures
        r@ == op_text(instr),
{
    let op = instr / 0x1000;
    let low = instr % 0x100;
    let n = instr % 0x10;
    let x = dec_string((instr / 0x100) % 0x10);
    let x = x.as_str();
    let y = dec_string((instr / 0x10) % 0x10);
    let y = y.as_str();
    let nn = hex_string(instr % 0x100);
    let nn = nn.as_str();
    let nnn = hex_string(instr % 0x1000);
    let nnn = nnn.as_str();
    if instr == 0x00E0 {
        String::from_str("clear")
    } else if instr == 0x00EE {
        String::from_str("return from subroutine")
    } else if op == 1 {
        String::from_str("jmp to ").concat(nnn)
    } else if op == 2 {
        String::from_str("push subroutine ").concat(nnn)
    } else if op == 3 {
        String::from_str("skip if r[").concat(x).concat("] == ").concat(nn)
    } else if op == 4 {
        String::from_str("skip if r[").concat(x).concat("] != ").concat(nn)
    } else if op == 5 && n == 0 {
        String::from_str("skip if r[").concat(x).concat("] == r[").concat(y).concat("]")
    } else if op == 6 {
        String::from_str("r[").concat(x).concat("] = ").concat(nn)
    } else if op == 7 {
        String::from_str("r[").concat(x).concat("] += ").concat(nn)
    } else if op == 8 && n == 0 {
        String::from_str("r[").concat(x).concat("] = r[").concat(y).concat("]")
    } else if op == 8 && n == 1 {
        String::from_str("r[").concat(x).concat("] = r[").concat(x).concat("] | r[").concat(y).concat("]")
    } else if op == 8 && n == 2 {
        String::from_str("r[").concat(x).concat("] = r[").concat(x).concat("] & r[").concat(y).concat("]")
    } else if op == 8 && n == 3 {
        String::from_str("r[").concat(x).concat("] = r[").concat(x).concat("] ^ r[").concat(y).concat("]")
    } else if op == 8 && n == 4 {
        String::from_str("r[").concat(x).concat("] = r[").concat(x).concat("] + r[").concat(y).concat("]")
    } else if op == 8 && n == 5 {
        String::from_str("r[").concat(x).concat("] = r[").concat(x).concat("] - r[").concat(y).concat("]")
    } else if op == 8 && n == 6 {
        String::from_str("r[").concat(x).concat("] = r[").concat(x).concat("] >> 1")
    } else if op == 8 && n == 7 {
        String::from_str("r[").concat(x).concat("] = r[").concat(y).concat("] - r[").concat(x).concat("]")
    } else if op == 8 && n == 0xE {
        String::from_str("r[").concat(x).concat("] = r[").concat(x).concat("] << 1")
    } else if op == 9 && n == 0 {
        String::from_str("skip if r[").concat(x).concat("] != r[").concat(y).concat("]")
    } else if op == 0xA {
        let nnn_dec = dec_string(instr % 0x1000);
        String::from_str("i = ").concat(nnn_dec.as_str())
    } else if op == 0xB {
        String::from_str("pc = r[").concat(x).concat("] + ").concat(nnn)
    } else if op == 0xC {
        String::from_str("rand & ").concat(nn)
    } else if op == 0xD {
        String::from_str("draw at x=r[").concat(x).concat("],y=r[").concat(y).concat("]")
    } else if op == 0xE && low == 0x9E {
        String::from_str("skip if r[").concat(x).concat("]) pressed")
    } else if op == 0xE && low == 0xA1 {
        String::from_str("skip if r[").concat(x).concat("]) not pressed")
    } else if op == 0xF && low == 0x07 {
        String::from_str("r[").concat(x).concat("] = delay")
    } else if op == 0xF && low == 0x15 {
        String::from_str("delay = r[").concat(x).concat("]")
    } else if op == 0xF && low == 0x18 {
        String::from_str("sound = r[").concat(x).concat("]")
    } else if op == 0xF && low == 0x1E {
        String::from_str("i += r[").concat(x).concat("]")
    } else if op == 0xF && low == 0x0A {
        String::from_str("wait for any keypres")
    } else if op == 0xF && low == 0x29 {
        String::from_str("i = r[").concat(x).concat("]th CHAR")
    } else if op == 0xF && low == 0x55 {
        String::from_str("store regs in mem")
    } else if op == 0xF && low == 0x65 {
        String::from_str("load regs from mem")
    } else {
        String::from_str("")
    }
}

} // verus!
