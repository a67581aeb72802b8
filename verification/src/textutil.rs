//! Decimal rendering and the log lines the platform emits around program
//! execution: the invoke/success/returned bookends and the program-log
//! prefix.

use crate::account::{pubkey_bytes, Pubkey};
use crate::encodings::{bs58_encode, bs58_of};
use vstd::prelude::*;

verus! {

pub open spec fn spec_digit_char(d: int) -> char {
    if d == 0 {
        '0'
    } else if d == 1 {
        '1'
    } else if d == 2 {
        '2'
    } else if d == 3 {
        '3'
    } else if d == 4 {
        '4'
    } else if d == 5 {
        '5'
    } else if d == 6 {
        '6'
    } else if d == 7 {
        '7'
    } else if d == 8 {
        '8'
    } else {
        '9'
    }
}

/// The decimal digits of `n`, most significant first.
pub open spec fn spec_decimal(n: int) -> Seq<char>
    decreases n,
{
    if n < 10 {
        seq![spec_digit_char(n)]
    } else {
        spec_decimal(n / 10).push(spec_digit_char(n % 10))
    }
}

fn digit_str(d: u64) -> (r: &'static str)
    requires
        d < 10,
    ensures
        r@ == seq![spec_digit_char(d as int)],
{
    proof {
        reveal_strlit("0");
        reveal_strlit("1");
        reveal_strlit("2");
        reveal_strlit("3");
        reveal_strlit("4");
        reveal_strlit("5");
        reveal_strlit("6");
        reveal_strlit("7");
        reveal_strlit("8");
        reveal_strlit("9");
    }
    let r = match d {
        0 => "0",
        1 => "1",
        2 => "2",
        3 => "3",
        4 => "4",
        5 => "5",
        6 => "6",
        7 => "7",
        8 => "8",
        _ => "9",
    };
    proof {
        assert(r@ =~= seq![spec_digit_char(d as int)]);
    }
    r
}

/// Render `n` in decimal.
pub fn u64_to_string(n: u64) -> (r: String)
    ensures
        r@ == spec_decimal(n as int),
    decreases n,
{
    if n < 10 {
        String::from_str(digit_str(n))
    } else {
        proof {
            assert(n / 10 < n) by (nonlinear_arith)
                requires
                    n >= 10,
            ;
        }
        let s = u64_to_string(n / 10);
        let r = s.concat(digit_str(n % 10));
        proof {
            assert(spec_decimal((n / 10) as int) + seq![spec_digit_char((n % 10) as int)]
                =~= spec_decimal(n as int));
        }
        r
    }
}

/// The base58 text of a pubkey.
pub open spec fn spec_pubkey_text(pk: Pubkey) -> Seq<char> {
    bs58_of(pubkey_bytes(pk))
}

pub fn pubkey_to_string(pk: &Pubkey) -> (r: String)
    ensures
        r@ == spec_pubkey_text(*pk),
{
    let b = pk.to_bytes();
    bs58_encode(&b)
}

/// `Program <id> invoke [<depth>]`
pub open spec fn spec_invoke_log(pk: Pubkey, depth: u8) -> Seq<char> {
    "Program "@ + spec_pubkey_text(pk) + " invoke ["@ + spec_decimal(depth as int) + "]"@
}

pub fn invoke_log(pk: &Pubkey, depth: u8) -> (r: String)
    ensures
        r@ == spec_invoke_log(*pk, depth),
{
    let r = String::from_str("Program ").concat(pubkey_to_string(pk).as_str()).concat(
        " invoke [",
    ).concat(u64_to_string(depth as u64).as_str()).concat("]");
    r
}

/// `Program <id> success`
pub open spec fn spec_success_log(pk: Pubkey) -> Seq<char> {
    "Program "@ + spec_pubkey_text(pk) + " success"@
}

pub fn success_log(pk: &Pubkey) -> (r: String)
    ensures
        r@ == spec_success_log(*pk),
{
    String::from_str("Program ").concat(pubkey_to_string(pk).as_str()).concat(" success")
}

/// `Program <id> returned: <code>`; the error is shown as its numeric code.
pub open spec fn spec_returned_log(pk: Pubkey, code: u64) -> Seq<char> {
    "Program "@ + spec_pubkey_text(pk) + " returned: "@ + spec_decimal(code as int)
}

pub fn returned_log(pk: &Pubkey, code: u64) -> (r: String)
    ensures
        r@ == spec_returned_log(*pk, code),
{
    String::from_str("Program ").concat(pubkey_to_string(pk).as_str()).concat(
        " returned: ",
    ).concat(u64_to_string(code).as_str())
}

/// `Program logged: <message>`
pub open spec fn spec_program_log(msg: Seq<char>) -> Seq<char> {
    "Program logged: "@ + msg
}

pub fn program_log(msg: &str) -> (r: String)
    ensures
        r@ == spec_program_log(msg@),
{
    String::from_str("Program logged: ").concat(msg)
}

/// `Program panicked: <message>`
pub open spec fn spec_panic_log(msg: Seq<char>) -> Seq<char> {
    "Program panicked: "@ + msg
}

pub fn panic_log(msg: &str) -> (r: String)
    ensures
        r@ == spec_panic_log(msg@),
{
    String::from_str("Program panicked: ").concat(msg)
}

} // verus!
