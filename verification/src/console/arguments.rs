//! The arguments of a console line and the words it answers with.

use vstd::prelude::*;

use crate::tpm::constants::alg;
use crate::tpm::error::TpmRc;
use crate::util::text::{
    decimal, decimal_of, decode_hex, hex_number, hex_of, octets_in, parse_number, same, texts,
    unsigned_in,
};
use vstd::utf8::encode_utf8;

verus! {

/// What a command of the console answers, or what is wrong with it.
pub type Answer = Result<String, String>;

/// What an answer says.
pub open spec fn said(r: Answer) -> Result<Seq<char>, Seq<char>> {
    match r {
        Ok(s) => Ok(s@),
        Err(e) => Err(e@),
    }
}

/// The argument at a place.
pub open spec fn arg(args: Seq<Seq<char>>, i: int) -> Option<Seq<char>> {
    if 0 <= i < args.len() {
        Some(args[i])
    } else {
        None
    }
}

/// What a text that may be missing says.
pub open spec fn opt(t: Option<&str>) -> Option<Seq<char>> {
    match t {
        Some(s) => Some(s@),
        None => None,
    }
}

/// The argument at a place.
pub fn argument<'a>(args: &Vec<&'a str>, i: usize) -> (r: Option<&'a str>)
    ensures
        opt(r) == arg(texts(args@), i as int),
{
    if i < args.len() {
        Some(args[i])
    } else {
        None
    }
}

/// True when the argument at a place is that word.
pub fn argument_is(args: &Vec<&str>, i: usize, word: &str) -> (r: bool)
    ensures
        r == (arg(texts(args@), i as int) == Some(word@)),
{
    i < args.len() && same(args[i], word)
}

/// Two texts one after the other.
pub fn join2(a: &str, b: &str) -> (r: String)
    ensures
        r@ == a@ + b@,
{
    let mut out: String = String::from_str(a);
    out.append(b);
    out
}

/// Three texts one after the other.
pub fn join3(a: &str, b: &str, c: &str) -> (r: String)
    ensures
        r@ == a@ + b@ + c@,
{
    let mut out: String = String::from_str(a);
    out.append(b);
    out.append(c);
    out
}

/// The number a text stands for, in decimal, or in hexadecimal behind `0x`.
pub open spec fn number_value(t: Seq<char>) -> Option<u32> {
    if t.len() >= 2 && t[0] == '0' && (t[1] == 'x' || t[1] == 'X') {
        unsigned_in(t.skip(2), 16)
    } else {
        unsigned_in(t, 10)
    }
}

/// The number an argument stands for.
pub open spec fn number_of(t: Option<Seq<char>>, what: Seq<char>) -> Result<u32, Seq<char>> {
    match t {
        None => Err(what + " is needed"@),
        Some(t) => match number_value(t) {
            Some(n) => Ok(n),
            None => Err(what + " "@ + t + " is not a number"@),
        },
    }
}

/// The number an argument stands for.
pub fn number(text: Option<&str>, what: &str) -> (r: Result<u32, String>)
    ensures
        match number_of(opt(text), what@) {
            Ok(n) => r is Ok && r->Ok_0 == n,
            Err(e) => r is Err && r->Err_0@ == e,
        },
{
    let t: &str = match text {
        Some(t) => t,
        None => {
            return Err(join2(what, " is needed"));
        },
    };
    let n: usize = t.unicode_len();
    let hex: bool = n >= 2 && t.get_char(0) == '0' && (t.get_char(1) == 'x' || t.get_char(1)
        == 'X');
    let parsed: Option<u32> = if hex {
        let rest: &str = t.substring_char(2, n);
        assert(rest@ =~= t@.skip(2));
        parse_number(rest, 16)
    } else {
        parse_number(t, 10)
    };
    match parsed {
        Some(v) => Ok(v),
        None => {
            let mut e: String = join3(what, " ", t);
            e.append(" is not a number");
            Err(e)
        },
    }
}

/// The number of 16 bits an argument stands for.
pub open spec fn short_of(t: Option<Seq<char>>, what: Seq<char>) -> Result<u16, Seq<char>> {
    match number_of(t, what) {
        Err(e) => Err(e),
        Ok(n) => if n > 65535 {
            Err(what + " "@ + decimal_of(n as nat) + " is too large"@)
        } else {
            Ok(n as u16)
        },
    }
}

/// The number of 16 bits an argument stands for, so that no cast changes which
/// register or offset the line meant.
pub fn number_u16(text: Option<&str>, what: &str) -> (r: Result<u16, String>)
    ensures
        match short_of(opt(text), what@) {
            Ok(n) => r is Ok && r->Ok_0 == n,
            Err(e) => r is Err && r->Err_0@ == e,
        },
{
    let n: u32 = match number(text, what) {
        Ok(n) => n,
        Err(e) => {
            return Err(e);
        },
    };
    if n > 65535 {
        let d: String = decimal(n as u64);
        let mut e: String = join3(what, " ", d.as_str());
        e.append(" is too large");
        return Err(e);
    }
    Ok(n as u16)
}

/// The octets an argument stands for, at most `max` of them.
pub open spec fn bytes_of(t: Option<Seq<char>>, what: Seq<char>, max: nat) -> Result<
    Seq<u8>,
    Seq<char>,
> {
    match t {
        None => Err(what + " is needed"@),
        Some(t) => if encode_utf8(t).len() as usize > max * 2 {
            Err(what + " is at most "@ + decimal_of(max) + " octets"@)
        } else {
            match octets_in(t) {
                Some(d) => Ok(d),
                None => Err(what + " is not hex"@),
            }
        },
    }
}

/// The octets an argument stands for. The length is looked at before anything
/// is decoded.
pub fn bytes(text: Option<&str>, what: &str, max: usize) -> (r: Result<Vec<u8>, String>)
    requires
        max <= 0xFFFF,
    ensures
        match bytes_of(opt(text), what@, max as nat) {
            Ok(d) => r is Ok && r->Ok_0@ == d,
            Err(e) => r is Err && r->Err_0@ == e,
        },
{
    let t: &str = match text {
        Some(t) => t,
        None => {
            return Err(join2(what, " is needed"));
        },
    };
    if t.len() > max * 2 {
        let d: String = decimal(max as u64);
        let mut e: String = join3(what, " is at most ", d.as_str());
        e.append(" octets");
        return Err(e);
    }
    match decode_hex(t) {
        Some(d) => Ok(d),
        None => Err(join2(what, " is not hex")),
    }
}

/// A response code as the console says it.
pub open spec fn code_of(e: TpmRc) -> Seq<char> {
    hex_of(e.0 as nat, 8)
}

/// A response code as the console says it.
pub fn code(e: TpmRc) -> (r: String)
    ensures
        r@ == code_of(e),
{
    hex_number(e.0 as u64, 8)
}

/// What an algorithm is called.
pub open spec fn name_of_alg(a: u16) -> Seq<char> {
    if a == alg::RSA {
        "rsa"@
    } else if a == alg::ECC {
        "ecc"@
    } else if a == alg::KEYEDHASH {
        "keyedhash"@
    } else if a == alg::SYMCIPHER {
        "symcipher"@
    } else if a == alg::SHA1 {
        "sha1"@
    } else if a == alg::SHA256 {
        "sha256"@
    } else if a == alg::SHA384 {
        "sha384"@
    } else if a == alg::SHA512 {
        "sha512"@
    } else if a == alg::SM3_256 {
        "sm3_256"@
    } else if a == alg::AES {
        "aes"@
    } else if a == alg::NULL {
        "null"@
    } else {
        "0x"@ + hex_of(a as nat, 4)
    }
}

/// What an algorithm is called: its short name, or its value.
pub fn alg_name(a: u16) -> (r: String)
    ensures
        r@ == name_of_alg(a),
{
    if a == alg::RSA {
        String::from_str("rsa")
    } else if a == alg::ECC {
        String::from_str("ecc")
    } else if a == alg::KEYEDHASH {
        String::from_str("keyedhash")
    } else if a == alg::SYMCIPHER {
        String::from_str("symcipher")
    } else if a == alg::SHA1 {
        String::from_str("sha1")
    } else if a == alg::SHA256 {
        String::from_str("sha256")
    } else if a == alg::SHA384 {
        String::from_str("sha384")
    } else if a == alg::SHA512 {
        String::from_str("sha512")
    } else if a == alg::SM3_256 {
        String::from_str("sm3_256")
    } else if a == alg::AES {
        String::from_str("aes")
    } else if a == alg::NULL {
        String::from_str("null")
    } else {
        let h: String = hex_number(a as u64, 4);
        join2("0x", h.as_str())
    }
}

/// The hash algorithm a name stands for.
pub open spec fn alg_called(name: Seq<char>) -> Option<u16> {
    if name == "sha1"@ {
        Some(alg::SHA1)
    } else if name == "sha256"@ {
        Some(alg::SHA256)
    } else if name == "sha384"@ {
        Some(alg::SHA384)
    } else if name == "sha512"@ {
        Some(alg::SHA512)
    } else {
        None
    }
}

/// The hash algorithm a name stands for.
pub fn alg_value(name: &str) -> (r: Option<u16>)
    ensures
        r == alg_called(name@),
{
    if same(name, "sha1") {
        Some(alg::SHA1)
    } else if same(name, "sha256") {
        Some(alg::SHA256)
    } else if same(name, "sha384") {
        Some(alg::SHA384)
    } else if same(name, "sha512") {
        Some(alg::SHA512)
    } else {
        None
    }
}

} // verus!
