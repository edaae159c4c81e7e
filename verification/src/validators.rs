//! Conversion-function validators: the front end hands a parenthesized
//! literal and the conversion's name; the value is checked and turned into
//! an actual parameter, or refused with a lexical error.
use vstd::prelude::*;

use crate::params::{ChkActualParam, ContentAddress};
use crate::strmap::str_eq;
use crate::strutil::trimmed;
use crate::tokens::{parse_duration_str, parse_path_str, strip_parens_and_trim, LexicalError};

verus! {

pub open spec fn is_dec_digit(c: char) -> bool {
    48 <= c as u32 <= 57
}

pub open spec fn is_octal_digit(c: char) -> bool {
    48 <= c as u32 <= 55
}

/// The number a sequence of decimal digits denotes.
pub open spec fn dec_value(s: Seq<char>) -> int
    decreases s.len(),
{
    if s.len() == 0 {
        0
    } else {
        dec_value(s.drop_last()) * 10 + (s.last() as u32 - 48)
    }
}

/// The digits of a port literal: everything past an optional leading plus
/// sign.
pub open spec fn port_digits(s: Seq<char>) -> Seq<char> {
    if s.len() > 0 && s[0] == '+' {
        s.drop_first()
    } else {
        s
    }
}

/// What `u16::parse` accepts as a port: an optional leading plus sign, then
/// at least one decimal digit, denoting a number up to 65535.
pub open spec fn valid_port_text(s: Seq<char>) -> bool {
    &&& port_digits(s).len() > 0
    &&& (forall|i: int|
        0 <= i < port_digits(s).len() ==> is_dec_digit(#[trigger] port_digits(s)[i]))
    &&& dec_value(port_digits(s)) <= 65535
}

proof fn lemma_dec_value_nonneg(s: Seq<char>)
    requires
        forall|i: int| 0 <= i < s.len() ==> is_dec_digit(#[trigger] s[i]),
    ensures
        dec_value(s) >= 0,
    decreases s.len(),
{
    if s.len() > 0 {
        lemma_dec_value_nonneg(s.drop_last());
    }
}

/// Digits appended on the right never shrink the number.
proof fn lemma_dec_value_monotone(s: Seq<char>, n: int)
    requires
        0 <= n <= s.len(),
        forall|i: int| 0 <= i < s.len() ==> is_dec_digit(#[trigger] s[i]),
    ensures
        dec_value(s.take(n)) <= dec_value(s),
    decreases s.len() - n,
{
    if n < s.len() {
        lemma_dec_value_monotone(s, n + 1);
        let t = s.take(n + 1);
        assert(t.drop_last() =~= s.take(n));
        lemma_dec_value_nonneg(s.take(n));
        assert(dec_value(s.take(n)) <= dec_value(s.take(n + 1)));
    } else {
        assert(s.take(n) =~= s);
    }
}

/// Decides whether a piece of text denotes a port number, as `u16`'s own
/// parsing would.
pub fn parse_port_text(s: &str) -> (r: bool)
    ensures
        r == valid_port_text(s@),
{
    let n = s.unicode_len();
    let start: usize = if n > 0 && s.get_char(0) == '+' {
        1
    } else {
        0
    };
    let ghost digits = port_digits(s@);
    proof {
        assert(digits =~= s@.subrange(start as int, n as int));
    }
    if n == start {
        return false;
    }
    let mut acc: u32 = 0;
    let mut i: usize = start;
    while i < n
        invariant
            start <= i <= n,
            n == s@.len(),
            n > start,
            (s@.len() > 0 && s@[0] == '+') ==> start == 1,
            !(s@.len() > 0 && s@[0] == '+') ==> start == 0,
            digits == port_digits(s@),
            digits == s@.subrange(start as int, n as int),
            forall|l: int| start <= l < i ==> is_dec_digit(#[trigger] s@[l]),
            acc <= 65535,
            acc == dec_value(s@.subrange(start as int, i as int)),
        decreases n - i,
    {
        let c = s.get_char(i);
        let u = c as u32;
        if !(48 <= u && u <= 57) {
            proof {
                assert(port_digits(s@)[i - start] == s@[i as int]);
                assert(!is_dec_digit(port_digits(s@)[i - start]));
                assert(!valid_port_text(s@));
            }
            return false;
        }
        proof {
            assert(s@.subrange(start as int, i as int + 1).drop_last() =~= s@.subrange(
                start as int,
                i as int,
            ));
            assert(s@.subrange(start as int, i as int + 1).last() == s@[i as int]);
        }
        let d = u - 48;
        if acc > 6553 || (acc == 6553 && d > 5) {
            proof {
                let upto = s@.subrange(start as int, i as int + 1);
                assert(upto.drop_last() =~= s@.subrange(start as int, i as int));
                assert(upto.last() == s@[i as int]);
                assert(dec_value(upto) == acc * 10 + d);
                assert(dec_value(upto) > 65535);
                if forall|l: int|
                    0 <= l < port_digits(s@).len() ==> is_dec_digit(
                        #[trigger] port_digits(s@)[l],
                    ) {
                    lemma_dec_value_monotone(port_digits(s@), i + 1 - start);
                    assert(port_digits(s@).take(i + 1 - start) =~= upto);
                    assert(dec_value(port_digits(s@)) > 65535);
                }
                assert(!valid_port_text(s@));
            }
            return false;
        }
        acc = acc * 10 + d;
        i = i + 1;
    }
    proof {
        assert(s@.subrange(start as int, n as int) =~= digits);
    }
    true
}

/// Decides whether every character is an octal digit, as a file-permissions
/// literal demands.
pub fn all_octal_digits(s: &str) -> (r: bool)
    ensures
        r == (forall|i: int| 0 <= i < s@.len() ==> is_octal_digit(#[trigger] s@[i])),
{
    let n = s.unicode_len();
    let mut i: usize = 0;
    while i < n
        invariant
            i <= n,
            n == s@.len(),
            forall|l: int| 0 <= l < i ==> is_octal_digit(#[trigger] s@[l]),
        decreases n - i,
    {
        let u = s.get_char(i) as u32;
        if !(48 <= u && u <= 55) {
            return false;
        }
        i = i + 1;
    }
    true
}

/// The conversion-function names are pairwise distinct pieces of text.
proof fn lemma_validator_names_distinct()
    ensures
        "d"@ != "duration"@ && "d"@ != "p"@ && "d"@ != "path"@ && "d"@ != "perms"@ && "d"@
            != "fileperms"@ && "d"@ != "filepermissions"@ && "d"@ != "url"@ && "d"@ != "ip"@ && "d"@
            != "ipv4"@ && "d"@ != "ipv6"@ && "d"@ != "port"@,
        "duration"@ != "p"@ && "duration"@ != "path"@ && "duration"@ != "perms"@ && "duration"@
            != "fileperms"@ && "duration"@ != "filepermissions"@ && "duration"@ != "url"@
            && "duration"@ != "ip"@ && "duration"@ != "ipv4"@ && "duration"@ != "ipv6"@
            && "duration"@ != "port"@,
        "p"@ != "path"@ && "p"@ != "perms"@ && "p"@ != "fileperms"@ && "p"@ != "filepermissions"@
            && "p"@ != "url"@ && "p"@ != "ip"@ && "p"@ != "ipv4"@ && "p"@ != "ipv6"@ && "p"@
            != "port"@,
        "path"@ != "perms"@ && "path"@ != "fileperms"@ && "path"@ != "filepermissions"@ && "path"@
            != "url"@ && "path"@ != "ip"@ && "path"@ != "ipv4"@ && "path"@ != "ipv6"@ && "path"@
            != "port"@,
        "perms"@ != "fileperms"@ && "perms"@ != "filepermissions"@ && "perms"@ != "url"@ && "perms"@
            != "ip"@ && "perms"@ != "ipv4"@ && "perms"@ != "ipv6"@ && "perms"@ != "port"@,
        "fileperms"@ != "filepermissions"@ && "fileperms"@ != "url"@ && "fileperms"@ != "ip"@
            && "fileperms"@ != "ipv4"@ && "fileperms"@ != "ipv6"@ && "fileperms"@ != "port"@,
        "filepermissions"@ != "url"@ && "filepermissions"@ != "ip"@ && "filepermissions"@ != "ipv4"@
            && "filepermissions"@ != "ipv6"@ && "filepermissions"@ != "port"@,
        "url"@ != "ip"@ && "url"@ != "ipv4"@ && "url"@ != "ipv6"@ && "url"@ != "port"@,
        "ip"@ != "ipv4"@ && "ip"@ != "ipv6"@ && "ip"@ != "port"@,
        "ipv4"@ != "ipv6"@ && "ipv4"@ != "port"@,
        "ipv6"@ != "port"@,
{
    reveal_strlit("d");
    reveal_strlit("duration");
    reveal_strlit("p");
    reveal_strlit("path");
    reveal_strlit("perms");
    reveal_strlit("fileperms");
    reveal_strlit("filepermissions");
    reveal_strlit("url");
    reveal_strlit("ip");
    reveal_strlit("ipv4");
    reveal_strlit("ipv6");
    reveal_strlit("port");
    assert("d"@.len() == 1);
    assert("duration"@.len() == 8);
    assert("p"@.len() == 1);
    assert("path"@.len() == 4);
    assert("perms"@.len() == 5);
    assert("fileperms"@.len() == 9);
    assert("filepermissions"@.len() == 15);
    assert("url"@.len() == 3);
    assert("ip"@.len() == 2);
    assert("ipv4"@.len() == 4);
    assert("ipv6"@.len() == 4);
    assert("port"@.len() == 4);
    assert("d"@[0] == 'd');
    assert("p"@[0] == 'p');
    assert("path"@[0] == 'p');
    assert("ipv4"@[0] == 'i');
    assert("ipv6"@[0] == 'i');
    assert("port"@[0] == 'p');
    assert("path"@[1] == 'a');
    assert("port"@[1] == 'o');
    assert("ipv4"@[3] == '4');
    assert("ipv6"@[3] == '6');
}

/// Checks and converts one conversion-function literal: the function's
/// short name picks the validation, the stripped and trimmed text is the
/// value. Durations and paths become values of their own types; the other
/// conversions only vet the text and keep it as a string. Address validity
/// (`ip`, `ipv4`, `ipv6`) is decided by the url crate's host parser, whose
/// IPv4 grammar is wider than the standard library's (it also reads
/// abbreviated and hex/octal octet forms).
pub fn parse_validator(
    name: String,
    fxn: &str,
    value: String,
    start: usize,
    end: usize,
) -> (r: Result<ChkActualParam, LexicalError>)
    requires
        value@.len() >= 2,
        value@[0] == '(',
        value@.last() == ')',
    ensures
        ({
            let stripped = trimmed(value@.subrange(1, value@.len() - 1));
            &&& (fxn@ == "d"@ || fxn@ == "duration"@) ==> match crate::foreign::parsed_duration_nanos(
                stripped,
            ) {
                Some(n) => (r matches Ok(p) && p.name == name && (p.value matches
                    crate::params::ChkParamInternalValue::PkDuration(d) && d.duration == n
                    && d.duration_str@ == stripped)),
                None => (r matches Err(e) && (e matches LexicalError::InvalidDuration(v, _) && v
                    == value)),
            }
            &&& (fxn@ == "p"@ || fxn@ == "path"@) ==> (if stripped.len() == 0 {
                r matches Err(e) && e is InvalidPath
            } else {
                r matches Ok(p) && p.name == name && (p.value matches
                    crate::params::ChkParamInternalValue::PkPath(t) && t@ == trimmed(stripped))
            })
            &&& (fxn@ == "perms"@ || fxn@ == "fileperms"@ || fxn@ == "filepermissions"@) ==> (if (
            forall|i: int| 0 <= i < stripped.len() ==> is_octal_digit(#[trigger] stripped[i])) {
                r matches Ok(p) && p.name == name && (p.value matches
                    crate::params::ChkParamInternalValue::PkString(t) && t@ == stripped)
            } else {
                r matches Err(e) && e is InvalidConversion
            })
            &&& fxn@ == "url"@ ==> (if crate::foreign::url_text_valid(stripped) {
                r matches Ok(p) && (p.value matches crate::params::ChkParamInternalValue::PkString(
                    t,
                ) && t@ == stripped)
            } else {
                r matches Err(e) && e is InvalidConversion
            })
            &&& fxn@ == "ip"@ ==> (if crate::foreign::ipv4_text_valid(stripped)
                || crate::foreign::ipv6_text_valid(stripped) {
                r matches Ok(p) && (p.value matches crate::params::ChkParamInternalValue::PkString(
                    t,
                ) && t@ == stripped)
            } else {
                r matches Err(e) && e is InvalidConversion
            })
            &&& fxn@ == "ipv4"@ ==> (if crate::foreign::ipv4_text_valid(stripped) {
                r matches Ok(p) && (p.value matches crate::params::ChkParamInternalValue::PkString(
                    t,
                ) && t@ == stripped)
            } else {
                r matches Err(e) && e is InvalidConversion
            })
            &&& fxn@ == "ipv6"@ ==> (if crate::foreign::ipv6_text_valid(stripped) {
                r matches Ok(p) && (p.value matches crate::params::ChkParamInternalValue::PkString(
                    t,
                ) && t@ == stripped)
            } else {
                r matches Err(e) && e is InvalidConversion
            })
            &&& fxn@ == "port"@ ==> (if valid_port_text(stripped) {
                r matches Ok(p) && (p.value matches crate::params::ChkParamInternalValue::PkString(
                    t,
                ) && t@ == stripped)
            } else {
                r matches Err(e) && e is InvalidConversion
            })
        }),
{
    proof {
        lemma_validator_names_distinct();
    }
    let stripped = strip_parens_and_trim(&value);
    let ca = ContentAddress::new(start, end);

    if str_eq(fxn, "d") || str_eq(fxn, "duration") {
        match parse_duration_str(&stripped) {
            Some(d) => Ok(ChkActualParam::new_duration(name, d, ca)),
            None => Err(LexicalError::InvalidDuration(value, ca)),
        }
    } else if str_eq(fxn, "p") || str_eq(fxn, "path") {
        match parse_path_str(&stripped) {
            Some(p) => Ok(ChkActualParam::new_path(name, p, ca)),
            None => Err(LexicalError::InvalidPath(value, ca)),
        }
    } else if str_eq(fxn, "perms") || str_eq(fxn, "fileperms") || str_eq(fxn, "filepermissions") {
        if !all_octal_digits(stripped.as_str()) {
            return Err(
                LexicalError::InvalidConversion(
                    String::from_str("filepermissions"),
                    String::from_str("Invalid octal value"),
                    ca,
                ),
            );
        }
        Ok(ChkActualParam::new_string(name, stripped, ca))
    } else if str_eq(fxn, "url") {
        if crate::foreign::url_parse_ok(stripped.as_str()) {
            Ok(ChkActualParam::new_string(name, stripped, ca))
        } else {
            Err(
                LexicalError::InvalidConversion(
                    String::from_str("url"),
                    String::from_str("not a valid url"),
                    ca,
                ),
            )
        }
    } else if str_eq(fxn, "ip") {
        if crate::foreign::ipv4_parse_ok(stripped.as_str()) || crate::foreign::ipv6_parse_ok(
            stripped.as_str(),
        ) {
            Ok(ChkActualParam::new_string(name, stripped, ca))
        } else {
            Err(
                LexicalError::InvalidConversion(
                    String::from_str("ip"),
                    String::from_str("not a valid ip address"),
                    ca,
                ),
            )
        }
    } else if str_eq(fxn, "ipv4") {
        if crate::foreign::ipv4_parse_ok(stripped.as_str()) {
            Ok(ChkActualParam::new_string(name, stripped, ca))
        } else {
            Err(
                LexicalError::InvalidConversion(
                    String::from_str("ipv4"),
                    String::from_str("not a valid ipv4 address"),
                    ca,
                ),
            )
        }
    } else if str_eq(fxn, "ipv6") {
        if crate::foreign::ipv6_parse_ok(stripped.as_str()) {
            Ok(ChkActualParam::new_string(name, stripped, ca))
        } else {
            Err(
                LexicalError::InvalidConversion(
                    String::from_str("ipv6"),
                    String::from_str("not a valid ipv6 address"),
                    ca,
                ),
            )
        }
    } else if str_eq(fxn, "port") {
        if parse_port_text(stripped.as_str()) {
            Ok(ChkActualParam::new_string(name, stripped, ca))
        } else {
            Err(
                LexicalError::InvalidConversion(
                    String::from_str("port"),
                    String::from_str("not a valid port"),
                    ca,
                ),
            )
        }
    } else {
        Err(LexicalError::InvalidToken(ca))
    }
}

} // verus!
