//! Textual encoding of the five digits.
//!
//! The canonical layout is `b~z~s|cc`: one lowercase hex digit per field,
//! `bolts`, `zaps` and `sparks` separated by `~`, then `|` and the `charges`
//! and `subcharges` digits concatenated. Parsing accepts a shorter form that
//! omits the trailing `|cc` group, or only its second digit, defaulting the
//! missing fields to zero, and takes hex digits in either case.
//!
//! Parsing deliberately binds the second `~`-separated group to `sparks` and
//! the third to `zaps`, while formatting emits `bolts~zaps~sparks`: the
//! asymmetry is kept for compatibility with existing serialized strings, so
//! parse-then-format need not reproduce its input when the two digits differ.

use vstd::prelude::*;

use crate::{Error, LightningTime};

verus! {

/// Is `c` a hexadecimal digit, either case?
pub open spec fn is_hex_digit(c: char) -> bool {
    (48 <= c as int && c as int <= 57)  // '0' ..= '9'
     || (97 <= c as int && c as int <= 102)  // 'a' ..= 'f'
     || (65 <= c as int && c as int <= 70)  // 'A' ..= 'F'

}

/// The value of a hexadecimal digit, either case.
pub open spec fn hex_digit_val(c: char) -> u8 {
    if 48 <= c as int && c as int <= 57 {
        (c as int - 48) as u8
    } else if 97 <= c as int && c as int <= 102 {
        (c as int - 87) as u8
    } else {
        (c as int - 55) as u8
    }
}

/// The lowercase hex digit of a nibble.
pub open spec fn spec_hex_char(n: u8) -> char {
    if n == 0 {
        '0'
    } else if n == 1 {
        '1'
    } else if n == 2 {
        '2'
    } else if n == 3 {
        '3'
    } else if n == 4 {
        '4'
    } else if n == 5 {
        '5'
    } else if n == 6 {
        '6'
    } else if n == 7 {
        '7'
    } else if n == 8 {
        '8'
    } else if n == 9 {
        '9'
    } else if n == 10 {
        'a'
    } else if n == 11 {
        'b'
    } else if n == 12 {
        'c'
    } else if n == 13 {
        'd'
    } else if n == 14 {
        'e'
    } else {
        'f'
    }
}

/// The canonical eight-character layout `b~z~s|cc`.
pub open spec fn spec_canonical(t: LightningTime) -> Seq<char> {
    seq![
        spec_hex_char(t.bolts),
        '~',
        spec_hex_char(t.zaps),
        '~',
        spec_hex_char(t.sparks),
        '|',
        spec_hex_char(t.charges),
        spec_hex_char(t.subcharges),
    ]
}

/// The stripped five-character layout `b~z~s`.
pub open spec fn spec_stripped(t: LightningTime) -> Seq<char> {
    seq![spec_hex_char(t.bolts), '~', spec_hex_char(t.zaps), '~', spec_hex_char(t.sparks)]
}

/// Do the three required `~`-separated hex groups open the text?
pub open spec fn spec_leading_groups_ok(s: Seq<char>) -> bool {
    s.len() >= 5 && is_hex_digit(s[0]) && s[1] == '~' && is_hex_digit(s[2]) && s[3] == '~'
        && is_hex_digit(s[4])
}

/// The parse grammar, anchored at both ends: three `~`-separated hex digits,
/// then nothing, or `|` and one hex digit, or `|` and two hex digits. The
/// first group is `bolts`, the second `sparks`, the third `zaps` (see the
/// module note); missing trailing fields are zero.
pub open spec fn spec_parse(s: Seq<char>) -> Option<LightningTime> {
    if !spec_leading_groups_ok(s) {
        None
    } else {
        let bolts = hex_digit_val(s[0]);
        let sparks = hex_digit_val(s[2]);
        let zaps = hex_digit_val(s[4]);
        if s.len() == 5 {
            Some(LightningTime { bolts, zaps, sparks, charges: 0, subcharges: 0 })
        } else if s.len() == 7 && s[5] == '|' && is_hex_digit(s[6]) {
            Some(
                LightningTime {
                    bolts,
                    zaps,
                    sparks,
                    charges: hex_digit_val(s[6]),
                    subcharges: 0,
                },
            )
        } else if s.len() == 8 && s[5] == '|' && is_hex_digit(s[6]) && is_hex_digit(s[7]) {
            Some(
                LightningTime {
                    bolts,
                    zaps,
                    sparks,
                    charges: hex_digit_val(s[6]),
                    subcharges: hex_digit_val(s[7]),
                },
            )
        } else {
            None
        }
    }
}

/// The value of one character as a hex digit, or `None` where it is none.
fn hex_val(c: char) -> (r: Option<u8>)
    ensures
        r matches Some(v) ==> is_hex_digit(c) && v == hex_digit_val(c) && v <= 15,
        r is None ==> !is_hex_digit(c),
{
    let u = c as u32;
    if 48 <= u && u <= 57 {
        Some((u - 48) as u8)
    } else if 97 <= u && u <= 102 {
        Some((u - 87) as u8)
    } else if 65 <= u && u <= 70 {
        Some((u - 55) as u8)
    } else {
        None
    }
}

/// The one-character string of a nibble's lowercase hex digit.
fn hex_char_str(n: u8) -> (r: &'static str)
    requires
        n <= 15,
    ensures
        r@.len() == 1,
        r@[0] == spec_hex_char(n),
{
    proof {
        reveal_strlit("0");
        reveal_strlit("1");
        reveal_strlit("2");
        reveal_strlit("3");
        reveal_strlit("4");
        reveal_strlit("5");
        reveal_strlit("6");
        reveal_strlit("7");
        reveal_strlit("8");
        reveal_strlit("9");
        reveal_strlit("a");
        reveal_strlit("b");
        reveal_strlit("c");
        reveal_strlit("d");
        reveal_strlit("e");
        reveal_strlit("f");
    }
    if n == 0 {
        "0"
    } else if n == 1 {
        "1"
    } else if n == 2 {
        "2"
    } else if n == 3 {
        "3"
    } else if n == 4 {
        "4"
    } else if n == 5 {
        "5"
    } else if n == 6 {
        "6"
    } else if n == 7 {
        "7"
    } else if n == 8 {
        "8"
    } else if n == 9 {
        "9"
    } else if n == 10 {
        "a"
    } else if n == 11 {
        "b"
    } else if n == 12 {
        "c"
    } else if n == 13 {
        "d"
    } else if n == 14 {
        "e"
    } else {
        "f"
    }
}

impl LightningTime {
    /// Formats the canonical layout `b~z~s|cc`: always all five digits,
    /// lowercase, zero-padded by the one-digit-per-field rule.
    pub fn to_canonical_string(&self) -> (r: String)
        requires
            self.wf(),
        ensures
            r@ == spec_canonical(*self),
    {
        proof {
            reveal_strlit("~");
            reveal_strlit("|");
        }
        let mut out = String::new();
        out.append(hex_char_str(self.bolts));
        out.append("~");
        out.append(hex_char_str(self.zaps));
        out.append("~");
        out.append(hex_char_str(self.sparks));
        out.append("|");
        out.append(hex_char_str(self.charges));
        out.append(hex_char_str(self.subcharges));
        proof {
            assert(out@ =~= spec_canonical(*self));
        }
        out
    }

    /// Formats the stripped layout `b~z~s`: the three most significant
    /// digits only.
    pub fn to_stripped_string(&self) -> (r: String)
        requires
            self.wf(),
        ensures
            r@ == spec_stripped(*self),
    {
        proof {
            reveal_strlit("~");
        }
        let mut out = String::new();
        out.append(hex_char_str(self.bolts));
        out.append("~");
        out.append(hex_char_str(self.zaps));
        out.append("~");
        out.append(hex_char_str(self.sparks));
        proof {
            assert(out@ =~= spec_stripped(*self));
        }
        out
    }

    /// Parses the grammar of [`spec_parse`]: succeeds exactly on well-formed
    /// text and yields exactly its digits, with missing trailing fields zero.
    pub fn from_str(s: &str) -> (r: Result<LightningTime, Error>)
        ensures
            r matches Ok(t) ==> spec_parse(s@) == Some(t) && t.wf(),
            r is Err ==> spec_parse(s@) is None && r == Err::<LightningTime, Error>(
                Error::InvalidConversion,
            ),
    {
        let n = s.unicode_len();
        if n != 5 && n != 7 && n != 8 {
            return Err(Error::InvalidConversion);
        }
        let bolts = match hex_val(s.get_char(0)) {
            Some(v) => v,
            None => {
                return Err(Error::InvalidConversion);
            },
        };
        if s.get_char(1) != '~' {
            return Err(Error::InvalidConversion);
        }
        let sparks = match hex_val(s.get_char(2)) {
            Some(v) => v,
            None => {
                return Err(Error::InvalidConversion);
            },
        };
        if s.get_char(3) != '~' {
            return Err(Error::InvalidConversion);
        }
        let zaps = match hex_val(s.get_char(4)) {
            Some(v) => v,
            None => {
                return Err(Error::InvalidConversion);
            },
        };
        if n == 5 {
            return Ok(LightningTime { bolts, zaps, sparks, charges: 0, subcharges: 0 });
        }
        if s.get_char(5) != '|' {
            return Err(Error::InvalidConversion);
        }
        let charges = match hex_val(s.get_char(6)) {
            Some(v) => v,
            None => {
                return Err(Error::InvalidConversion);
            },
        };
        if n == 7 {
            return Ok(LightningTime { bolts, zaps, sparks, charges, subcharges: 0 });
        }
        let subcharges = match hex_val(s.get_char(7)) {
            Some(v) => v,
            None => {
                return Err(Error::InvalidConversion);
            },
        };
        Ok(LightningTime { bolts, zaps, sparks, charges, subcharges })
    }
}

} // verus!

