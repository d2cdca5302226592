//! Runtime configuration: the settings the server reads at boot, the paths
//! derived from them, and the number parsing (as `str::parse` does it) that
//! the environment readers and the console's pickers use.
use crate::text::{chars_of, concat};
use vstd::prelude::*;

verus! {

/// Port the console, API and WebSocket listen on by default.
pub const DEFAULT_PORT: u16 = 7930;

/// Runtime configuration.
#[derive(Debug)]
pub struct Config {
    pub port: u16,
    pub dist_dir: String,
    pub data_dir: String,
    /// Overrides the default sign-in passcode when set.
    pub passcode_override: Option<String>,
}

/// An ASCII decimal digit.
pub open spec fn is_digit(c: char) -> bool {
    48 <= (c as u32) <= 57
}

/// The value of a run of decimal digits (0 for none).
pub open spec fn digits_value(s: Seq<char>) -> nat
    decreases s.len(),
{
    if s.len() == 0 {
        0
    } else {
        digits_value(s.drop_last()) * 10 + ((s.last() as u32) - 48) as nat
    }
}

/// The digits part of a `u16` text: without a leading `+`.
pub open spec fn unsigned_digits(s: Seq<char>) -> Seq<char> {
    if s.len() > 0 && s[0] == '+' {
        s.drop_first()
    } else {
        s
    }
}

/// Every character is an ASCII digit.
pub open spec fn all_digits(s: Seq<char>) -> bool {
    forall|i: int| 0 <= i < s.len() ==> is_digit(#[trigger] s[i])
}

/// What `u16::from_str` accepts: an optional `+`, then one or more ASCII
/// digits whose value fits in 16 bits.
pub open spec fn u16_text(s: Seq<char>) -> Option<u16> {
    let digits = unsigned_digits(s);
    if digits.len() > 0 && all_digits(digits) && digits_value(digits) <= 65535 {
        Some(digits_value(digits) as u16)
    } else {
        None
    }
}

proof fn lemma_digits_value_grows(s: Seq<char>, j: int, k: int)
    requires
        0 <= j <= k <= s.len(),
        forall|i: int| 0 <= i < s.len() ==> is_digit(#[trigger] s[i]),
    ensures
        digits_value(s.take(j)) <= digits_value(s.take(k)),
    decreases k - j,
{
    if j < k {
        lemma_digits_value_grows(s, j, k - 1);
        assert(s.take(k).drop_last() == s.take(k - 1));
    }
}

/// Parses a port number or any other `u16` as `str::parse::<u16>` does.
pub fn parse_u16(s: &str) -> (r: Option<u16>)
    ensures
        r == u16_text(s@),
{
    let cs = chars_of(s);
    let n = cs.len();
    let start: usize = if n > 0 && cs[0] == '+' {
        1
    } else {
        0
    };
    let ghost digits = cs@.skip(start as int);
    assert(start == 1 ==> digits == cs@.drop_first());
    assert(start == 0 ==> digits == cs@);
    assert(digits == unsigned_digits(s@));
    if start == n {
        return None;
    }
    let mut acc: u32 = 0;
    let mut i: usize = start;
    while i < n
        invariant
            n == cs@.len(),
            start < n,
            start <= i <= n,
            digits == cs@.skip(start as int),
            digits == unsigned_digits(s@),
            forall|k: int| 0 <= k < i - start ==> is_digit(#[trigger] digits[k]),
            acc == digits_value(digits.take(i - start)),
            acc <= 65535,
        decreases n - i,
    {
        let c = cs[i];
        let u = c as u32;
        if u < 48 || u > 57 {
            assert(!is_digit(digits[i - start]));
            return None;
        }
        proof {
            assert(digits.take(i - start + 1).drop_last() == digits.take(i - start));
            assert(digits.take(i - start + 1).last() == c);
        }
        acc = acc * 10 + (u - 48);
        if acc > 65535 {
            proof {
                assert(digits_value(digits.take(i - start + 1)) > 65535);
                if forall|k: int| 0 <= k < digits.len() ==> is_digit(#[trigger] digits[k]) {
                    lemma_digits_value_grows(digits, i - start + 1, digits.len() as int);
                    assert(digits.take(digits.len() as int) == digits);
                    assert(digits_value(digits) > 65535);
                }
            }
            return None;
        }
        i = i + 1;
    }
    assert(digits.take(n - start) == digits);
    Some(acc as u16)
}

/// The digits part of an `i64` text: without a leading `+` or `-`.
pub open spec fn signed_digits(s: Seq<char>) -> Seq<char> {
    if s.len() > 0 && (s[0] == '+' || s[0] == '-') {
        s.drop_first()
    } else {
        s
    }
}

/// What `i64::from_str` accepts: an optional `+` or `-`, then one or more
/// ASCII digits whose signed value fits in 64 bits.
pub open spec fn i64_text(s: Seq<char>) -> Option<i64> {
    let negative = s.len() > 0 && s[0] == '-';
    let digits = signed_digits(s);
    let v = digits_value(digits);
    if digits.len() > 0 && all_digits(digits) && (if negative {
        v <= 0x8000_0000_0000_0000
    } else {
        v <= 0x7fff_ffff_ffff_ffff
    }) {
        Some(
            (if negative {
                -v
            } else {
                v as int
            }) as i64,
        )
    } else {
        None
    }
}

/// Parses a whole number as `str::parse::<i64>` does.
pub fn parse_i64(s: &str) -> (r: Option<i64>)
    ensures
        r == i64_text(s@),
{
    let cs = chars_of(s);
    let n = cs.len();
    let negative = n > 0 && cs[0] == '-';
    let start: usize = if n > 0 && (cs[0] == '+' || cs[0] == '-') {
        1
    } else {
        0
    };
    let limit: u128 = if negative {
        0x8000_0000_0000_0000
    } else {
        0x7fff_ffff_ffff_ffff
    };
    let ghost digits = cs@.skip(start as int);
    assert(start == 1 ==> digits == cs@.drop_first());
    assert(start == 0 ==> digits == cs@);
    assert(digits == signed_digits(s@));
    if start == n {
        return None;
    }
    let mut acc: u128 = 0;
    let mut i: usize = start;
    while i < n
        invariant
            n == cs@.len(),
            start < n,
            start <= i <= n,
            digits == cs@.skip(start as int),
            digits == signed_digits(s@),
            forall|k: int| 0 <= k < i - start ==> is_digit(#[trigger] digits[k]),
            acc == digits_value(digits.take(i - start)),
            acc <= limit,
            cs@ == s@,
            limit == (if s@.len() > 0 && s@[0] == '-' {
                0x8000_0000_0000_0000u128
            } else {
                0x7fff_ffff_ffff_ffffu128
            }),
        decreases n - i,
    {
        let c = cs[i];
        let u = c as u32;
        if u < 48 || u > 57 {
            assert(!is_digit(digits[i - start]));
            return None;
        }
        proof {
            assert(digits.take(i - start + 1).drop_last() == digits.take(i - start));
            assert(digits.take(i - start + 1).last() == c);
        }
        acc = acc * 10 + (u - 48) as u128;
        if acc > limit {
            proof {
                assert(digits_value(digits.take(i - start + 1)) > limit);
                if forall|k: int| 0 <= k < digits.len() ==> is_digit(#[trigger] digits[k]) {
                    lemma_digits_value_grows(digits, i - start + 1, digits.len() as int);
                    assert(digits.take(digits.len() as int) == digits);
                }
            }
            return None;
        }
        i = i + 1;
    }
    assert(digits.take(n - start) == digits);
    if negative {
        if acc == 0x8000_0000_0000_0000 {
            Some(i64::MIN)
        } else {
            let v = acc as i64;
            Some(-v)
        }
    } else {
        Some(acc as i64)
    }
}

/// A numeric setting: the parsed value when present and well-formed, else
/// `default` (what `env_u16` does with the variable's value).
pub fn u16_setting(raw: Option<&str>, default: u16) -> (r: u16)
    ensures
        r == match raw {
            Some(s) => match u16_text(s@) {
                Some(v) => v,
                None => default,
            },
            None => default,
        },
{
    match raw {
        Some(s) => match parse_u16(s) {
            Some(v) => v,
            None => default,
        },
        None => default,
    }
}

/// A text setting: the value when present, else `default` (what `env_str`
/// does with the variable's value).
pub fn str_setting(raw: Option<String>, default: &str) -> (r: String)
    ensures
        r@ == match raw {
            Some(s) => s@,
            None => default@,
        },
{
    match raw {
        Some(s) => s,
        None => String::from_str(default),
    }
}

impl Config {
    /// Where the SQLite database lives.
    pub fn db_path(&self) -> (r: String)
        ensures
            r@ == self.data_dir@ + "/switchboard.db"@,
    {
        concat(self.data_dir.as_str(), "/switchboard.db")
    }

    /// Where the vault key lives.
    pub fn vault_key_path(&self) -> (r: String)
        ensures
            r@ == self.data_dir@ + "/.vault-key"@,
    {
        concat(self.data_dir.as_str(), "/.vault-key")
    }
}

} // verus!
