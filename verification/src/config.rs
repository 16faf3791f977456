//! The relay's configuration: the port it listens on and the address of the
//! backend, made once from the values found at startup.

use vstd::prelude::*;
use crate::text::chars_of;

verus! {

/// The port that is used where none is given, or none that can be read.
pub const DEFAULT_PORT: u16 = 3000;

/// Where the relay listens and where the backend is.
#[derive(Clone, Debug, PartialEq, Eq)]
pub struct Config {
    pub port: u16,
    pub backend_url: String,
}

/// Why no configuration could be made.
#[derive(Clone, Copy, Debug, PartialEq, Eq)]
pub enum ConfigError {
    /// No address of the backend was given.
    MissingBackendUrl,
}

/// Whether `c` is one of the digits `0` to `9`.
pub open spec fn is_digit(c: char) -> bool {
    48 <= c as u32 <= 57
}

/// Whether `text` is made of digits only.
pub open spec fn all_digits(text: Seq<char>) -> bool {
    forall|i: int| 0 <= i < text.len() ==> is_digit(#[trigger] text[i])
}

/// The number that the digits of `text` write in decimal.
pub open spec fn digits_value(text: Seq<char>) -> nat
    decreases text.len(),
{
    if text.len() == 0 {
        0
    } else {
        (digits_value(text.drop_last()) * 10 + (text.last() as u32 - 48)) as nat
    }
}

/// The number that `digits` write, where they are one or more digits and
/// the number is at most 65535.
pub open spec fn digits_as_port(digits: Seq<char>) -> Option<u16> {
    if digits.len() > 0 && all_digits(digits) && digits_value(digits) <= u16::MAX {
        Some(digits_value(digits) as u16)
    } else {
        None
    }
}

/// The port that `text` writes: an optional plus sign, then one or more
/// digits whose number is at most 65535. Anything else writes no port.
pub open spec fn parsed_port(text: Seq<char>) -> Option<u16> {
    if text.len() > 0 && text[0] == '+' {
        digits_as_port(text.drop_first())
    } else {
        digits_as_port(text)
    }
}

/// The number of a text of digits is at least the number of each text that
/// it begins with.
proof fn lemma_digits_value_grows(text: Seq<char>, upto: int)
    requires
        all_digits(text),
        0 <= upto <= text.len(),
    ensures
        digits_value(text.take(upto)) <= digits_value(text),
    decreases text.len(),
{
    if upto == text.len() {
        assert(text.take(upto) =~= text);
    } else {
        let shorter = text.drop_last();
        assert(is_digit(text.last()));
        lemma_digits_value_grows(shorter, upto);
        assert(shorter.take(upto) =~= text.take(upto));
    }
}

/// Reads the number that `digits` write.
fn parse_digits(digits: &[char]) -> (port: Option<u16>)
    ensures
        port == digits_as_port(digits@),
{
    if digits.len() == 0 {
        return None;
    }
    let mut value: u32 = 0;
    let mut i: usize = 0;
    while i < digits.len()
        invariant
            i <= digits.len(),
            digits.len() > 0,
            all_digits(digits@.take(i as int)),
            value == digits_value(digits@.take(i as int)),
            value <= u16::MAX,
        decreases digits.len() - i,
    {
        let code: u32 = digits[i] as u32;
        if code < 48 || code > 57 {
            assert(!is_digit(digits@[i as int]));
            return None;
        }
        let ghost shorter = digits@.take(i as int);
        let ghost longer = digits@.take(i + 1);
        assert(longer.drop_last() =~= shorter);
        assert forall|k: int| 0 <= k < longer.len() implies is_digit(#[trigger] longer[k]) by {
            if k < i {
                assert(longer[k] == shorter[k]);
            }
        }
        let next: u32 = value * 10 + (code - 48);
        if next > 65535 {
            proof {
                if all_digits(digits@) {
                    lemma_digits_value_grows(digits@, i + 1);
                }
            }
            return None;
        }
        value = next;
        i += 1;
    }
    assert(digits@.take(i as int) =~= digits@);
    Some(value as u16)
}

/// Reads a port from `text`.
pub fn parse_port(text: &str) -> (port: Option<u16>)
    ensures
        port == parsed_port(text@),
{
    let chars = chars_of(text);
    let end = chars.len();
    if end > 0 && chars[0] == '+' {
        assert(chars@.subrange(1, end as int) =~= text@.drop_first());
        parse_digits(&chars.as_slice()[1..end])
    } else {
        parse_digits(chars.as_slice())
    }
}

/// The port to listen on: the one that `raw` writes, or the default where
/// there is no value or it writes no port.
pub fn port_or_default(raw: Option<&str>) -> (port: u16)
    ensures
        port == match raw {
            Some(text) => match parsed_port(text@) {
                Some(port) => port,
                None => DEFAULT_PORT,
            },
            None => DEFAULT_PORT,
        },
{
    match raw {
        Some(text) => match parse_port(text) {
            Some(port) => port,
            None => DEFAULT_PORT,
        },
        None => DEFAULT_PORT,
    }
}

impl Config {
    /// Makes the configuration from the two values found at startup. The
    /// address of the backend is required and taken as it is; the port falls
    /// back to the default.
    pub fn from_values(port: Option<&str>, backend_url: Option<String>) -> (made: Result<
        Config,
        ConfigError,
    >)
        ensures
            match backend_url {
                None => made == Err::<Config, ConfigError>(ConfigError::MissingBackendUrl),
                Some(url) => made is Ok && made->Ok_0.backend_url == url && made->Ok_0.port
                    == match port {
                    Some(text) => match parsed_port(text@) {
                        Some(port) => port,
                        None => DEFAULT_PORT,
                    },
                    None => DEFAULT_PORT,
                },
            },
    {
        match backend_url {
            None => Err(ConfigError::MissingBackendUrl),
            Some(url) => Ok(Config { port: port_or_default(port), backend_url: url }),
        }
    }
}

} // verus!
