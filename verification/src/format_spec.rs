//! Parsing and validation of (function, format) pairs.
//!
//! A `Type` names what a request touches: the access function (coil,
//! discrete input, holding/input register, or an event-driven point
//! category) and the format under which register words are interpreted.
//! `parse_type` turns a command-line token such as `"3:i32cdab"` into a
//! validated `Type`, applying each function's documented default format
//! when no format token is given and rejecting combinations that the
//! function does not admit.

use vstd::prelude::*;
use vstd::string::StrSliceExecFns;
use crate::errors::ConfigError;
use crate::strutil::{find_from, str_eq};

verus! {

/// The register/point access category of a request.
#[derive(Clone, Copy, Debug, PartialEq, Eq, Structural)]
pub enum Functions {
    Coil,
    DiscreteInput,
    InputRegister,
    HoldingRegister,
    Siq,
    Diq,
    Nva,
    Sva,
    R,
    Bcr,
    All,
}

/// The numeric encoding/display interpretation of register words.
///
/// The 32-bit integer and float formats come in four word-order variants
/// each; the unsuffixed variant leaves the order to a global flag (see
/// `crate::codec::word_order_of`).  `Unkonwn` marks the all-points
/// category, which carries no single format; `String` is recognized only
/// to be rejected.
#[derive(Clone, Copy, Debug, PartialEq, Eq, Structural)]
pub enum Formats {
    Unkonwn,
    U16,
    I16,
    I32,
    I32abcd,
    I32badc,
    I32cdab,
    I32dcba,
    U32,
    U32abcd,
    U32badc,
    U32cdab,
    U32dcba,
    F32,
    F32abcd,
    F32badc,
    F32cdab,
    F32dcba,
    Hex16,
    Hex32,
    Bin16,
    Bin32,
    String,
}

/// A validated (function, format) pair.
#[derive(Clone, Copy, Debug, PartialEq, Eq, Structural)]
pub struct Type {
    pub function: Functions,
    pub format: Formats,
}

/// Whether `f` is one of the formats a register read or write can carry:
/// every named format except the `Unkonwn` and `String` placeholders.
pub open spec fn is_register_format(f: Formats) -> bool {
    f != Formats::Unkonwn && f != Formats::String
}

/// Whether `f` occupies two register words rather than one.
pub open spec fn spec_is_32bit(f: Formats) -> bool {
    ||| f == Formats::I32
    ||| f == Formats::I32abcd
    ||| f == Formats::I32badc
    ||| f == Formats::I32cdab
    ||| f == Formats::I32dcba
    ||| f == Formats::U32
    ||| f == Formats::U32abcd
    ||| f == Formats::U32badc
    ||| f == Formats::U32cdab
    ||| f == Formats::U32dcba
    ||| f == Formats::F32
    ||| f == Formats::F32abcd
    ||| f == Formats::F32badc
    ||| f == Formats::F32cdab
    ||| f == Formats::F32dcba
    ||| f == Formats::Hex32
    ||| f == Formats::Bin32
}

/// Whether `f` occupies two register words rather than one.
pub fn is_32bit(f: Formats) -> (r: bool)
    ensures
        r == spec_is_32bit(f),
{
    match f {
        Formats::I32 | Formats::I32abcd | Formats::I32badc | Formats::I32cdab
        | Formats::I32dcba | Formats::U32 | Formats::U32abcd | Formats::U32badc
        | Formats::U32cdab | Formats::U32dcba | Formats::F32 | Formats::F32abcd
        | Formats::F32badc | Formats::F32cdab | Formats::F32dcba | Formats::Hex32
        | Formats::Bin32 => true,
        _ => false,
    }
}

/// How many register words one value of format `f` occupies: 2 for the
/// 32-bit formats, 1 otherwise.
pub open spec fn spec_register_width(f: Formats) -> u16 {
    if spec_is_32bit(f) {
        2u16
    } else {
        1u16
    }
}

/// How many register words one value of format `f` occupies.
pub fn register_width(f: Formats) -> (w: u16)
    ensures
        w == spec_register_width(f),
{
    if is_32bit(f) {
        2
    } else {
        1
    }
}

/// The format a function falls back to when the token names none.
pub open spec fn spec_default_format(f: Functions) -> Formats {
    match f {
        Functions::Coil => Formats::Bin16,
        Functions::DiscreteInput => Formats::Bin16,
        Functions::HoldingRegister => Formats::U16,
        Functions::InputRegister => Formats::U16,
        Functions::Siq => Formats::Bin16,
        Functions::Diq => Formats::U16,
        Functions::Nva => Formats::I16,
        Functions::Sva => Formats::I16,
        Functions::R => Formats::F32,
        Functions::Bcr => Formats::I32,
        Functions::All => Formats::Unkonwn,
    }
}

/// The format a function falls back to when the token names none.
pub fn default_format(f: Functions) -> (r: Formats)
    ensures
        r == spec_default_format(f),
{
    match f {
        Functions::Coil => Formats::Bin16,
        Functions::DiscreteInput => Formats::Bin16,
        Functions::HoldingRegister => Formats::U16,
        Functions::InputRegister => Formats::U16,
        Functions::Siq => Formats::Bin16,
        Functions::Diq => Formats::U16,
        Functions::Nva => Formats::I16,
        Functions::Sva => Formats::I16,
        Functions::R => Formats::F32,
        Functions::Bcr => Formats::I32,
        Functions::All => Formats::Unkonwn,
    }
}

/// Which formats each function admits.  Coils and discrete inputs are
/// boolean-per-element and admit only `Bin16`; the register tables admit
/// every register format; each event-driven category admits exactly its
/// canonical format.
pub open spec fn admits(f: Functions, fmt: Formats) -> bool {
    match f {
        Functions::Coil => fmt == Formats::Bin16,
        Functions::DiscreteInput => fmt == Formats::Bin16,
        Functions::HoldingRegister => is_register_format(fmt),
        Functions::InputRegister => is_register_format(fmt),
        Functions::Siq => fmt == Formats::Bin16,
        Functions::Diq => fmt == Formats::U16,
        Functions::Nva => fmt == Formats::I16,
        Functions::Sva => fmt == Formats::I16,
        Functions::R => fmt == Formats::F32,
        Functions::Bcr => fmt == Formats::I32,
        Functions::All => fmt == Formats::Unkonwn,
    }
}

/// Whether `f` accepts writes at all.  The discrete-input and
/// input-register tables are read-only; the all-points category takes
/// no write values.
pub open spec fn spec_writable(f: Functions) -> bool {
    match f {
        Functions::Coil => true,
        Functions::DiscreteInput => false,
        Functions::HoldingRegister => true,
        Functions::InputRegister => false,
        Functions::Siq => true,
        Functions::Diq => true,
        Functions::Nva => true,
        Functions::Sva => true,
        Functions::R => true,
        Functions::Bcr => true,
        Functions::All => false,
    }
}

/// Whether `f` accepts writes at all.
pub fn writable(f: Functions) -> (r: bool)
    ensures
        r == spec_writable(f),
{
    match f {
        Functions::DiscreteInput | Functions::InputRegister | Functions::All => false,
        _ => true,
    }
}

/// The format named by a format token, if any.
pub open spec fn spec_format_token(s: Seq<char>) -> Option<Formats> {
    if s == "u16"@ {
        Some(Formats::U16)
    } else if s == "i16"@ {
        Some(Formats::I16)
    } else if s == "hex16"@ {
        Some(Formats::Hex16)
    } else if s == "hex32"@ {
        Some(Formats::Hex32)
    } else if s == "i32"@ {
        Some(Formats::I32)
    } else if s == "i32abcd"@ {
        Some(Formats::I32abcd)
    } else if s == "i32badc"@ {
        Some(Formats::I32badc)
    } else if s == "i32cdab"@ {
        Some(Formats::I32cdab)
    } else if s == "i32dcba"@ {
        Some(Formats::I32dcba)
    } else if s == "u32"@ {
        Some(Formats::U32)
    } else if s == "u32abcd"@ {
        Some(Formats::U32abcd)
    } else if s == "u32badc"@ {
        Some(Formats::U32badc)
    } else if s == "u32cdab"@ {
        Some(Formats::U32cdab)
    } else if s == "u32dcba"@ {
        Some(Formats::U32dcba)
    } else if s == "f32"@ {
        Some(Formats::F32)
    } else if s == "f32abcd"@ {
        Some(Formats::F32abcd)
    } else if s == "f32badc"@ {
        Some(Formats::F32badc)
    } else if s == "f32cdab"@ {
        Some(Formats::F32cdab)
    } else if s == "f32dcba"@ {
        Some(Formats::F32dcba)
    } else if s == "bin16"@ {
        Some(Formats::Bin16)
    } else if s == "bin32"@ {
        Some(Formats::Bin32)
    } else {
        None
    }
}

/// The format named by a format token, if any.
pub fn parse_format_token(s: &str) -> (r: Option<Formats>)
    ensures
        r == spec_format_token(s@),
{
    if str_eq(s, "u16") {
        Some(Formats::U16)
    } else if str_eq(s, "i16") {
        Some(Formats::I16)
    } else if str_eq(s, "hex16") {
        Some(Formats::Hex16)
    } else if str_eq(s, "hex32") {
        Some(Formats::Hex32)
    } else if str_eq(s, "i32") {
        Some(Formats::I32)
    } else if str_eq(s, "i32abcd") {
        Some(Formats::I32abcd)
    } else if str_eq(s, "i32badc") {
        Some(Formats::I32badc)
    } else if str_eq(s, "i32cdab") {
        Some(Formats::I32cdab)
    } else if str_eq(s, "i32dcba") {
        Some(Formats::I32dcba)
    } else if str_eq(s, "u32") {
        Some(Formats::U32)
    } else if str_eq(s, "u32abcd") {
        Some(Formats::U32abcd)
    } else if str_eq(s, "u32badc") {
        Some(Formats::U32badc)
    } else if str_eq(s, "u32cdab") {
        Some(Formats::U32cdab)
    } else if str_eq(s, "u32dcba") {
        Some(Formats::U32dcba)
    } else if str_eq(s, "f32") {
        Some(Formats::F32)
    } else if str_eq(s, "f32abcd") {
        Some(Formats::F32abcd)
    } else if str_eq(s, "f32badc") {
        Some(Formats::F32badc)
    } else if str_eq(s, "f32cdab") {
        Some(Formats::F32cdab)
    } else if str_eq(s, "f32dcba") {
        Some(Formats::F32dcba)
    } else if str_eq(s, "bin16") {
        Some(Formats::Bin16)
    } else if str_eq(s, "bin32") {
        Some(Formats::Bin32)
    } else {
        None
    }
}

/// The access function named by a function token, if any.
pub open spec fn spec_function_token(s: Seq<char>) -> Option<Functions> {
    if s == "1"@ {
        Some(Functions::Coil)
    } else if s == "2"@ {
        Some(Functions::DiscreteInput)
    } else if s == "3"@ {
        Some(Functions::HoldingRegister)
    } else if s == "4"@ {
        Some(Functions::InputRegister)
    } else if s == "siq"@ {
        Some(Functions::Siq)
    } else if s == "diq"@ {
        Some(Functions::Diq)
    } else if s == "nva"@ {
        Some(Functions::Nva)
    } else if s == "sva"@ {
        Some(Functions::Sva)
    } else if s == "r"@ {
        Some(Functions::R)
    } else if s == "bcr"@ {
        Some(Functions::Bcr)
    } else if s == "all"@ {
        Some(Functions::All)
    } else {
        None
    }
}

/// The access function named by a function token, if any.
pub fn parse_function_token(s: &str) -> (r: Option<Functions>)
    ensures
        r == spec_function_token(s@),
{
    if str_eq(s, "1") {
        Some(Functions::Coil)
    } else if str_eq(s, "2") {
        Some(Functions::DiscreteInput)
    } else if str_eq(s, "3") {
        Some(Functions::HoldingRegister)
    } else if str_eq(s, "4") {
        Some(Functions::InputRegister)
    } else if str_eq(s, "siq") {
        Some(Functions::Siq)
    } else if str_eq(s, "diq") {
        Some(Functions::Diq)
    } else if str_eq(s, "nva") {
        Some(Functions::Nva)
    } else if str_eq(s, "sva") {
        Some(Functions::Sva)
    } else if str_eq(s, "r") {
        Some(Functions::R)
    } else if str_eq(s, "bcr") {
        Some(Functions::Bcr)
    } else if str_eq(s, "all") {
        Some(Functions::All)
    } else {
        None
    }
}

/// What parsing a function token and an optional format token yields.
/// An unrecognized format token is reported before an unrecognized
/// function token; a missing format token falls back to the function's
/// default, which every function admits.
pub open spec fn spec_parse_tokens(ft: Seq<char>, fmt: Option<Seq<char>>) -> Result<
    Type,
    ConfigError,
> {
    match fmt {
        Some(ts) => match spec_format_token(ts) {
            None => Err(ConfigError::UnsupportedFormat),
            Some(fo) => match spec_function_token(ft) {
                None => Err(ConfigError::UnsupportedFunction),
                Some(fu) => if admits(fu, fo) {
                    Ok(Type { function: fu, format: fo })
                } else {
                    Err(ConfigError::IncompatibleFormat)
                },
            },
        },
        None => match spec_function_token(ft) {
            None => Err(ConfigError::UnsupportedFunction),
            Some(fu) => Ok(Type { function: fu, format: spec_default_format(fu) }),
        },
    }
}

/// The validation law of token parsing: a recognized function token
/// with no format token yields the function under its default format,
/// which it always admits; a recognized pair that the function admits
/// yields exactly that pair; and the boolean-per-element functions
/// (coil, discrete input) reject every format but `Bin16`.
pub proof fn lemma_parse_validates(ft: Seq<char>, fs: Seq<char>)
    ensures
        spec_function_token(ft) matches Some(fu) ==> spec_parse_tokens(ft, None) == Ok::<
            Type,
            ConfigError,
        >(Type { function: fu, format: spec_default_format(fu) }),
        spec_function_token(ft) matches Some(fu) ==> admits(fu, spec_default_format(fu)),
        spec_function_token(ft) matches Some(fu) ==> (spec_format_token(fs) matches Some(fo) ==> (
        admits(fu, fo) ==> spec_parse_tokens(ft, Some(fs)) == Ok::<Type, ConfigError>(
            Type { function: fu, format: fo },
        ))),
        spec_function_token(ft) matches Some(fu) ==> (spec_format_token(fs) matches Some(fo) ==> ((
        (fu is Coil || fu is DiscreteInput) && fo != Formats::Bin16) ==> spec_parse_tokens(
            ft,
            Some(fs),
        ) == Err::<Type, ConfigError>(ConfigError::IncompatibleFormat))),
{
}

/// Parse a function token and an optional format token into a validated
/// `Type`, or the configuration error that rules the pair out.
pub fn parse_tokens(function_token: &str, format_token: Option<&str>) -> (r: Result<
    Type,
    ConfigError,
>)
    ensures
        r == spec_parse_tokens(
            function_token@,
            match format_token {
                Some(t) => Some(t@),
                None => None::<Seq<char>>,
            },
        ),
{
    match format_token {
        Some(ts) => {
            let fo = match parse_format_token(ts) {
                None => {
                    return Err(ConfigError::UnsupportedFormat);
                },
                Some(fo) => fo,
            };
            let fu = match parse_function_token(function_token) {
                None => {
                    return Err(ConfigError::UnsupportedFunction);
                },
                Some(fu) => fu,
            };
            let ok = match fu {
                Functions::Coil => matches!(fo, Formats::Bin16),
                Functions::DiscreteInput => matches!(fo, Formats::Bin16),
                Functions::HoldingRegister => !matches!(fo, Formats::Unkonwn | Formats::String),
                Functions::InputRegister => !matches!(fo, Formats::Unkonwn | Formats::String),
                Functions::Siq => matches!(fo, Formats::Bin16),
                Functions::Diq => matches!(fo, Formats::U16),
                Functions::Nva => matches!(fo, Formats::I16),
                Functions::Sva => matches!(fo, Formats::I16),
                Functions::R => matches!(fo, Formats::F32),
                Functions::Bcr => matches!(fo, Formats::I32),
                Functions::All => matches!(fo, Formats::Unkonwn),
            };
            if ok {
                Ok(Type { function: fu, format: fo })
            } else {
                Err(ConfigError::IncompatibleFormat)
            }
        },
        None => match parse_function_token(function_token) {
            None => Err(ConfigError::UnsupportedFunction),
            Some(fu) => {
                let d = default_format(fu);
                Ok(Type { function: fu, format: d })
            },
        },
    }
}

/// What parsing a whole type token yields.  The token is split at its
/// first colon; the format token then runs to the next colon or the end,
/// and anything beyond a second colon is ignored.
pub open spec fn spec_parse_type(s: Seq<char>) -> Result<Type, ConfigError> {
    match find_from(s, ':', 0) {
        None => spec_parse_tokens(s, None),
        Some(i) => {
            let end = match find_from(s, ':', i + 1) {
                None => s.len() as int,
                Some(j) => j,
            };
            spec_parse_tokens(s.subrange(0, i), Some(s.subrange(i + 1, end)))
        },
    }
}

/// Parse a combined type token such as `"3"`, `"4:f32cdab"` or `"siq"`
/// into a validated `Type`.
pub fn parse_type(s: &str) -> (r: Result<Type, ConfigError>)
    ensures
        r == spec_parse_type(s@),
{
    let n = s.unicode_len();
    let colon = crate::strutil::find_char(s, ':');
    match colon {
        None => parse_tokens(s, None),
        Some(i) => {
            let function_token = s.substring_char(0, i);
            let end = match crate::strutil::find_char_from(s, ':', i + 1) {
                None => n,
                Some(j) => j,
            };
            let format_token = s.substring_char(i + 1, end);
            parse_tokens(function_token, Some(format_token))
        },
    }
}

} // verus!
