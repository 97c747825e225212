use dpoll::errors::ConfigError;
use dpoll::format_spec::{parse_tokens, parse_type, register_width, Formats, Functions, Type};

fn ok(function: Functions, format: Formats) -> Result<Type, ConfigError> {
    Ok(Type { function, format })
}

#[test]
fn defaults_without_format_token() {
    assert_eq!(parse_type("1"), ok(Functions::Coil, Formats::Bin16));
    assert_eq!(parse_type("2"), ok(Functions::DiscreteInput, Formats::Bin16));
    assert_eq!(parse_type("3"), ok(Functions::HoldingRegister, Formats::U16));
    assert_eq!(parse_type("4"), ok(Functions::InputRegister, Formats::U16));
    assert_eq!(parse_type("siq"), ok(Functions::Siq, Formats::Bin16));
    assert_eq!(parse_type("diq"), ok(Functions::Diq, Formats::U16));
    assert_eq!(parse_type("nva"), ok(Functions::Nva, Formats::I16));
    assert_eq!(parse_type("sva"), ok(Functions::Sva, Formats::I16));
    assert_eq!(parse_type("r"), ok(Functions::R, Formats::F32));
    assert_eq!(parse_type("bcr"), ok(Functions::Bcr, Formats::I32));
    assert_eq!(parse_type("all"), ok(Functions::All, Formats::Unkonwn));
}

#[test]
fn explicit_register_formats() {
    assert_eq!(parse_type("3:i16"), ok(Functions::HoldingRegister, Formats::I16));
    assert_eq!(parse_type("3:i32cdab"), ok(Functions::HoldingRegister, Formats::I32cdab));
    assert_eq!(parse_type("4:f32dcba"), ok(Functions::InputRegister, Formats::F32dcba));
    assert_eq!(parse_type("3:hex32"), ok(Functions::HoldingRegister, Formats::Hex32));
    assert_eq!(parse_type("4:u32badc"), ok(Functions::InputRegister, Formats::U32badc));
    assert_eq!(parse_type("3:bin16"), ok(Functions::HoldingRegister, Formats::Bin16));
}

#[test]
fn event_categories_admit_their_canonical_format() {
    assert_eq!(parse_type("siq:bin16"), ok(Functions::Siq, Formats::Bin16));
    assert_eq!(parse_type("diq:u16"), ok(Functions::Diq, Formats::U16));
    assert_eq!(parse_type("nva:i16"), ok(Functions::Nva, Formats::I16));
    assert_eq!(parse_type("r:f32"), ok(Functions::R, Formats::F32));
    assert_eq!(parse_type("bcr:i32"), ok(Functions::Bcr, Formats::I32));
    assert_eq!(parse_type("siq:u16"), Err(ConfigError::IncompatibleFormat));
    assert_eq!(parse_type("diq:i16"), Err(ConfigError::IncompatibleFormat));
    assert_eq!(parse_type("r:i32"), Err(ConfigError::IncompatibleFormat));
}

#[test]
fn coil_and_discrete_admit_only_bin16() {
    assert_eq!(parse_type("1:bin16"), ok(Functions::Coil, Formats::Bin16));
    assert_eq!(parse_type("2:bin16"), ok(Functions::DiscreteInput, Formats::Bin16));
    assert_eq!(parse_type("1:u16"), Err(ConfigError::IncompatibleFormat));
    assert_eq!(parse_type("1:f32"), Err(ConfigError::IncompatibleFormat));
    assert_eq!(parse_type("2:i32"), Err(ConfigError::IncompatibleFormat));
    assert_eq!(parse_type("2:hex16"), Err(ConfigError::IncompatibleFormat));
}

#[test]
fn unknown_tokens_are_rejected() {
    assert_eq!(parse_type("5"), Err(ConfigError::UnsupportedFunction));
    assert_eq!(parse_type("register"), Err(ConfigError::UnsupportedFunction));
    assert_eq!(parse_type("3:xyz"), Err(ConfigError::UnsupportedFormat));
    assert_eq!(parse_type("3:string"), Err(ConfigError::UnsupportedFormat));
    // an unrecognized format is reported before an unrecognized function
    assert_eq!(parse_type("9:xyz"), Err(ConfigError::UnsupportedFormat));
    assert_eq!(parse_type("9:u16"), Err(ConfigError::UnsupportedFunction));
    assert_eq!(parse_type(""), Err(ConfigError::UnsupportedFunction));
}

#[test]
fn split_takes_first_colon_and_next() {
    // anything past a second colon is ignored
    assert_eq!(parse_type("3:i16:junk"), ok(Functions::HoldingRegister, Formats::I16));
}

#[test]
fn parse_tokens_direct() {
    assert_eq!(parse_tokens("3", None), ok(Functions::HoldingRegister, Formats::U16));
    assert_eq!(parse_tokens("3", Some("u32dcba")), ok(Functions::HoldingRegister, Formats::U32dcba));
    assert_eq!(parse_tokens("1", Some("i16")), Err(ConfigError::IncompatibleFormat));
}

#[test]
fn register_widths() {
    assert_eq!(register_width(Formats::U16), 1);
    assert_eq!(register_width(Formats::I16), 1);
    assert_eq!(register_width(Formats::Hex16), 1);
    assert_eq!(register_width(Formats::Bin16), 1);
    assert_eq!(register_width(Formats::I32), 2);
    assert_eq!(register_width(Formats::U32cdab), 2);
    assert_eq!(register_width(Formats::F32badc), 2);
    assert_eq!(register_width(Formats::Hex32), 2);
    assert_eq!(register_width(Formats::Bin32), 2);
}
