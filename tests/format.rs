use singer_features::{format_for_extension, format_for_lowered, Format, InvalidInput, LoadError};

fn format(ext: Option<&str>) -> Option<Format> {
    format_for_extension(ext).ok()
}

#[test]
fn known_extensions_choose_their_format() {
    assert_eq!(format(Some("json")), Some(Format::Json));
    assert_eq!(format(Some("toml")), Some(Format::Toml));
    assert_eq!(format(Some("yaml")), Some(Format::Yaml));
    assert_eq!(format(Some("yml")), Some(Format::Yaml));
}

#[test]
fn extensions_match_in_any_case() {
    assert_eq!(format(Some("JSON")), Some(Format::Json));
    assert_eq!(format(Some("Toml")), Some(Format::Toml));
    assert_eq!(format(Some("YmL")), Some(Format::Yaml));
}

#[test]
fn unknown_extension_is_invalid_input() {
    assert!(matches!(
        format_for_extension(Some("ini")),
        Err(LoadError::InvalidInput(InvalidInput::UnknownExtension))
    ));
    assert!(matches!(
        format_for_extension(Some("")),
        Err(LoadError::InvalidInput(InvalidInput::UnknownExtension))
    ));
}

#[test]
fn missing_extension_is_invalid_input() {
    assert!(matches!(
        format_for_extension(None),
        Err(LoadError::InvalidInput(InvalidInput::NoExtension))
    ));
}

#[test]
fn lowered_selection_is_exact() {
    assert!(matches!(format_for_lowered("json"), Ok(Format::Json)));
    assert!(matches!(
        format_for_lowered("JSON"),
        Err(LoadError::InvalidInput(InvalidInput::UnknownExtension))
    ));
    assert!(matches!(
        format_for_lowered("jsonl"),
        Err(LoadError::InvalidInput(InvalidInput::UnknownExtension))
    ));
}
