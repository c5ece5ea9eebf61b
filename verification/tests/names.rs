use og_loc::names::{CrateName, CrateNameOrPngFile, CratePngFile, InvalidCrateName, ParseCratePngFileError};

#[test]
fn test_crate_name_validation() {
    assert_eq!(
        CrateName::from_str(""),
        InvalidCrateName::err_with_msg("Crate names cannot be empty")
    );
    assert_eq!(
        CrateName::from_str("aksajdkajhdskjashdkjahdkajshdkajshdklajhdlkjashdkjadkjadkashdakdkajshda"),
        InvalidCrateName::err_with_msg("Crate names can not be longer than 64 characters")
    );
    assert_eq!(
        CrateName::from_str("\u{1F921}_test"),
        InvalidCrateName::err_with_msg("Crate names must be ASCII")
    );
    assert_eq!(
        CrateName::from_str("test@123"),
        InvalidCrateName::err_with_msg(
            "Crate names must use only alphanumeric characters or `-` or `_`"
        )
    );
    let ok = CrateName::from_str("og-loc").unwrap();
    assert_eq!(ok.inner().as_str(), "og-loc");
}

#[test]
fn crate_name_length_bounds() {
    let just_fits = "a".repeat(64);
    assert!(CrateName::from_str(&just_fits).is_ok());
    let too_long = "a".repeat(65);
    assert!(CrateName::from_str(&too_long).is_err());
}

#[test]
fn crate_name_reserved_nul() {
    let err = CrateName::from_str("nullable").unwrap_err();
    assert_eq!(
        err.message(),
        "Invalid crate name: Crate names must not contain the reserved sequence `nul`"
    );
    assert!(CrateName::from_str("has-nul-inside").is_err());
    assert!(CrateName::from_str("number").is_ok());
}

#[test]
fn crate_name_allowed_characters() {
    assert!(CrateName::from_str("serde_json").is_ok());
    assert!(CrateName::from_str("Crate-Name_123").is_ok());
    assert!(CrateName::from_str("with space").is_err());
    assert!(CrateName::from_str("with/slash").is_err());
}

#[test]
fn crate_name_accessors() {
    let name = CrateName::from_str("knien").unwrap();
    assert_eq!(name.inner().as_str(), "knien");
    assert_eq!(name.into_inner(), String::from("knien"));
}

#[test]
fn invalid_crate_name_message() {
    let err: InvalidCrateName = CrateName::from_str("").unwrap_err();
    assert_eq!(err.message(), "Invalid crate name: Crate names cannot be empty");
}

#[test]
fn png_file_parsing() {
    let f = CratePngFile::from_str("knien.png").unwrap();
    assert_eq!(f.into_crate_name().inner().as_str(), "knien");

    assert!(matches!(
        CratePngFile::from_str("knien"),
        Err(ParseCratePngFileError::NotAPng)
    ));
    assert!(matches!(
        CratePngFile::from_str("bad name.png"),
        Err(ParseCratePngFileError::InvalidCrateName(_))
    ));
    assert!(matches!(
        CratePngFile::from_str(".png"),
        Err(ParseCratePngFileError::InvalidCrateName(_))
    ));
    assert!(matches!(
        CratePngFile::from_str("png"),
        Err(ParseCratePngFileError::NotAPng)
    ));
}

#[test]
fn name_or_png_file_parsing() {
    let parsed = CrateNameOrPngFile::from_str("knien.png").unwrap();
    assert!(matches!(parsed, CrateNameOrPngFile::PngFile(_)));
    assert_eq!(parsed.into_crate_name().inner().as_str(), "knien");

    let parsed = CrateNameOrPngFile::from_str("knien").unwrap();
    assert!(matches!(parsed, CrateNameOrPngFile::CrateName(_)));
    assert_eq!(parsed.into_crate_name().inner().as_str(), "knien");

    assert!(matches!(
        CrateNameOrPngFile::from_str("bad name"),
        Err(ParseCratePngFileError::InvalidCrateName(_))
    ));
    assert!(matches!(
        CrateNameOrPngFile::from_str("bad name.png"),
        Err(ParseCratePngFileError::InvalidCrateName(_))
    ));
}

#[test]
fn png_file_error_messages() {
    let e = CratePngFile::from_str("knien").unwrap_err();
    assert_eq!(e.message(), "Name does not end in `.png`");
    let e = CratePngFile::from_str("bad name.png").unwrap_err();
    assert_eq!(
        e.message(),
        "Invalid crate name: Invalid crate name: Crate names must use only alphanumeric characters or `-` or `_`"
    );
}
