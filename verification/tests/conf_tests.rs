use jlo::conf::{
    config_file_content, is_valid_version, load_config_java_version, parse_config_content,
    ConfigError, ReadOutcome,
};

#[test]
fn version_accepts_supported_majors() {
    assert!(is_valid_version("8"));
    assert!(is_valid_version("17"));
    assert!(is_valid_version("21"));
    assert!(is_valid_version("4294967295"));
    assert!(is_valid_version("+9"));
    assert!(is_valid_version("08"));
}

#[test]
fn version_rejects_unsupported() {
    assert!(!is_valid_version("7"));
    assert!(!is_valid_version("0"));
    assert!(!is_valid_version(""));
    assert!(!is_valid_version("abc"));
    assert!(!is_valid_version(" 8"));
    assert!(!is_valid_version("8 "));
    assert!(!is_valid_version("4294967296"));
    assert!(!is_valid_version("-8"));
    assert!(!is_valid_version("+"));
    assert!(!is_valid_version("1.8"));
}

#[test]
fn parse_finds_first_uncommented_line() {
    assert_eq!(
        parse_config_content("# a comment\n17\n"),
        Ok(String::from("17"))
    );
    assert_eq!(
        parse_config_content("\n\n# c\n  11  \nrest\n"),
        Ok(String::from("11"))
    );
    assert_eq!(parse_config_content("21"), Ok(String::from("21")));
    assert_eq!(parse_config_content("\r\n 21 \r\n"), Ok(String::from("21")));
}

#[test]
fn parse_trims_unicode_whitespace() {
    // A no-break space after the version is stripped, as str::trim strips it.
    assert_eq!(
        parse_config_content("17\u{00A0}\n"),
        Ok(String::from("17"))
    );
    // Exotic spaces around the version are stripped on both sides.
    assert_eq!(
        parse_config_content("\u{3000}21\u{2009} \n"),
        Ok(String::from("21"))
    );
    // A line of nothing but exotic whitespace is blank, not a candidate.
    assert_eq!(
        parse_config_content("\u{2003}\u{00A0}\n# c\n11\n"),
        Ok(String::from("11"))
    );
}

#[test]
fn parse_rejects_missing_version_line() {
    assert_eq!(parse_config_content(""), Err(ConfigError::NoVersionLine));
    assert_eq!(
        parse_config_content("# only a comment\n"),
        Err(ConfigError::NoVersionLine)
    );
    assert_eq!(
        parse_config_content("   \n\t\n"),
        Err(ConfigError::NoVersionLine)
    );
}

#[test]
fn parse_rejects_invalid_version() {
    assert_eq!(
        parse_config_content("7\n"),
        Err(ConfigError::InvalidVersion {
            version: String::from("7")
        })
    );
    assert_eq!(
        parse_config_content("# c\nbanana\n"),
        Err(ConfigError::InvalidVersion {
            version: String::from("banana")
        })
    );
}

#[test]
fn load_prefers_project_config() {
    let project = ReadOutcome::Content {
        text: String::from("# c\n17\n"),
    };
    let fallback = ReadOutcome::Content {
        text: String::from("11\n"),
    };
    assert_eq!(
        load_config_java_version(&project, &fallback),
        Ok(String::from("17"))
    );
}

#[test]
fn load_falls_back_when_project_missing() {
    let fallback = ReadOutcome::Content {
        text: String::from("11\n"),
    };
    assert_eq!(
        load_config_java_version(&ReadOutcome::NotFound, &fallback),
        Ok(String::from("11"))
    );
    assert_eq!(
        load_config_java_version(&ReadOutcome::NotFound, &ReadOutcome::NotFound),
        Err(ConfigError::NoConfigFile)
    );
}

#[test]
fn load_surfaces_read_failures() {
    let failed = ReadOutcome::Failed {
        detail: String::from("permission denied"),
    };
    let fallback = ReadOutcome::Content {
        text: String::from("11\n"),
    };
    assert_eq!(
        load_config_java_version(&failed, &fallback),
        Err(ConfigError::ReadFailed {
            detail: String::from("permission denied")
        })
    );
    assert_eq!(
        load_config_java_version(&ReadOutcome::NotFound, &failed),
        Err(ConfigError::ReadFailed {
            detail: String::from("permission denied")
        })
    );
}

#[test]
fn rendered_config_has_header_and_version() {
    assert_eq!(
        config_file_content("21"),
        "# Java version configured by J'Lo - https://github.com/java-loader/jlo\n21\n"
    );
}

#[test]
fn rendered_config_parses_back() {
    let content = config_file_content("17");
    assert_eq!(parse_config_content(&content), Ok(String::from("17")));
}
