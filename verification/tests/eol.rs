use eol_conversion::eol::{
    convert_eol, convert_eol_inner, convert_eol_of_read, create_target_eol_strategy, ConvertStep,
    ConvertedReader, EolConversionSettings, EolError, ErrorReader, ErrorSource, ProbeOutcome,
    TargetEol, TargetEolStep, TargetEolStrategyImpl,
};
use eol_conversion::probe::is_binary;
use eol_conversion::settings::{ConfigGetError, ConfigValue, UserSettings};

const LF_FILE_CONTENT: &[u8] = b"aaa\nbbbb\nccccc\n";
const CRLF_FILE_CONTENT: &[u8] = b"aaa\r\nbbbb\r\nccccc\r\n";
const MIXED_EOL_FILE_CONTENT: &[u8] = b"aaa\nbbbb\r\nccccc\n";
const BINARY_FILE_CONTENT: &[u8] = b"\x89PNG\r\n\x1a\n\0\0\0\rIHDR\0\0\0\x01\0\0\0\x01\x08\x06\0\0\0";

/// The settings of a test user, with more values on top.
fn user_settings_with(values: Vec<(&str, ConfigValue)>) -> UserSettings {
    let mut settings = UserSettings::new();
    for (name, value) in [
        ("user.name", "Test User"),
        ("user.email", "test.user@example.com"),
        ("operation.username", "test-username"),
        ("operation.hostname", "host.example.com"),
    ] {
        settings.set_value(name.to_string(), ConfigValue::String(value.to_string()));
    }
    settings.set_value("debug.randomness-seed".to_string(), ConfigValue::Integer(42));
    for (name, value) in values {
        settings.set_value(name.to_string(), value);
    }
    settings
}

fn eol_conversion(value: ConfigValue) -> UserSettings {
    user_settings_with(vec![("working-copy.eol-conversion", value)])
}

fn text(value: &str) -> ConfigValue {
    ConfigValue::String(value.to_string())
}

/// What is read of `input` after a conversion to `target_eol`.
fn convert(input: &[u8], target_eol: TargetEol) -> Vec<u8> {
    match convert_eol(target_eol) {
        ConvertStep::PassThrough => input.to_vec(),
        ConvertStep::ReadToEnd => match convert_eol_of_read(Ok(input.to_vec()), target_eol) {
            ConvertedReader::Content(content) => content,
            ConvertedReader::Error(_) => panic!("the input was read"),
        },
    }
}

/// What is stored of a file.
fn snapshot(setting: &str, content: &[u8]) -> Vec<u8> {
    let strategy = create_target_eol_strategy(&eol_conversion(text(setting))).unwrap();
    let target_eol = match strategy.get_target_eol_for_snapshot() {
        TargetEolStep::Decided(target_eol) => target_eol,
        TargetEolStep::Probe { limit } => {
            let probe = &content[..content.len().min(limit as usize)];
            strategy
                .get_target_eol_for_probed_snapshot("file", ProbeOutcome::Content(probe.to_vec()))
                .unwrap()
        }
    };
    convert(content, target_eol)
}

/// What is written to disk of a stored file.
fn checkout(setting: &str, content: &[u8]) -> Vec<u8> {
    let strategy = create_target_eol_strategy(&eol_conversion(text(setting))).unwrap();
    let target_eol = match strategy.get_target_eol_for_update() {
        TargetEolStep::Decided(target_eol) => target_eol,
        TargetEolStep::Probe { limit } => {
            let probe = &content[..content.len().min(limit as usize)];
            strategy
                .get_target_eol_for_probed_update("file", ProbeOutcome::Content(probe.to_vec()))
                .unwrap()
        }
    };
    convert(content, target_eol)
}

#[test]
fn test_eol_conversion() {
    let cases: Vec<(&[u8], TargetEol, &[u8])> = vec![
        (b"a\n", TargetEol::PassThrough, b"a\n"),
        (b"a\r\n", TargetEol::PassThrough, b"a\r\n"),
        (b"a", TargetEol::PassThrough, b"a"),
        (b"a\n", TargetEol::Crlf, b"a\r\n"),
        (b"a\r\n", TargetEol::Crlf, b"a\r\n"),
        (b"a", TargetEol::Crlf, b"a"),
        (b"", TargetEol::Crlf, b""),
        (b"a\nb", TargetEol::Crlf, b"a\r\nb"),
        (b"a\n", TargetEol::Lf, b"a\n"),
        (b"a\r\n", TargetEol::Lf, b"a\n"),
        (b"a", TargetEol::Lf, b"a"),
        (b"", TargetEol::Lf, b""),
        (b"a\r\nb", TargetEol::Lf, b"a\nb"),
    ];
    for (input, target_eol, expected_output) in cases {
        assert_eq!(convert(input, target_eol), expected_output);
    }
}

#[test]
fn conversion_of_blank_lines_and_lone_carriage_returns() {
    assert_eq!(convert_eol_inner(b"\n", TargetEol::Crlf), b"\r\n");
    assert_eq!(convert_eol_inner(b"\n\n\r\n", TargetEol::Crlf), b"\r\n\r\n\r\n");
    assert_eq!(convert_eol_inner(b"\r\n\n\r\n", TargetEol::Lf), b"\n\n\n");
    assert_eq!(convert_eol_inner(b"a\rb\r", TargetEol::Lf), b"a\rb\r");
    assert_eq!(convert_eol_inner(b"a\rb\r", TargetEol::Crlf), b"a\rb\r");
    assert_eq!(convert_eol_inner(b"\r\r\n", TargetEol::Lf), b"\r\n");
    assert_eq!(convert_eol_inner(b"\r\r\n", TargetEol::Crlf), b"\r\r\n");
    assert_eq!(convert_eol_inner(b"\xff\xfe\n", TargetEol::Crlf), b"\xff\xfe\r\n");
}

#[test]
fn test_eol_convert_eol_read_error() {
    let message = "test error";
    for target_eol in [TargetEol::PassThrough, TargetEol::Lf, TargetEol::Crlf] {
        let mut error_reader = ErrorReader::new(std::io::Error::other(message));
        let mut buf = [0; 1];
        let e = match convert_eol(target_eol) {
            ConvertStep::PassThrough => error_reader.read(&mut buf).expect_err("should fail"),
            ConvertStep::ReadToEnd => {
                let read = error_reader.read(&mut buf).map(|_| vec![]);
                match convert_eol_of_read(read, target_eol) {
                    ConvertedReader::Error(mut reader) => {
                        reader.read(&mut buf).expect_err("should fail")
                    }
                    ConvertedReader::Content(_) => panic!("should fail"),
                }
            }
        };
        assert!(
            e.to_string().contains(message),
            "the error message must contain the original error message"
        );
    }
}

#[test]
fn test_eol_convert_eol_async_read_error() {
    let message = "test error";
    for target_eol in [TargetEol::PassThrough, TargetEol::Lf, TargetEol::Crlf] {
        let mut error_reader = ErrorReader::new(std::io::Error::other(message));
        let e = match convert_eol(target_eol) {
            ConvertStep::PassThrough => error_reader.poll_read().expect_err("should fail"),
            ConvertStep::ReadToEnd => {
                let read = error_reader.poll_read().map(|_| vec![]);
                match convert_eol_of_read(read, target_eol) {
                    ConvertedReader::Error(mut reader) => {
                        reader.poll_read().expect_err("should fail")
                    }
                    ConvertedReader::Content(_) => panic!("should fail"),
                }
            }
        };
        assert!(
            e.to_string().contains(message),
            "the error message must contain the original error message"
        );
    }
}

#[test]
fn error_reader_fails_once() {
    let mut reader = ErrorReader::new(std::io::Error::other("once"));
    let mut buf = [7; 4];
    assert_eq!(reader.read(&mut buf).unwrap_err().to_string(), "once");
    assert_eq!(reader.read(&mut buf).unwrap(), 0);
    assert_eq!(reader.read(&mut buf).unwrap(), 0);
    assert_eq!(buf, [7; 4]);
    assert!(reader.poll_read().is_ok());

    let mut reader = ErrorReader::new(std::io::Error::other("once"));
    assert_eq!(reader.poll_read().unwrap_err().to_string(), "once");
    assert!(reader.poll_read().is_ok());
    assert_eq!(reader.read(&mut buf).unwrap(), 0);
}

#[test]
fn test_eol_conversion_setting_parse_should_default_to_none() {
    let user_settings = user_settings_with(vec![]);
    let setting = EolConversionSettings::try_get_from_settings(&user_settings)
        .expect("should parse successfully");
    assert_eq!(setting, EolConversionSettings::NoConversion);
}

#[test]
fn test_eol_conversion_setting_parse_should_parse_correct_values_successfully() {
    for (value, expected) in [
        ("none", EolConversionSettings::NoConversion),
        ("input", EolConversionSettings::Input),
        ("input-output", EolConversionSettings::InputOutput),
    ] {
        let setting = EolConversionSettings::try_get_from_settings(&eol_conversion(text(value)))
            .expect("should parse successfully");
        assert_eq!(setting, expected);
    }
}

#[test]
fn test_eol_conversion_setting_parse_should_fail_on_invalid_values() {
    for value in [ConfigValue::Boolean(true), text("invalid-value-42")] {
        EolConversionSettings::try_get_from_settings(&eol_conversion(value))
            .expect_err("should fail the parsing");
    }
}

#[test]
fn setting_errors_say_what_is_wrong() {
    let cases = [
        (
            ConfigValue::Boolean(true),
            "the working-copy.eol-conversion setting can't be casted to a string",
        ),
        (
            ConfigValue::Other,
            "the working-copy.eol-conversion setting can't be casted to a string",
        ),
        (
            text("Input"),
            "unrecognized working-copy.eol-conversion value: Input",
        ),
        (text(""), "unrecognized working-copy.eol-conversion value: "),
    ];
    for (value, expected) in cases {
        let error = EolConversionSettings::try_from_config_value(value.clone()).unwrap_err();
        assert_eq!(error.message, expected);
        assert!(error.source.is_none());

        let error = create_target_eol_strategy(&eol_conversion(value)).unwrap_err();
        assert_eq!(
            error.message,
            "failed to retrieve the working-copy.eol-conversion setting"
        );
        match *error.source.expect("should have a source") {
            ErrorSource::Config(ConfigGetError::Type { name, error }) => {
                assert_eq!(name, "working-copy.eol-conversion");
                assert_eq!(error.message, expected);
            }
            _ => panic!("should come from the settings"),
        }
    }
}

#[test]
fn later_settings_take_the_place_of_earlier_ones() {
    let user_settings = user_settings_with(vec![
        ("working-copy.eol-conversion", text("none")),
        ("working-copy.eol-conversion", text("input")),
    ]);
    let setting = EolConversionSettings::try_get_from_settings(&user_settings).unwrap();
    assert_eq!(setting, EolConversionSettings::Input);

    let found = user_settings.get_value_with("user.name", |value| match value {
        ConfigValue::String(name) => Ok(name),
        _ => Err("not a name"),
    });
    assert_eq!(found.unwrap(), "Test User");
    let missing: Result<(), ConfigGetError<&str>> =
        user_settings.get_value_with("user", |_| Ok(()));
    assert!(matches!(missing, Err(ConfigGetError::NotFound { name }) if name == "user"));
    let wrong: Result<(), ConfigGetError<&str>> =
        user_settings.get_value_with("user.email", |_| Err("no"));
    assert!(matches!(
        wrong,
        Err(ConfigGetError::Type { name, error: "no" }) if name == "user.email"
    ));
}

#[test]
fn test_eol_conversion_snapshot() {
    for setting in ["input-output", "input"] {
        assert_eq!(snapshot(setting, LF_FILE_CONTENT), LF_FILE_CONTENT);
        assert_eq!(snapshot(setting, CRLF_FILE_CONTENT), LF_FILE_CONTENT);
        assert_eq!(snapshot(setting, MIXED_EOL_FILE_CONTENT), LF_FILE_CONTENT);
        assert_eq!(snapshot(setting, BINARY_FILE_CONTENT), BINARY_FILE_CONTENT);
    }
    for content in [
        LF_FILE_CONTENT,
        CRLF_FILE_CONTENT,
        MIXED_EOL_FILE_CONTENT,
        BINARY_FILE_CONTENT,
    ] {
        assert_eq!(snapshot("none", content), content);
    }
}

#[test]
fn test_eol_conversion_checkout() {
    assert_eq!(checkout("input-output", LF_FILE_CONTENT), CRLF_FILE_CONTENT);
    assert_eq!(checkout("input-output", CRLF_FILE_CONTENT), CRLF_FILE_CONTENT);
    assert_eq!(checkout("input-output", MIXED_EOL_FILE_CONTENT), CRLF_FILE_CONTENT);
    assert_eq!(checkout("input-output", BINARY_FILE_CONTENT), BINARY_FILE_CONTENT);
    for setting in ["input", "none"] {
        for content in [
            LF_FILE_CONTENT,
            CRLF_FILE_CONTENT,
            MIXED_EOL_FILE_CONTENT,
            BINARY_FILE_CONTENT,
        ] {
            assert_eq!(checkout(setting, content), content);
        }
    }
}

#[test]
fn conflict_markers_are_converted_like_any_line() {
    let content = b"<<<<<<< Conflict 1 of 1\r\n+++++++ Contents of side #1\r\na\r\n>>>>>>> end\r\nc\r\n";
    for setting in ["input-output", "input"] {
        for line in snapshot(setting, content).split_inclusive(|b| *b == b'\n') {
            assert!(!line.ends_with(b"\r\n"));
        }
    }
    assert!(snapshot("none", content).ends_with(b"c\r\n"));
}

#[test]
fn the_working_copy_is_clean_after_a_checkout() {
    for setting in ["none", "input", "input-output"] {
        for content in [
            LF_FILE_CONTENT,
            CRLF_FILE_CONTENT,
            MIXED_EOL_FILE_CONTENT,
            BINARY_FILE_CONTENT,
            b"",
            b"\r",
            b"a\r\r\nb",
            b"no eol",
        ] {
            let stored = snapshot(setting, content);
            assert_eq!(snapshot(setting, &stored), stored);
            assert_eq!(snapshot(setting, &checkout(setting, &stored)), stored);
        }
    }
}

#[test]
fn a_carriage_return_at_the_end_of_the_probe_is_lone() {
    let mut content = vec![b'a'; 8191];
    content.push(b'\n');
    let stored = snapshot("input-output", &content);
    assert_eq!(stored, content);
    let on_disk = checkout("input-output", &stored);
    assert_eq!(on_disk.len(), 8193);
    assert_eq!(snapshot("input-output", &on_disk), on_disk);
}

#[test]
fn a_carriage_return_before_crlf_past_the_probe_is_taken_for_text() {
    let mut content = vec![b'a'; 8192];
    content.extend_from_slice(b"\r\r\n");
    let mut once = vec![b'a'; 8192];
    once.extend_from_slice(b"\r\n");
    let mut twice = vec![b'a'; 8192];
    twice.extend_from_slice(b"\n");
    assert_eq!(snapshot("input", &content), once);
    assert_eq!(snapshot("input", &once), twice);
}

#[test]
fn conversions_compose() {
    for content in [LF_FILE_CONTENT, CRLF_FILE_CONTENT, MIXED_EOL_FILE_CONTENT, b"a\r\r\n\rb"] {
        let lf = convert_eol_inner(content, TargetEol::Lf);
        let crlf = convert_eol_inner(content, TargetEol::Crlf);
        assert_eq!(convert_eol_inner(&crlf, TargetEol::Lf), lf);
        assert_eq!(convert_eol_inner(&crlf, TargetEol::Crlf), crlf);
    }
    assert_eq!(
        convert_eol_inner(MIXED_EOL_FILE_CONTENT, TargetEol::Lf),
        LF_FILE_CONTENT
    );
    assert_eq!(
        convert_eol_inner(LF_FILE_CONTENT, TargetEol::Crlf),
        CRLF_FILE_CONTENT
    );
}

#[test]
fn binary_files_are_told_by_their_bytes() {
    assert!(!is_binary(b""));
    assert!(!is_binary(b"text\r\n\n\t\x08\x0c\x1b\xff"));
    assert!(is_binary(b"a\0b"));
    assert!(is_binary(b"a\rb"));
    assert!(is_binary(b"a\r"));
    assert!(is_binary(b"a\x7f"));
    assert!(is_binary(b"a\x01"));
    assert!(is_binary(BINARY_FILE_CONTENT));

    // One byte in 128 may be unprintable, rounded down.
    let mut content = vec![b'a'; 127];
    content.push(1);
    assert!(is_binary(&content));
    content.push(b'a');
    assert!(!is_binary(&content));
    content.push(2);
    assert!(is_binary(&content));
}

#[test]
fn only_the_first_bytes_are_probed() {
    let mut content = vec![b'a'; 8192];
    assert!(!is_binary(&content));
    content.push(0);
    assert!(!is_binary(&content));
    content[8191] = 0;
    assert!(is_binary(&content));
}

#[test]
fn targets_are_decided_without_a_probe_where_possible() {
    let steps = |eol_conversion_settings| {
        let strategy = TargetEolStrategyImpl { eol_conversion_settings };
        (
            strategy.get_target_eol_for_snapshot(),
            strategy.get_target_eol_for_update(),
        )
    };
    let pass = TargetEolStep::Decided(TargetEol::PassThrough);
    let probe = TargetEolStep::Probe { limit: 8192 };
    assert_eq!(steps(EolConversionSettings::NoConversion), (pass, pass));
    assert_eq!(steps(EolConversionSettings::Input), (probe, pass));
    assert_eq!(steps(EolConversionSettings::InputOutput), (probe, probe));
}

#[test]
fn probe_errors_name_the_file() {
    fn io() -> ErrorSource {
        ErrorSource::Io(std::io::Error::other("broken"))
    }
    fn check(error: EolError, message: &str) {
        assert_eq!(error.message, message);
        match *error.source.expect("should have a source") {
            ErrorSource::Io(e) => assert_eq!(e.to_string(), "broken"),
            ErrorSource::Store(said) => assert_eq!(said, "no such file"),
            ErrorSource::Config(_) => panic!("should come from reading"),
        }
    }
    let strategy = TargetEolStrategyImpl {
        eol_conversion_settings: EolConversionSettings::InputOutput,
    };
    check(
        strategy
            .get_target_eol_for_probed_snapshot("/repo/f", ProbeOutcome::OpenFailed(io()))
            .unwrap_err(),
        "failed to open the file /repo/f",
    );
    check(
        strategy
            .get_target_eol_for_probed_snapshot("/repo/f", ProbeOutcome::ReadFailed(io()))
            .unwrap_err(),
        "failed to read from the file /repo/f",
    );
    check(
        strategy
            .get_target_eol_for_probed_update(
                "dir/f",
                ProbeOutcome::OpenFailed(ErrorSource::Store("no such file".to_string())),
            )
            .unwrap_err(),
        "failed to create reader to the dir/f file from the store",
    );
    check(
        strategy
            .get_target_eol_for_probed_update("dir/f", ProbeOutcome::ReadFailed(io()))
            .unwrap_err(),
        "failed to read the dir/f file from the store",
    );
}
