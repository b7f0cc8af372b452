use playlist_fixer::conf::Config;
use playlist_fixer::error::ErrorKind;

fn config(input_file: &str, output_file: &str, new_ext: &str) -> Config {
    Config {
        input_file: input_file.to_string(),
        output_file: output_file.to_string(),
        new_ext: new_ext.to_string(),
    }
}

#[test]
fn test_validate_with_valid_conf() {
    let config = Config {
        input_file: "/path/to/input.m3u8".to_string(),
        output_file: "/path/to/output.m3u8".to_string(),
        new_ext: ".m4a".to_string(),
    };

    let result = config.validate();
    assert!(result.is_ok());
}

#[test]
fn test_validate_with_invalid_conf() {
    {
        // `inputFile` shouldn't be empty.
        let config = Config {
            input_file: "".to_string(),
            output_file: "".to_string(),
            new_ext: "".to_string(),
        };

        let result = config.validate();
        assert!(result.is_err());
    }

    {
        // `outputFile` shouldn't be empty.
        let config = Config {
            input_file: "/path/to/input.m3u8".to_string(),
            output_file: "".to_string(),
            new_ext: "".to_string(),
        };

        let result = config.validate();
        assert!(result.is_err());
    }

    {
        // `newExt` shouldn't be empty.
        let config = Config {
            input_file: "/path/to/input.m3u8".to_string(),
            output_file: "/path/to/output.m3u8".to_string(),
            new_ext: "".to_string(),
        };

        let result = config.validate();
        assert!(result.is_err());
    }

    {
        // `inputFile` shouldn't be the same as `outputFile`.
        let config = Config {
            input_file: "/path/to/input.m3u8".to_string(),
            output_file: "/path/to/input.m3u8".to_string(),
            new_ext: ".m4a".to_string(),
        };

        let result = config.validate();
        assert!(result.is_err());
    }
}

#[test]
fn validate_reports_the_first_fault_with_its_message() {
    let e = config("", "", "").validate().unwrap_err();
    assert_eq!(e.kind, ErrorKind::Config);
    assert_eq!(e.message, "`inputFile` is empty");

    let e = config("in", "", "").validate().unwrap_err();
    assert_eq!(e.message, "`outputFile` is empty");

    let e = config("in", "out", "").validate().unwrap_err();
    assert_eq!(e.message, "`newExt` is empty");

    let e = config("same", "same", ".m4a").validate().unwrap_err();
    assert_eq!(e.kind, ErrorKind::Config);
    assert_eq!(e.message, "`inputFile` shouldn't be the same as `outputFile`");
}

#[test]
fn validate_accepts_files_that_differ_in_one_character() {
    assert_eq!(config("a.m3u8", "b.m3u8", "x").validate(), Ok(()));
}
