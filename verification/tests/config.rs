use std::path::PathBuf;

use letsnote_wheelpad::config::{Config, ConfigFile, ConfigRequest, ConfigSource};
use letsnote_wheelpad::error::{Error, IoFailure, IoKind};
use letsnote_wheelpad::float64::Float64;

fn float(value: f64) -> Float64 {
    Float64 {
        bits: value.to_bits(),
    }
}

fn value(float: Float64) -> f64 {
    f64::from_bits(float.bits)
}

fn missing() -> ConfigFile {
    ConfigFile::Unreadable(IoFailure {
        kind: IoKind::NotFound,
        os_error: Some(2),
        text: "No such file or directory".to_string(),
    })
}

#[test]
fn defaults_match_windows() {
    let c = Config::default();
    assert!(c.scroll.enable);
    assert!(!c.scroll.reverse_vertical);
    assert!(!c.scroll.horizontal_enable);
    assert_eq!(c.scroll.sensitivity, 0);
    assert_eq!(c.scroll.detect_area_width, 0);
    assert_eq!(value(c.scroll.detect_area_radius), 200.0);
    assert_eq!(value(c.scroll.coordinate_y_scale), 1.0);
    assert_eq!(value(c.scroll.minimum_rotation_radius), 250.0);
    assert_eq!(c.scroll.horizontal_start, 2);
    assert_eq!(c.scroll.horizontal_end, 6);
    assert_eq!(c.device_name_regex, "Synaptics.*TM3562");
    assert_eq!(c.log.level, "info");
    assert!(c.device.is_none());
    assert!(c.validate().is_ok());
}

#[test]
fn validate_rejects_out_of_range_sensitivity() {
    let mut c = Config::default();
    c.scroll.sensitivity = 5;
    assert!(c.validate().is_err());
}

#[test]
fn validate_rejects_invalid_radial_gate_geometry() {
    let mut c = Config::default();
    c.scroll.detect_area_radius = float(0.0);
    assert!(c.validate().is_err());

    c.scroll.detect_area_radius = float(200.0);
    c.scroll.coordinate_y_scale = float(f64::NAN);
    assert!(c.validate().is_err());

    c.scroll.coordinate_y_scale = float(1.0);
    c.scroll.minimum_rotation_radius = float(-1.0);
    assert!(c.validate().is_err());
}

#[test]
fn validate_names_the_setting() {
    let check = |change: fn(&mut Config), expected_key: &str, expected_value: i64| {
        let mut c = Config::default();
        change(&mut c);
        match c.validate() {
            Err(Error::ConfigRange { key, value, .. }) => {
                assert_eq!(key, expected_key);
                assert_eq!(value, expected_value);
            }
            other => panic!("unexpected result: {other:?}"),
        }
    };
    check(|c| c.scroll.sensitivity = -3, "scroll.sensitivity", -3);
    check(|c| c.scroll.detect_area_width = 11, "scroll.detect_area_width", 11);
    check(|c| c.scroll.horizontal_start = -1, "scroll.horizontal_start", -1);
    check(|c| c.scroll.horizontal_end = 16, "scroll.horizontal_end", 16);
}

#[test]
fn validate_reads_floating_point_settings_exactly() {
    let radius = |value: f64| {
        let mut c = Config::default();
        c.scroll.detect_area_radius = float(value);
        c.validate().is_ok()
    };
    assert!(radius(f64::MIN_POSITIVE));
    assert!(radius(f64::from_bits(1)));
    assert!(radius(f64::MAX));
    assert!(!radius(f64::INFINITY));
    assert!(!radius(f64::NEG_INFINITY));
    assert!(!radius(-0.0));
    assert!(!radius(-5.0));
    let rotation = |value: f64| {
        let mut c = Config::default();
        c.scroll.minimum_rotation_radius = float(value);
        c.validate()
    };
    assert!(rotation(0.0).is_ok());
    assert!(rotation(-0.0).is_ok());
    match rotation(f64::INFINITY) {
        Err(Error::ConfigFloatRange { key, value: at, expected }) => {
            assert_eq!(key, "scroll.minimum_rotation_radius");
            assert_eq!(value(at), f64::INFINITY);
            assert_eq!(expected, "a finite value greater than or equal to 0");
        }
        other => panic!("unexpected result: {other:?}"),
    }
}

#[test]
fn explicit_existing_file_is_loaded() {
    let path = PathBuf::from("explicit.toml");
    let mut parsed = Config::default();
    parsed.scroll.sensitivity = -1;

    let loaded = Config::load(
        ConfigRequest::Explicit(path.clone()),
        ConfigFile::Parsed(parsed),
    )
    .unwrap();

    assert_eq!(loaded.config.scroll.sensitivity, -1);
    assert_eq!(loaded.source, ConfigSource::File(path));
}

#[test]
fn explicit_missing_file_is_fatal_and_returns_no_defaults() {
    let path = PathBuf::from("missing.toml");

    let error = Config::load(ConfigRequest::Explicit(path.clone()), missing()).unwrap_err();

    match error {
        Error::ConfigIo {
            path: error_path,
            source,
        } => {
            assert_eq!(error_path, path);
            assert_eq!(source.kind, IoKind::NotFound);
        }
        other => panic!("unexpected error: {other:?}"),
    }
}

#[test]
fn implicit_existing_file_is_loaded() {
    let path = PathBuf::from("implicit.toml");
    let mut parsed = Config::default();
    parsed.scroll.horizontal_enable = true;

    let loaded = Config::load(
        ConfigRequest::ImplicitDefault(path.clone()),
        ConfigFile::Parsed(parsed),
    )
    .unwrap();

    assert!(loaded.config.scroll.horizontal_enable);
    assert_eq!(loaded.source, ConfigSource::File(path));
}

#[test]
fn implicit_missing_file_uses_compiled_defaults() {
    let path = PathBuf::from("missing.toml");

    let loaded = Config::load(ConfigRequest::ImplicitDefault(path), missing()).unwrap();

    assert_eq!(
        loaded.config.scroll.sensitivity,
        Config::default().scroll.sensitivity
    );
    assert_eq!(
        loaded.config.device_name_regex,
        Config::default().device_name_regex
    );
}

#[test]
fn implicit_missing_file_reports_compiled_default_source() {
    let path = PathBuf::from("missing.toml");

    let loaded = Config::load(ConfigRequest::ImplicitDefault(path.clone()), missing()).unwrap();

    assert_eq!(
        loaded.source,
        ConfigSource::CompiledDefaults { missing_path: path }
    );
}

#[test]
fn implicit_file_that_cannot_be_read_is_fatal() {
    let path = PathBuf::from("secret.toml");
    let file = ConfigFile::Unreadable(IoFailure::other("permission denied"));
    assert!(matches!(
        Config::load(ConfigRequest::ImplicitDefault(path), file),
        Err(Error::ConfigIo { source, .. }) if source.text == "permission denied"
    ));
}

#[test]
fn config_parse_error_is_fatal() {
    let path = PathBuf::from("invalid.toml");

    let error = Config::load(
        ConfigRequest::ImplicitDefault(path.clone()),
        ConfigFile::Malformed("invalid table header".to_string()),
    )
    .unwrap_err();

    assert!(matches!(
        error,
        Error::ConfigParse {
            path: error_path,
            ..
        } if error_path == path
    ));
}

#[test]
fn config_range_error_is_fatal() {
    let path = PathBuf::from("out-of-range.toml");
    let mut parsed = Config::default();
    parsed.scroll.sensitivity = 3;

    let error =
        Config::load(ConfigRequest::Explicit(path), ConfigFile::Parsed(parsed)).unwrap_err();

    assert!(matches!(
        error,
        Error::ConfigRange {
            key: "scroll.sensitivity",
            ..
        }
    ));
}

#[test]
fn default_path_prefers_the_configuration_home() {
    assert_eq!(
        Config::default_path(Some("/cfg"), Some("/home/u")),
        "/cfg/letsnote-wheelpad/config.toml"
    );
    assert_eq!(
        Config::default_path(Some("/cfg/"), None),
        "/cfg/letsnote-wheelpad/config.toml"
    );
    assert_eq!(
        Config::default_path(Some(""), Some("/home/u")),
        "/home/u/.config/letsnote-wheelpad/config.toml"
    );
    assert_eq!(
        Config::default_path(None, None),
        "./.config/letsnote-wheelpad/config.toml"
    );
    for (xdg, home) in [(Some("/cfg"), "/h"), (Some("rel/"), "/h"), (None, ""), (None, "/h/")] {
        let expected = match xdg {
            Some(directory) => PathBuf::from(directory),
            None => PathBuf::from(home).join(".config"),
        };
        assert_eq!(
            Config::default_path(xdg, Some(home)),
            expected
                .join("letsnote-wheelpad")
                .join("config.toml")
                .to_str()
                .unwrap()
        );
    }
}

#[test]
fn settings_can_be_cloned() {
    let loaded = Config::load(
        ConfigRequest::ImplicitDefault(PathBuf::from("/etc/config.toml")),
        missing(),
    )
    .unwrap();
    let copy = loaded.clone();
    assert_eq!(copy.source, loaded.source);
    assert_eq!(copy.config.scroll, loaded.config.scroll);
    assert_eq!(copy.config.device_name_regex, loaded.config.device_name_regex);
}
