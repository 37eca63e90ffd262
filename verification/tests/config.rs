use osnip::config::{expand_tilde, Config, ConfigError, RawConfig};
use osnip::save::{render_template, save_path, LocalTime};

fn raw(save_dir: Option<&str>, filename_template: Option<&str>) -> RawConfig {
    RawConfig {
        save_dir: save_dir.map(str::to_string),
        filename_template: filename_template.map(str::to_string),
    }
}

fn bytes(dir: Option<std::path::PathBuf>) -> Option<Vec<u8>> {
    dir.map(|dir| dir.into_os_string().into_encoded_bytes())
}

fn load(file: Option<Result<RawConfig, ConfigError>>) -> Result<Config, ConfigError> {
    Config::load(file, bytes(dirs::picture_dir()).as_ref(), bytes(dirs::home_dir()).as_ref())
}

fn moment() -> LocalTime {
    LocalTime::new(2026, 5, 6, 15, 30, 12).expect("a day of the calendar")
}

#[test]
fn defaults_have_template_and_dir() {
    let pictures = bytes(dirs::picture_dir());
    let cfg = Config::with_defaults(pictures.as_ref(), bytes(dirs::home_dir()).as_ref());
    assert!(cfg.filename_template.contains("{timestamp}"));
    assert!(!cfg.save_dir.is_empty());
}

#[test]
fn parses_full_config() {
    let cfg = load(Some(Ok(raw(Some("/tmp/snips"), Some("x-{timestamp}.png")))))
        .expect("load");
    assert_eq!(cfg.save_dir, b"/tmp/snips".to_vec());
    assert_eq!(cfg.filename_template, "x-{timestamp}.png");
}

#[test]
fn missing_fields_fall_back_to_defaults() {
    let cfg = load(Some(Ok(raw(Some("/tmp/only-save"), None)))).expect("load");
    assert_eq!(cfg.save_dir, b"/tmp/only-save".to_vec());
    assert_eq!(cfg.filename_template, "osnip-{timestamp}.png");
}

#[test]
fn malformed_config_is_an_error() {
    let error = ConfigError::Parse { path: "/c.toml".into(), message: "bad".into() };
    let got = load(Some(Err(error.clone()))).expect_err("should fail");
    assert_eq!(got, error);
    assert_eq!(got.message(), "parse /c.toml: bad");
    let unreadable = ConfigError::Read { path: "/c.toml".into(), message: "denied".into() };
    assert_eq!(unreadable.message(), "read /c.toml: denied");
}

#[test]
fn no_file_means_defaults() {
    let home = b"/home/me".to_vec();
    for picture in [None, Some(b"/home/me/Bilder".to_vec())] {
        for home in [None, Some(home.clone())] {
            assert_eq!(
                Config::load(None, picture.as_ref(), home.as_ref()).expect("load"),
                Config::with_defaults(picture.as_ref(), home.as_ref())
            );
        }
    }
}

#[test]
fn tilde_in_save_dir_expands() {
    let home = dirs::home_dir().expect("home dir for test");
    let expected = home.join("snips").into_os_string().into_encoded_bytes();
    let cfg = load(Some(Ok(raw(Some("~/snips"), None)))).expect("load");
    assert_eq!(cfg.save_dir, expected);
}

#[test]
fn tilde_expands_only_in_front() {
    let home = b"/home/me".to_vec();
    assert_eq!(expand_tilde("~/snips", Some(&home)), b"/home/me/snips".to_vec());
    assert_eq!(expand_tilde("~", Some(&home)), b"/home/me".to_vec());
    assert_eq!(expand_tilde("~you/snips", Some(&home)), b"~you/snips".to_vec());
    assert_eq!(expand_tilde("/a/~/b", Some(&home)), b"/a/~/b".to_vec());
    assert_eq!(expand_tilde("~/snips", None), b"~/snips".to_vec());
    assert_eq!(expand_tilde("", Some(&home)), b"".to_vec());
}

#[test]
fn default_directories_by_precedence() {
    let pictures = b"/home/me/Bilder".to_vec();
    let home = b"/home/me".to_vec();
    let cfg = Config::with_defaults(Some(&pictures), Some(&home));
    assert_eq!(cfg.save_dir, b"/home/me/Bilder/osnip".to_vec());
    let cfg = Config::with_defaults(None, Some(&home));
    assert_eq!(cfg.save_dir, b"/home/me/Pictures/osnip".to_vec());
    assert_eq!(Config::with_defaults(None, None).save_dir, b"./osnip".to_vec());
    let file = Some(Ok(raw(Some("~"), None)));
    let cfg = Config::load(file, Some(&pictures), Some(&home)).expect("load");
    assert_eq!(cfg.save_dir, home);
}

#[test]
fn the_file_lies_in_the_configuration_directory() {
    let dir = b"/home/me/.config".to_vec();
    assert_eq!(
        Config::config_path_from(Some(&dir)),
        b"/home/me/.config/osnip/config.toml".to_vec()
    );
    assert_eq!(Config::config_path_from(None), b"./osnip-config.toml".to_vec());
    let expected = match dirs::config_dir() {
        Some(dir) => dir.join("osnip").join("config.toml").into_os_string().into_encoded_bytes(),
        None => b"./osnip-config.toml".to_vec(),
    };
    assert_eq!(Config::config_path(), expected);
}

#[test]
fn template_substitutes_timestamp() {
    assert_eq!(
        render_template("osnip-{timestamp}.png", &moment()),
        "osnip-20260506-153012.png"
    );
}

#[test]
fn template_without_token_is_passthrough() {
    assert_eq!(render_template("static.png", &moment()), "static.png");
}

#[test]
fn template_fills_every_token() {
    assert_eq!(
        render_template("{timestamp}{{timestamp}}", &moment()),
        "20260506-153012{20260506-153012}"
    );
    assert_eq!(render_template("{timestamp", &moment()), "{timestamp");
}

#[test]
fn stamps_are_padded() {
    let early = LocalTime::new(7, 1, 2, 3, 4, 5).expect("a day of the calendar");
    assert_eq!(early.stamp(), "00070102-030405");
    let late = LocalTime::new(12345, 12, 31, 23, 59, 59).expect("a day of the calendar");
    assert_eq!(late.stamp(), "+123451231-235959");
    let ancient = LocalTime::new(-5, 1, 1, 0, 0, 0).expect("a day of the calendar");
    assert_eq!(ancient.stamp(), "-00050101-000000");
}

#[test]
fn only_days_of_the_calendar_are_accepted() {
    assert!(LocalTime::new(2024, 2, 29, 0, 0, 0).is_some());
    assert!(LocalTime::new(2023, 2, 29, 0, 0, 0).is_none());
    assert!(LocalTime::new(1900, 2, 29, 0, 0, 0).is_none());
    assert!(LocalTime::new(2000, 2, 29, 0, 0, 0).is_some());
    assert!(LocalTime::new(-4, 2, 29, 0, 0, 0).is_some());
    assert!(LocalTime::new(2026, 4, 31, 0, 0, 0).is_none());
    assert!(LocalTime::new(2026, 13, 1, 0, 0, 0).is_none());
    assert!(LocalTime::new(2026, 0, 1, 0, 0, 0).is_none());
    assert!(LocalTime::new(2026, 1, 0, 0, 0, 0).is_none());
    assert!(LocalTime::new(2026, 1, 1, 24, 0, 0).is_none());
    assert!(LocalTime::new(2026, 1, 1, 0, 60, 0).is_none());
    assert!(LocalTime::new(2026, 1, 1, 0, 0, 60).is_none());
    assert!(LocalTime::new(262143, 1, 1, 0, 0, 0).is_none());
    for (year, stamp) in [(262142, "+2621421231-000000"), (-262143, "-2621431231-000000")] {
        let edge = LocalTime::new(year, 12, 31, 0, 0, 0).expect("a day of the calendar");
        assert_eq!(edge.stamp(), stamp);
    }
}

#[test]
fn pins_are_saved_in_the_save_directory() {
    let cfg = Config {
        save_dir: b"/tmp/snips".to_vec(),
        filename_template: "x-{timestamp}.png".into(),
    };
    assert_eq!(save_path(&cfg, &moment()), b"/tmp/snips/x-20260506-153012.png".to_vec());
}
