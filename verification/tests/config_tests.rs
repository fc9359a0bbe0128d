use booru_dl::cli::Cli;
use booru_dl::config::{Config, ConfigError};

#[test]
fn test_parse_empty_tags() {
    let config = Config {
        tags: String::from(""),
        num_imgs: 1,
        download_dir: String::from("test"),
        timeout: 10,
    };
    config.validate().expect_err("empty tags should be invalid");
}

#[test]
fn valid_config_passes() {
    let config = Config {
        tags: String::from("cat"),
        num_imgs: 10,
        download_dir: String::from("download_dir"),
        timeout: 0,
    };
    assert!(config.validate().is_ok());
}

#[test]
fn zero_images_is_invalid() {
    let config = Config {
        tags: String::from("cat"),
        num_imgs: 0,
        download_dir: String::from("test"),
        timeout: 10,
    };
    assert_eq!(config.validate().unwrap_err(), ConfigError::ZeroImages);
    assert_eq!(
        ConfigError::EmptyTags.message(),
        "tags must not be empty"
    );
}

#[test]
fn cli_carries_optional_config() {
    let cli = Cli { config: None };
    assert!(cli.config.is_none());
    let cli = Cli {
        config: Some(Config {
            tags: String::from("cat"),
            num_imgs: 1,
            download_dir: String::from("d"),
            timeout: 0,
        }),
    };
    assert!(cli.config.is_some());
}
