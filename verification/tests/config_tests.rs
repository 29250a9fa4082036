use cnet::config::{load_config_if_exists, ConfigError, ConfigFileState, StoredConfig};

fn sample() -> StoredConfig {
    StoredConfig {
        username: "20230101".to_string(),
        password: "pw".to_string(),
        package: "p1".to_string(),
    }
}

#[test]
fn load_absent_is_none() {
    assert!(matches!(load_config_if_exists(ConfigFileState::Absent), Ok(None)));
}

#[test]
fn load_parsed_is_some() {
    match load_config_if_exists(ConfigFileState::Parsed(sample())) {
        Ok(Some(c)) => {
            assert_eq!(c.username, "20230101");
            assert_eq!(c.password, "pw");
            assert_eq!(c.package, "p1");
        }
        other => panic!("unexpected {other:?}"),
    }
}

#[test]
fn load_without_directory_fails() {
    let r = load_config_if_exists(ConfigFileState::DirUnavailable);
    match r {
        Err(e @ ConfigError::ConfigDirUnavailable) => {
            assert_eq!(e.to_string(), "无法确定配置文件目录")
        }
        other => panic!("unexpected {other:?}"),
    }
}

#[test]
fn load_unreadable_is_io_error() {
    let err = std::io::Error::new(std::io::ErrorKind::PermissionDenied, "denied");
    match load_config_if_exists(ConfigFileState::Unreadable(err)) {
        Err(e @ ConfigError::Io(_)) => assert_eq!(e.to_string(), "denied"),
        other => panic!("unexpected {other:?}"),
    }
}

#[test]
fn load_unparsable_is_invalid() {
    let err = serde_json::from_str::<serde_json::Value>("{").unwrap_err();
    let text = err.to_string();
    match load_config_if_exists(ConfigFileState::Unparsable(err)) {
        Err(e @ ConfigError::Invalid(_)) => assert_eq!(e.to_string(), text),
        other => panic!("unexpected {other:?}"),
    }
}

#[test]
fn config_error_from_conversions() {
    let io = std::io::Error::new(std::io::ErrorKind::Other, "x");
    assert!(matches!(ConfigError::from(io), ConfigError::Io(_)));
    let json = serde_json::from_str::<serde_json::Value>("[").unwrap_err();
    assert!(matches!(ConfigError::from(json), ConfigError::Invalid(_)));
}

#[test]
fn is_io_by_variant() {
    let io = std::io::Error::new(std::io::ErrorKind::Other, "x");
    assert!(ConfigError::Io(io).is_io());
    let json = serde_json::from_str::<serde_json::Value>("{").unwrap_err();
    assert!(!ConfigError::Invalid(json).is_io());
    assert!(!ConfigError::ConfigDirUnavailable.is_io());
    let wrapped = serde_json::Error::io(std::io::Error::new(std::io::ErrorKind::Other, "y"));
    assert!(ConfigError::Invalid(wrapped).is_io());
}

#[test]
fn invalid_message_is_serde_text() {
    let json = serde_json::from_str::<serde_json::Value>("[1,").unwrap_err();
    let expected = json.to_string();
    assert_eq!(expected, "EOF while parsing a value at line 1 column 3");
    assert_eq!(ConfigError::Invalid(json).to_string(), expected);
}
