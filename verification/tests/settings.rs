use xeddsa::config::Config;
use xeddsa::log::{LabelColor, LogLevel};

#[test]
fn default_settings() {
    let config = Config::default();
    assert_eq!(config.name, "Latifa");
    assert!(!config.debug);
    assert_eq!(config.locale, "en");
    assert_eq!(config.ip, "0.0.0.0");
    assert_eq!(config.port, 31921);
}

#[test]
fn labels_of_the_levels() {
    assert_eq!(LogLevel::Stack.label(), "STACK");
    assert_eq!(LogLevel::Debug.label(), "DEBUG");
    assert_eq!(LogLevel::Verbose.label(), "VERBO");
    assert_eq!(LogLevel::Info.label(), " INFO");
    assert_eq!(LogLevel::Warn.label(), " WARN");
    assert_eq!(LogLevel::Error.label(), "ERROR");
    assert_eq!(LogLevel::Off.label(), "");
}

#[test]
fn colors_of_the_levels() {
    assert_eq!(LogLevel::Stack.color(), LabelColor::Plain);
    assert_eq!(LogLevel::Debug.color(), LabelColor::Green);
    assert_eq!(LogLevel::Verbose.color(), LabelColor::Plain);
    assert_eq!(LogLevel::Info.color(), LabelColor::Plain);
    assert_eq!(LogLevel::Warn.color(), LabelColor::Yellow);
    assert_eq!(LogLevel::Error.color(), LabelColor::Red);
    assert_eq!(LogLevel::Off.color(), LabelColor::Plain);
}
