use flibooks::conf::{log_level_of, LogLevel, Settings};

#[test]
fn default_settings() {
    let s = Settings::default();
    assert_eq!(s.log_level, "info");
    assert_eq!(s.log_config, "log4rs.yml");
    assert_eq!(s.elastic_url, "http://localhost:9200");
    assert_eq!(s.elastic_index, "flibooks");
    assert_eq!(s.listen_address, "localhost:3000");
}

#[test]
fn log_levels_by_name() {
    assert_eq!(log_level_of("info"), LogLevel::Info);
    assert_eq!(log_level_of("DEBUG"), LogLevel::Debug);
    assert_eq!(log_level_of("Trace"), LogLevel::Trace);
    assert_eq!(log_level_of("warn"), LogLevel::Warn);
    assert_eq!(log_level_of("error"), LogLevel::Error);
    assert_eq!(log_level_of("verbose"), LogLevel::Off);
}
