use yellowstone_grpc_kafka::mode::{ansi_enabled, select_stage, ConfigError, Mode, Sections};

const ALL: Sections = Sections { dedup: true, grpc2kafka: true, kafka2grpc: true };
const NONE: Sections = Sections { dedup: false, grpc2kafka: false, kafka2grpc: false };

#[test]
fn default_mode_is_grpc2kafka() {
    assert_eq!(Mode::default(), Mode::Grpc2Kafka);
    assert_eq!(select_stage(None, ALL), Ok(Mode::Grpc2Kafka));
}

#[test]
fn chosen_mode_runs_when_its_section_is_defined() {
    for mode in [Mode::Dedup, Mode::Grpc2Kafka, Mode::Kafka2Grpc] {
        assert_eq!(select_stage(Some(mode), ALL), Ok(mode));
    }
    let only_dedup = Sections { dedup: true, ..NONE };
    assert_eq!(select_stage(Some(Mode::Dedup), only_dedup), Ok(Mode::Dedup));
}

#[test]
fn missing_section_is_an_error() {
    for mode in [Mode::Dedup, Mode::Grpc2Kafka, Mode::Kafka2Grpc] {
        assert_eq!(select_stage(Some(mode), NONE), Err(ConfigError::MissingSection(mode)));
    }
    assert_eq!(select_stage(None, NONE), Err(ConfigError::MissingSection(Mode::Grpc2Kafka)));
    let without_dedup = Sections { dedup: false, ..ALL };
    assert_eq!(
        select_stage(Some(Mode::Dedup), without_dedup),
        Err(ConfigError::MissingSection(Mode::Dedup))
    );
    assert_eq!(select_stage(Some(Mode::Kafka2Grpc), without_dedup), Ok(Mode::Kafka2Grpc));
}

#[test]
fn missing_section_messages() {
    assert_eq!(
        ConfigError::MissingSection(Mode::Dedup).message(),
        "`dedup` section in config should be defined"
    );
    assert_eq!(
        ConfigError::MissingSection(Mode::Grpc2Kafka).message(),
        "`grpc2kafka` section in config should be defined"
    );
    assert_eq!(
        ConfigError::MissingSection(Mode::Kafka2Grpc).message(),
        "`kafka2grpc` section in config should be defined"
    );
}

#[test]
fn section_names() {
    assert_eq!(Mode::Dedup.section(), "dedup");
    assert_eq!(Mode::Grpc2Kafka.section(), "grpc2kafka");
    assert_eq!(Mode::Kafka2Grpc.section(), "kafka2grpc");
}

#[test]
fn ansi_only_when_both_streams_are_terminals() {
    assert!(ansi_enabled(true, true));
    assert!(!ansi_enabled(true, false));
    assert!(!ansi_enabled(false, true));
    assert!(!ansi_enabled(false, false));
}
