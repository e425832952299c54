use datafusion_exec::file_type::{
    config_file_type_from_lowercase, config_file_type_from_str, ConfigFileType,
};

#[test]
fn known_file_types() {
    assert_eq!(config_file_type_from_str("csv"), Some(ConfigFileType::CSV));
    assert_eq!(config_file_type_from_str("json"), Some(ConfigFileType::JSON));
    assert_eq!(config_file_type_from_str("parquet"), Some(ConfigFileType::PARQUET));
}

#[test]
fn file_types_in_any_case() {
    assert_eq!(config_file_type_from_str("CSV"), Some(ConfigFileType::CSV));
    assert_eq!(config_file_type_from_str("Json"), Some(ConfigFileType::JSON));
    assert_eq!(config_file_type_from_str("pArQuEt"), Some(ConfigFileType::PARQUET));
}

#[test]
fn custom_file_types() {
    for ext in ["", "avro", "arrow", "csv.gz", " csv", "c\u{17f}v", "pq"] {
        assert_eq!(config_file_type_from_str(ext), None);
    }
}

#[test]
fn lower_case_names_are_taken_as_they_are() {
    assert_eq!(config_file_type_from_lowercase("csv"), Some(ConfigFileType::CSV));
    assert_eq!(config_file_type_from_lowercase("CSV"), None);
}
