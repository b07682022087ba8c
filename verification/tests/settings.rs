use hearth::settings::{
    autostart_value, backup_dir_choice, clean_backup_dir, key_to_store, launched_hidden,
    AiSettingsFull, BackupDir, SaveAiSettingsInput,
};

#[test]
fn redact_hides_the_key_but_reports_presence() {
    let with_key = AiSettingsFull {
        openai_api_key: Some("sk-abc".into()),
    };
    let v = with_key.redact();
    assert!(v.has_openai_key);
}

#[test]
fn redact_reports_absence_when_key_is_none_or_empty() {
    let none = AiSettingsFull {
        openai_api_key: None,
    };
    assert!(!none.redact().has_openai_key);

    let empty = AiSettingsFull {
        openai_api_key: Some(String::new()),
    };
    assert!(!empty.redact().has_openai_key);
}

#[test]
fn stored_key_reads_back_as_none_when_empty() {
    assert_eq!(AiSettingsFull::from_stored(String::new()).openai_api_key, None);
    assert_eq!(
        AiSettingsFull::from_stored("sk-1".to_string()).openai_api_key,
        Some("sk-1".to_string())
    );
}

#[test]
fn saving_trims_pasted_whitespace() {
    let req = SaveAiSettingsInput { openai_api_key: Some("  sk-xyz\n".to_string()) };
    assert_eq!(key_to_store(&req), Some("sk-xyz".to_string()));
    let keep = SaveAiSettingsInput { openai_api_key: None };
    assert_eq!(key_to_store(&keep), None);
    let clear = SaveAiSettingsInput { openai_api_key: Some("   ".to_string()) };
    assert_eq!(key_to_store(&clear), Some(String::new()));
}

#[test]
fn save_then_view_reports_a_non_blank_key_only() {
    let saved = key_to_store(&SaveAiSettingsInput { openai_api_key: Some(" \t".to_string()) }).unwrap();
    assert!(!AiSettingsFull::from_stored(saved).redact().has_openai_key);
    let saved = key_to_store(&SaveAiSettingsInput { openai_api_key: Some(" sk ".to_string()) }).unwrap();
    assert!(AiSettingsFull::from_stored(saved).redact().has_openai_key);
}

#[test]
fn fallback_to_app_data_when_key_absent() {
    let configured = String::new();
    assert!(configured.is_empty(), "precondition: no configured backup dir");
    let fake_app_data = std::path::PathBuf::from("/tmp/hearth-test");
    let resolved = match backup_dir_choice(configured) {
        BackupDir::AppDataDefault => fake_app_data.join("backups"),
        BackupDir::Configured(p) => std::path::PathBuf::from(p),
    };
    assert_eq!(resolved, std::path::PathBuf::from("/tmp/hearth-test/backups"));
}

#[test]
fn configured_dir_is_returned_when_set() {
    let configured = "/Users/test/hearth-backups".to_string();
    let fake_app_data = std::path::PathBuf::from("/tmp/hearth-test");
    let resolved = match backup_dir_choice(configured) {
        BackupDir::AppDataDefault => fake_app_data.join("backups"),
        BackupDir::Configured(p) => std::path::PathBuf::from(p),
    };
    assert_eq!(resolved, std::path::PathBuf::from("/Users/test/hearth-backups"));
}

#[test]
fn backup_dir_must_not_be_blank() {
    assert_eq!(clean_backup_dir("   ").unwrap_err(), "백업 위치가 비어 있습니다");
    assert_eq!(clean_backup_dir(" /backups \n").unwrap(), "/backups");
}

#[test]
fn autostart_flag_and_hidden_launch() {
    assert_eq!(autostart_value(true), "1");
    assert_eq!(autostart_value(false), "0");
    assert!(launched_hidden(&vec!["hearth".to_string(), "--hidden".to_string()]));
    assert!(!launched_hidden(&vec!["hearth".to_string()]));
}
