use cache::config::Config;
use cache::config::ConfigError;
use cache::config::FieldKey;
use cache::config::Setting;

fn test_file_settings() -> Vec<Setting> {
    vec![
        Setting::new("s3", "access_key", "test_key"),
        Setting::new("s3", "access_secret", "test_secret"),
        Setting::new("s3", "region", "us-east-1"),
        Setting::new("s3", "bucket", "test-bucket"),
        Setting::new("s3", "scheme", "s3"),
        Setting::new("minio", "access_key", "minio_key"),
        Setting::new("minio", "access_secret", "minio_secret"),
        Setting::new("minio", "endpoint", "http://localhost:9000"),
        Setting::new("minio", "region", "us-east-1"),
        Setting::new("minio", "bucket", "test-minio-bucket"),
        Setting::new("minio", "scheme", "minio"),
    ]
}

#[test]
fn test_from_file() {
    let config = Config::from_file("tests/config/test", &test_file_settings()).unwrap();
    assert_eq!(config.storages.len(), 2);

    let s3_config = config.storages.get("s3").unwrap();
    assert_eq!(s3_config.bucket, "test-bucket");
    assert_eq!(s3_config.region, "us-east-1");

    let minio_config = config.storages.get("minio").unwrap();
    assert_eq!(minio_config.bucket, "test-minio-bucket");
    assert!(minio_config.endpoint.is_some());
}

#[test]
fn from_file_keeps_the_order_of_first_mention() {
    let config = Config::from_file("tests/config/test", &test_file_settings()).unwrap();
    assert_eq!(config.storages.name_at(0), "s3");
    assert_eq!(config.storages.name_at(1), "minio");
    assert!(config.storages.get("oss").is_none());
    assert!(config.storages.config_at(0).endpoint.is_none());
}

#[test]
fn from_file_names_the_missing_field_and_the_path() {
    let settings = vec![
        Setting::new("s3", "access_key", "test_key"),
        Setting::new("s3", "access_secret", "test_secret"),
        Setting::new("s3", "region", "us-east-1"),
        Setting::new("s3", "scheme", "s3"),
    ];
    let err = Config::from_file("tests/config/test", &settings).err().unwrap();
    match &err {
        ConfigError::MissingField { origin, storage, field } => {
            assert_eq!(origin, "tests/config/test");
            assert_eq!(storage, "s3");
            assert_eq!(*field, FieldKey::Bucket);
        }
        other => panic!("{other:?}"),
    }
    assert_eq!(
        err.message(),
        "missing field `bucket` for storage `s3` in tests/config/test"
    );
}

#[test]
fn from_env_reads_the_settings_of_one_storage() {
    let settings = vec![
        Setting::new("s3", "access_key", "test_key"),
        Setting::new("s3", "access_secret", "test_secret"),
        Setting::new("s3", "region", "us-east-1"),
        Setting::new("s3", "bucket", "test-bucket"),
        Setting::new("s3", "scheme", "s3"),
    ];
    let config = Config::from_env(&settings).unwrap();
    assert_eq!(config.storages.len(), 1);

    let s3_config = config.storages.get("s3").unwrap();
    assert_eq!(s3_config.access_key, "test_key");
    assert_eq!(s3_config.access_secret, "test_secret");
    assert_eq!(s3_config.bucket, "test-bucket");
    assert_eq!(s3_config.scheme, "s3");
    assert!(s3_config.endpoint.is_none());

    let err = Config::from_env(&settings[..4].iter().map(Setting::duplicate).collect())
        .err()
        .unwrap();
    assert_eq!(
        err.message(),
        "missing field `scheme` for storage `s3` in the environment"
    );
    let none = Config::from_env(&vec![]).err().unwrap();
    assert_eq!(none, ConfigError::MissingStorages { origin: "the environment".to_string() });
    assert_eq!(none.message(), "missing field `storages` in the environment");
}

#[test]
fn load_lets_a_later_layer_override_an_earlier_one() {
    let default = test_file_settings();
    let local = vec![
        Setting::new("minio", "endpoint", "http://minio.local:9000"),
        Setting::new("oss", "bucket", "local-oss"),
    ];
    let env = vec![
        Setting::new("s3", "access_key", "override_key"),
        Setting::new("oss", "access_key", "ak"),
        Setting::new("oss", "access_secret", "sk"),
        Setting::new("oss", "region", "ap-east-1"),
        Setting::new("oss", "scheme", "oss"),
        Setting::new("oss", "comment", "ignored"),
    ];
    let config = Config::load(&default, &local, &env).unwrap();
    assert_eq!(config.storages.len(), 3);
    let s3_config = config.storages.get("s3").unwrap();
    assert_eq!(s3_config.access_key, "override_key");
    assert_eq!(s3_config.access_secret, "test_secret");
    let minio_config = config.storages.get("minio").unwrap();
    assert_eq!(minio_config.endpoint.as_deref(), Some("http://minio.local:9000"));
    assert_eq!(minio_config.bucket, "test-minio-bucket");
    assert_eq!(config.storages.name_at(2), "oss");
    assert_eq!(config.storages.config_at(2).bucket, "local-oss");
    assert_eq!(config.storages.config_at(2).region, "ap-east-1");

    let err = Config::load(&vec![], &local, &vec![]).err().unwrap();
    assert_eq!(
        err,
        ConfigError::MissingField {
            origin: "config/default".to_string(),
            storage: "minio".to_string(),
            field: FieldKey::AccessKey,
        }
    );
}

#[test]
fn a_storage_map_puts_a_descriptor_in_the_place_of_an_earlier_one() {
    let config = Config::from_file("tests/config/test", &test_file_settings()).unwrap();
    let mut storages = config.storages;
    let replacement = storages.get("minio").unwrap().duplicate();
    storages.insert("s3".to_string(), replacement);
    assert_eq!(storages.len(), 2);
    assert_eq!(storages.name_at(0), "s3");
    assert_eq!(storages.config_at(0).bucket, "test-minio-bucket");
    assert_eq!(storages.get("s3").unwrap().scheme, "minio");
}

#[test]
fn field_keys_are_found_by_their_names() {
    for field in [
        FieldKey::AccessKey,
        FieldKey::AccessSecret,
        FieldKey::Endpoint,
        FieldKey::Region,
        FieldKey::Bucket,
        FieldKey::Scheme,
    ] {
        assert_eq!(FieldKey::parse(field.key()), Some(field));
    }
    assert_eq!(FieldKey::Bucket.key(), "bucket");
    assert_eq!(FieldKey::parse("access_key_id"), None);
    assert_eq!(FieldKey::parse("Bucket"), None);
}

#[test]
fn a_source_without_any_setting_has_no_storages_at_all() {
    assert_eq!(
        Config::from_file("tests/config/test", &vec![]).err().unwrap(),
        ConfigError::MissingStorages { origin: "tests/config/test".to_string() }
    );
    assert_eq!(
        Config::load(&vec![], &vec![], &vec![]).err().unwrap(),
        ConfigError::MissingStorages { origin: "config/default".to_string() }
    );
    let only_env = vec![
        Setting::new("s3", "access_key", "k"),
        Setting::new("s3", "access_secret", "s"),
        Setting::new("s3", "region", "us-east-1"),
        Setting::new("s3", "bucket", "b"),
        Setting::new("s3", "scheme", "s3"),
    ];
    assert_eq!(Config::load(&vec![], &vec![], &only_env).unwrap().storages.len(), 1);
}
