use cache::config::Config;
use cache::config::Setting;
use cache::config::StorageConfig;
use cache::config::StorageMap;
use cache::error::CacheError;
use cache::error::ConfigIssue;
use cache::export::ExportFormat;
use cache::pool::DB;
use cache::storage::settle;
use datafusion::datasource::listing::ListingTableUrl;
use datafusion::execution::object_store::ObjectStoreUrl;
use object_store::aws::AmazonS3Builder;
use std::sync::Arc;

fn descriptor(scheme: &str, bucket: &str, endpoint: Option<&str>) -> StorageConfig {
    StorageConfig {
        access_key: "ak".to_string(),
        access_secret: "sk".to_string(),
        endpoint: endpoint.map(String::from),
        region: "us-east-1".to_string(),
        bucket: bucket.to_string(),
        scheme: scheme.to_string(),
    }
}

fn engine_has(db: &DB<()>, url: &str) -> bool {
    let url = ObjectStoreUrl::parse(url).unwrap();
    db.session().runtime_env().object_store(&url).is_ok()
}

#[test]
fn a_new_handle_has_no_storage_and_the_local_file_system() {
    let db = DB::<()>::new("test_db");
    assert_eq!(db.registry().len(), 0);
    assert!(engine_has(&db, "file://"));
    assert!(!engine_has(&db, "s3://bucket1"));
    assert_eq!(
        db.resolve("demo").err(),
        Some(CacheError::UnknownStorage { name: "demo".to_string() })
    );
}

#[test]
fn register_storage_files_the_client_under_scheme_and_bucket() {
    let mut db = DB::<()>::new("test_db");
    let config = descriptor("minio", "bucket1", Some("http://localhost:9000"));
    db.register_storage("demo", config).unwrap();

    assert_eq!(db.registry().len(), 1);
    let entry = db.resolve("demo").ok().unwrap();
    assert_eq!(entry.name, "demo");
    assert!(entry.config == descriptor("minio", "bucket1", Some("http://localhost:9000")));
    assert!(engine_has(&db, "minio://bucket1"));
    assert!(!engine_has(&db, "minio://demo"));
    assert!(!engine_has(&db, "demo://bucket1"));
    assert!(engine_has(&db, "file://"));
}

#[test]
fn registering_a_name_twice_fails_and_keeps_the_first() {
    let mut db = DB::<()>::new("test_db");
    db.register_storage("demo", descriptor("minio", "bucket1", Some("http://localhost:9000")))
        .unwrap();
    let again = db.register_storage("demo", descriptor("s3", "bucket2", None));
    assert_eq!(again.unwrap_err(), CacheError::DuplicateName { name: "demo".to_string() });
    assert_eq!(db.registry().len(), 1);
    assert_eq!(db.resolve("demo").ok().unwrap().config.bucket, "bucket1");
    assert!(engine_has(&db, "minio://bucket1"));
    assert!(!engine_has(&db, "s3://bucket2"));

    let invalid = StorageConfig { access_key: String::new(), ..descriptor("s3", "bucket2", None) };
    assert_eq!(
        db.register_storage("demo", invalid).unwrap_err(),
        CacheError::DuplicateName { name: "demo".to_string() }
    );
}

#[test]
fn register_storage_names_the_first_issue_of_a_descriptor() {
    let mut db = DB::<()>::new("test_db");
    let valid = || descriptor("oss", "bucket1", Some("https://bucket1.oss-cn-hongkong.aliyuncs.com"));
    let cases = vec![
        (StorageConfig { access_key: String::new(), access_secret: String::new(), ..valid() },
         ConfigIssue::MissingAccessKey),
        (StorageConfig { access_secret: String::new(), bucket: String::new(), ..valid() },
         ConfigIssue::MissingAccessSecret),
        (StorageConfig { bucket: String::new(), region: String::new(), ..valid() },
         ConfigIssue::MissingBucket),
        (StorageConfig { region: String::new(), scheme: String::new(), ..valid() },
         ConfigIssue::MissingRegion),
        (StorageConfig { scheme: String::new(), endpoint: None, ..valid() },
         ConfigIssue::MissingScheme),
        (StorageConfig { endpoint: None, ..valid() }, ConfigIssue::MissingEndpoint),
        (StorageConfig { endpoint: Some(String::new()), ..valid() }, ConfigIssue::MissingEndpoint),
    ];
    for (config, issue) in cases {
        assert_eq!(config.validate(), Some(issue));
        assert_eq!(
            db.register_storage("oss", config).unwrap_err(),
            CacheError::Configuration { name: "oss".to_string(), issue }
        );
    }
    assert_eq!(valid().validate(), None);
    assert_eq!(descriptor("s3", "bucket1", None).validate(), None);
    assert_eq!(db.registry().len(), 0);
    assert!(!engine_has(&db, "oss://bucket1"));
}

#[test]
fn register_storage_rejects_a_url_that_does_not_stand_for_itself() {
    let mut db = DB::<()>::new("test_db");
    for (scheme, bucket) in [
        ("MinIO", "bucket1"),
        ("mi nio", "bucket1"),
        ("minio", "bucket1/data"),
        ("minio", "user@bucket1"),
        ("1s3", "bucket1"),
        ("minio", "bucket 1"),
    ] {
        let config = descriptor(scheme, bucket, Some("http://localhost:9000"));
        assert_eq!(
            db.register_storage("demo", config).unwrap_err(),
            CacheError::Configuration {
                name: "demo".to_string(),
                issue: ConfigIssue::MalformedUrl,
            },
            "{scheme}://{bucket}"
        );
    }
    assert_eq!(db.registry().len(), 0);
    assert!(engine_has(&db, "file://"));
    assert!(!engine_has(&db, "minio://bucket1"));
}

#[test]
fn storage_url_and_request_style_follow_the_scheme() {
    let oss = descriptor("oss", "bucket1", Some("https://bucket1.oss-cn-hongkong.aliyuncs.com"));
    assert_eq!(oss.url(), "oss://bucket1");
    assert_eq!(oss.location("tests/reverse_id.csv"), "oss://bucket1/tests/reverse_id.csv");
    assert!(oss.virtual_hosted_style());
    assert!(!descriptor("s3", "bucket1", None).virtual_hosted_style());
    assert!(!descriptor("minio", "oss", Some("http://localhost:9000")).virtual_hosted_style());
    assert!(!descriptor("OSS", "bucket1", Some("x")).virtual_hosted_style());
    assert!(oss.duplicate() == oss);
}

fn two_storages() -> Config {
    let settings = vec![
        Setting::new("s3", "access_key", "ak"),
        Setting::new("s3", "access_secret", "sk"),
        Setting::new("s3", "region", "us-east-1"),
        Setting::new("s3", "bucket", "test-bucket"),
        Setting::new("s3", "scheme", "s3"),
        Setting::new("minio", "access_key", "ak"),
        Setting::new("minio", "access_secret", "sk"),
        Setting::new("minio", "endpoint", "http://localhost:9000"),
        Setting::new("minio", "region", "us-east-1"),
        Setting::new("minio", "bucket", "test-minio-bucket"),
        Setting::new("minio", "scheme", "minio"),
    ];
    Config::from_env(&settings).ok().unwrap()
}

#[test]
fn init_storages_registers_every_storage_in_order() {
    let mut db = DB::<()>::new("test_db");
    db.init_storages(two_storages()).unwrap();
    assert_eq!(db.registry().len(), 2);
    assert_eq!(db.registry().entry_at(0).name, "s3");
    assert_eq!(db.registry().entry_at(1).name, "minio");
    assert!(engine_has(&db, "s3://test-bucket"));
    assert!(engine_has(&db, "minio://test-minio-bucket"));

    let again = db.init_storages(two_storages());
    assert_eq!(again.unwrap_err(), CacheError::DuplicateName { name: "s3".to_string() });
    assert_eq!(db.registry().len(), 2);
}

#[test]
fn init_storages_registers_nothing_if_one_storage_fails() {
    let mut storages = StorageMap::new();
    storages.insert("first".to_string(), descriptor("s3", "bucket1", None));
    storages.insert("second".to_string(), descriptor("minio", "bucket2", None));
    storages.insert("third".to_string(), descriptor("s3", "", None));
    let mut db = DB::<()>::new("test_db");
    let err = db.init_storages(Config { storages }).unwrap_err();
    assert_eq!(
        err,
        CacheError::Configuration {
            name: "second".to_string(),
            issue: ConfigIssue::MissingEndpoint,
        }
    );
    assert_eq!(db.registry().len(), 0);
    assert!(!engine_has(&db, "s3://bucket1"));

    let mut storages = StorageMap::new();
    storages.insert("first".to_string(), descriptor("s3", "bucket1", None));
    storages.insert("second".to_string(), descriptor("S3", "bucket2", Some("http://localhost")));
    let err = db.init_storages(Config { storages }).unwrap_err();
    assert_eq!(
        err,
        CacheError::Configuration { name: "second".to_string(), issue: ConfigIssue::MalformedUrl }
    );
    assert_eq!(db.registry().len(), 0);
    assert!(!engine_has(&db, "s3://bucket1"));

    db.init_storages(Config { storages: StorageMap::new() }).unwrap();
    assert_eq!(db.registry().len(), 0);
}

#[test]
fn export_to_storage_goes_to_scheme_and_bucket_not_to_the_name() {
    let mut db = DB::<()>::new("test_db");
    db.register_storage("demo", descriptor("minio", "bucket1", Some("http://localhost:9000")))
        .unwrap();

    let plan = db.export_to_storage("demo", "out.csv", "csv").unwrap();
    assert_eq!(plan.location, "minio://bucket1/out.csv");
    assert_eq!(plan.format, ExportFormat::Csv);

    let plan = db.export_to_storage("demo", "tests/reverse_id.parquet", "PARQUET").unwrap();
    assert_eq!(plan.location, "minio://bucket1/tests/reverse_id.parquet");
    assert_eq!(plan.format, ExportFormat::Parquet);

    assert_eq!(db.export_to_storage("demo", "x", "Csv").unwrap().format, ExportFormat::Csv);
}

#[test]
fn export_to_an_unregistered_storage_fails() {
    let mut db = DB::<()>::new("test_db");
    assert_eq!(
        db.export_to_storage("minio", "tests/reverse_id.csv", "csv").unwrap_err(),
        CacheError::UnknownStorage { name: "minio".to_string() }
    );
    db.register_storage("demo", descriptor("minio", "bucket1", Some("http://localhost:9000")))
        .unwrap();
    assert_eq!(
        db.export_to_storage("minio", "out.csv", "json").unwrap_err(),
        CacheError::UnknownStorage { name: "minio".to_string() }
    );
    assert_eq!(
        db.export_to_storage("bucket1", "out.csv", "csv").unwrap_err().message(),
        "Unknown storage: bucket1"
    );
}

#[test]
fn export_rejects_any_other_format() {
    let mut db = DB::<()>::new("test_db");
    db.register_storage("demo", descriptor("minio", "bucket1", Some("http://localhost:9000")))
        .unwrap();
    for format in ["json", "", "csv ", "parquet2", "c\u{17f}v"] {
        assert_eq!(
            db.export_to_storage("demo", "out", format).unwrap_err(),
            CacheError::UnsupportedFormat { format: format.to_string() }
        );
    }
    assert_eq!(ExportFormat::parse("CSV"), Some(ExportFormat::Csv));
    assert_eq!(ExportFormat::parse("ParQuet"), Some(ExportFormat::Parquet));
    assert_eq!(ExportFormat::from_lowercase("CSV"), None);
    assert_eq!(ExportFormat::from_lowercase("parquet"), Some(ExportFormat::Parquet));
}

#[test]
fn query_from_storage_takes_the_location_as_it_is_given() {
    let mut db = DB::<()>::new("test_db");
    assert_eq!(
        db.query_from_storage("minio://bucket1", "in.csv"),
        "SELECT * FROM 'minio://bucket1/in.csv'"
    );
    assert_eq!(db.query_from_storage("demo", "in.csv"), "SELECT * FROM 'demo/in.csv'");
    assert_eq!(db.query_from_storage("", ""), "SELECT * FROM '/'");
    db.register_storage("demo", descriptor("minio", "bucket1", Some("http://localhost:9000")))
        .unwrap();
    assert_eq!(db.query_from_storage("demo", "in.csv"), "SELECT * FROM 'demo/in.csv'");
}

#[test]
fn query_from_registered_reads_from_the_resolved_url() {
    let mut db = DB::<()>::new("test_db");
    db.register_storage("demo", descriptor("minio", "bucket1", Some("http://localhost:9000")))
        .unwrap();
    assert_eq!(
        db.query_from_registered("demo", "in.csv").unwrap(),
        "SELECT * FROM 'minio://bucket1/in.csv'"
    );
    assert_eq!(
        db.query_from_registered("minio", "in.csv").unwrap_err(),
        CacheError::UnknownStorage { name: "minio".to_string() }
    );
}

fn client(bucket: &str) -> Result<Arc<object_store::aws::AmazonS3>, object_store::Error> {
    AmazonS3Builder::new()
        .with_access_key_id("ak")
        .with_secret_access_key("sk")
        .with_bucket_name(bucket)
        .with_region("us-east-1")
        .build()
        .map(Arc::new)
}

#[test]
fn settle_turns_each_answer_into_its_outcome() {
    let config = || descriptor("s3", "bucket1", None);

    let no_bucket = AmazonS3Builder::new().build().map(Arc::new);
    assert!(no_bucket.is_err());
    let url = ListingTableUrl::parse("s3://bucket1");
    match settle("demo", config(), no_bucket, url) {
        Err(CacheError::BackendConnect { name, message }) => {
            assert_eq!(name, "demo");
            assert!(message.contains("Missing bucket name"), "{message}");
        }
        _ => panic!("a client that was not built is a connect failure"),
    }

    let unparsed = ListingTableUrl::parse("s3://bucket 1");
    assert!(unparsed.is_err());
    match settle("demo", config(), client("bucket1"), unparsed) {
        Err(e) => assert_eq!(
            e,
            CacheError::Configuration {
                name: "demo".to_string(),
                issue: ConfigIssue::MalformedUrl,
            }
        ),
        Ok(_) => panic!("a URL that was not parsed is malformed"),
    }

    let other = ListingTableUrl::parse("s3://bucket2");
    match settle("demo", config(), client("bucket1"), other) {
        Err(e) => assert_eq!(
            e.message(),
            "Configuration error: demo: storage URL is malformed"
        ),
        Ok(_) => panic!("a URL with another key is malformed"),
    }

    let with_path = ListingTableUrl::parse("s3://bucket1/data/");
    assert!(settle("demo", config(), client("bucket1"), with_path).is_ok());

    let same = ListingTableUrl::parse("s3://bucket1");
    assert!(settle("demo", config(), client("bucket1"), same).is_ok());
}

#[test]
fn the_client_is_built_from_the_options_of_the_descriptor() {
    let oss = descriptor("oss", "bucket1", Some("https://bucket1.oss-cn-hongkong.aliyuncs.com"));
    let options = oss.client_options();
    assert!(options.allow_http);
    assert!(options.virtual_hosted_style);
    assert_eq!(options.bucket, "bucket1");
    assert_eq!(options.region, "us-east-1");
    assert_eq!(options.access_key, "ak");
    assert_eq!(options.access_secret, "sk");
    assert_eq!(
        options.endpoint.as_deref(),
        Some("https://bucket1.oss-cn-hongkong.aliyuncs.com")
    );
    assert!(!descriptor("minio", "oss", Some("http://localhost:9000"))
        .client_options()
        .virtual_hosted_style);

    let mut db = DB::<()>::new("test_db");
    db.register_storage("oss", oss).unwrap();
    db.register_storage("minio", descriptor("minio", "bucket2", Some("http://localhost:9000")))
        .unwrap();
    db.register_storage("s3", descriptor("s3", "bucket3", None)).unwrap();

    let built = |name: &str| format!("{:?}", db.resolve(name).ok().unwrap().store);
    let oss = built("oss");
    for part in [
        "region: \"us-east-1\"",
        "bucket: \"bucket1\"",
        "bucket_endpoint: \"https://bucket1.oss-cn-hongkong.aliyuncs.com\"",
        "key_id: \"ak\"",
        "secret_key: \"sk\"",
        "allow_http: Parsed(true)",
    ] {
        assert!(oss.contains(part), "{part}");
    }
    let minio = built("minio");
    assert!(minio.contains("bucket_endpoint: \"http://localhost:9000/bucket2\""));
    assert!(minio.contains("allow_http: Parsed(true)"));
    let s3 = built("s3");
    assert!(s3.contains("bucket_endpoint: \"https://s3.us-east-1.amazonaws.com/bucket3\""));
}

fn engine_store(db: &DB<()>, url: &str) -> String {
    let url = ObjectStoreUrl::parse(url).unwrap();
    format!("{:?}", db.session().runtime_env().object_store(&url).unwrap())
}

#[test]
fn the_engine_reaches_each_bucket_through_the_client_of_its_storage() {
    let with_key = |key: &str, bucket: &str| StorageConfig {
        access_key: key.to_string(),
        ..descriptor("minio", bucket, Some("http://localhost:9000"))
    };
    let mut db = DB::<()>::new("test_db");
    db.register_storage("first", with_key("ak1", "bucket1")).unwrap();
    db.register_storage("second", with_key("ak2", "bucket2")).unwrap();

    let first = format!("{:?}", db.resolve("first").ok().unwrap().store);
    let second = format!("{:?}", db.resolve("second").ok().unwrap().store);
    assert!(first.contains("key_id: \"ak1\"") && first.contains("bucket: \"bucket1\""));
    assert!(second.contains("key_id: \"ak2\"") && second.contains("bucket: \"bucket2\""));
    assert_eq!(engine_store(&db, "minio://bucket1"), first);
    assert_eq!(engine_store(&db, "minio://bucket2"), second);
    assert!(engine_store(&db, "file://").contains("LocalFileSystem"));

    db.register_storage("third", with_key("ak3", "bucket1")).unwrap();
    let third = format!("{:?}", db.resolve("third").ok().unwrap().store);
    assert!(third.contains("key_id: \"ak3\""));
    assert_eq!(engine_store(&db, "minio://bucket1"), third);
    assert_eq!(engine_store(&db, "minio://bucket2"), second);
    assert_eq!(format!("{:?}", db.resolve("first").ok().unwrap().store), first);
    assert_eq!(db.registry().len(), 3);
}
