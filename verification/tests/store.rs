use datafusion_datasource::ListingTableUrl;
use datafusion_exec::file_type::ConfigFileType;
use datafusion_exec::plan::Registration;
use datafusion_exec::store::{
    begin_setup, register_object_store_and_config_extensions, SetupAction, SetupEvent, SetupPhase,
    StoreSetup,
};

type Event = SetupEvent<String>;
type Action = SetupAction<String>;

fn place(location: &str) -> Registration<String, u8> {
    Registration {
        location: location.to_string(),
        options: 9,
        format: Some(ConfigFileType::JSON),
        resolve_region: true,
    }
}

fn setup_of(place: Registration<String, u8>) -> StoreSetup<String, char, u8> {
    let (setup, action) = begin_setup(place, Ok::<_, String>(("s3".to_string(), 'u'))).unwrap();
    assert_eq!(action, Action::ExtendOptions);
    setup
}

fn setup() -> StoreSetup<String, char, u8> {
    setup_of(place("s3://b/x"))
}

/// A registration whose options are to be set.
fn configuring() -> StoreSetup<String, char, u8> {
    let (setup, _) = setup().step(Event::Extended);
    let (setup, _) = setup.step(Event::Copied);
    let (setup, action) = setup.step(Event::Formatted);
    assert_eq!(action, Action::SetOptions);
    setup
}

#[test]
fn schemes_of_locations() {
    for (location, scheme) in [
        ("s3://bucket/path/file.parquet", "s3"),
        ("oss://bucket/path/file.parquet", "oss"),
        ("cos://bucket/path/file.parquet", "cos"),
        ("gcs://bucket/path/file.parquet", "gcs"),
        ("http://example.com/file.parquet", "http"),
        ("path/to/file.parquet", "file"),
        ("/path/to/", "file"),
        ("file:///path/to/x", "file"),
    ] {
        let (setup, action) =
            register_object_store_and_config_extensions(place(location)).unwrap();
        assert!(matches!(action, SetupAction::ExtendOptions));
        assert_eq!(setup.scheme, scheme);
        assert_eq!(setup.url.scheme(), scheme);
        assert_eq!(setup.options, 9);
        assert_eq!(setup.format, Some(ConfigFileType::JSON));
        assert!(setup.resolve_region);
        assert_eq!(setup.phase, SetupPhase::Extending);
    }
}

#[test]
fn plain_urls_are_locations() {
    for (location, scheme) in [
        ("s3://bucket", "s3"),
        ("s3://bucket/", "s3"),
        ("s3://My_Bucket-1.x/year=2024/part-0.snappy.parquet", "s3"),
        ("s3://.../-", "s3"),
        ("gs://b/c/", "gs"),
        ("abfss://0/a.b./c_", "abfss"),
        ("a9://0x7f/_", "a9"),
        ("http://example.com/file.parquet", "http"),
        ("https://example.com", "https"),
        ("ws://.", "ws"),
        ("wss://a..b./c", "wss"),
        ("ftp://xn.x/9/8=7/", "ftp"),
        ("file://", "file"),
        ("file:///", "file"),
        ("file:///c/d=1/e.csv", "file"),
    ] {
        let (setup, _) = register_object_store_and_config_extensions(place(location)).unwrap();
        assert_eq!(setup.scheme, scheme, "{}", location);
        assert_eq!(setup.url.scheme(), scheme, "{}", location);
    }
}

#[test]
fn locations_without_a_url() {
    assert!(register_object_store_and_config_extensions(place("http://")).is_err());
    assert!(register_object_store_and_config_extensions(place("")).is_err());
    assert_eq!(begin_setup(place("x"), Err::<(String, char), _>("no url")), Err("no url"));
}

#[test]
fn steps_of_a_registration() {
    let (setup, action) = setup().step(Event::Extended);
    assert_eq!(action, Action::CopyDefaults);
    let (setup, action) = setup.step(Event::Copied);
    assert_eq!(action, Action::SetFormat(ConfigFileType::JSON));
    let (setup, action) = setup.step(Event::Formatted);
    assert_eq!(action, Action::SetOptions);
    let (setup, action) = setup.step(Event::Configured(Ok(())));
    assert_eq!(action, Action::FindStore);
    let (setup, action) = setup.step(Event::Found(Ok(())));
    assert_eq!(action, Action::RegisterStore);
    let (setup, action) = setup.step(Event::Registered);
    assert_eq!(action, Action::Finish(Ok(())));
    assert_eq!(
        setup,
        StoreSetup {
            scheme: "s3".to_string(),
            url: 'u',
            options: 9,
            format: Some(ConfigFileType::JSON),
            resolve_region: true,
            phase: SetupPhase::Done,
        }
    );
}

#[test]
fn errors_end_a_registration() {
    let (setup, action) = configuring().step(Event::Configured(Err("bad option".to_string())));
    assert_eq!(action, Action::Finish(Err("bad option".to_string())));
    let (setup, action) = setup.step(Event::Found(Ok(())));
    assert_eq!(action, Action::Unexpected);
    assert_eq!(setup.phase, SetupPhase::Done);
}

#[test]
fn a_missing_store_is_not_registered() {
    let (setup, _) = configuring().step(Event::Configured(Ok(())));
    let (setup, action) = setup.step(Event::Found(Err("no store".to_string())));
    assert_eq!(action, Action::Finish(Err("no store".to_string())));
    assert_eq!(setup.phase, SetupPhase::Done);
}

#[test]
fn a_store_is_not_looked_for_too_early() {
    let (same, action) = setup().step(Event::Found(Ok(())));
    assert_eq!(action, Action::Unexpected);
    assert_eq!(same, setup());
}

#[test]
fn without_a_format_the_options_are_set_at_once() {
    let place = Registration { format: None, ..place("s3://b/x") };
    let (setup, _) = setup_of(place).step(Event::Extended);
    let (setup, action) = setup.step(Event::Copied);
    assert_eq!(action, Action::SetOptions);
    assert_eq!(setup.phase, SetupPhase::Configuring);
}

#[test]
fn options_wait_for_the_format() {
    let (setup, _) = setup().step(Event::Extended);
    let (setup, _) = setup.step(Event::Copied);
    let (setup, action) = setup.step(Event::Configured(Ok(())));
    assert_eq!(action, Action::Unexpected);
    assert_eq!(setup.phase, SetupPhase::Formatting);
}

#[test]
fn the_url_is_the_one_of_the_location() {
    for (location, url) in [
        ("s3://bucket/path/file.parquet", "s3://bucket/path/file.parquet"),
        ("http://example.com", "http://example.com/"),
        ("file:///path/to/x", "file:///path/to/x"),
    ] {
        let (setup, _) = register_object_store_and_config_extensions(place(location)).unwrap();
        assert_eq!(setup.url.as_str(), url);
        assert_eq!(setup.url, ListingTableUrl::parse(location).unwrap());
    }
    let refused = register_object_store_and_config_extensions(place("http://")).unwrap_err();
    assert_eq!(refused.to_string(), ListingTableUrl::parse("http://").unwrap_err().to_string());
}
