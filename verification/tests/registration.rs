use std::any::Any;
use std::cell::RefCell;
use std::collections::HashMap;
use std::fmt;
use std::sync::Arc;

use datafusion_common::arrow::datatypes::DataType;
use datafusion_common::config::{
    ConfigEntry, ConfigExtension, ConfigFileType, ConfigOptions, ExtensionOptions, TableOptions,
};
use datafusion_common::file_options::file_type::{FileType, GetExt};
use datafusion_common::{DataFusionError, Result, TableReference};
use datafusion_datasource::ListingTableUrl;
use datafusion_exec::file_type;
use datafusion_exec::plan::{CreationAction, CreationEvent, PlanCreation, PlanShape, Registration};
use datafusion_exec::queue::QueueAction;
use datafusion_exec::sql::exec_and_print;
use datafusion_exec::store::{
    register_object_store_and_config_extensions, SetupAction, SetupEvent,
};
use datafusion_execution::runtime_env::RuntimeEnv;
use datafusion_expr::planner::ContextProvider;
use datafusion_expr::{AggregateUDF, DdlStatement, LogicalPlan, ScalarUDF, TableSource, WindowUDF};
use datafusion_sql::planner::SqlToRel;
use object_store::memory::InMemory;
use url::Url;

type Options = HashMap<String, String>;

/// A file format that is known by its extension alone.
struct Named(String);

impl GetExt for Named {
    fn get_ext(&self) -> String {
        self.0.clone()
    }
}

impl fmt::Display for Named {
    fn fmt(&self, f: &mut fmt::Formatter<'_>) -> fmt::Result {
        f.write_str(&self.0)
    }
}

impl FileType for Named {
    fn as_any(&self) -> &dyn Any {
        self
    }
}

/// The options of the cloud vendors, by their keys.
#[derive(Clone, Debug, Default)]
struct Vendor {
    values: Options,
}

impl ConfigExtension for Vendor {
    const PREFIX: &'static str = "aws";
}

impl ExtensionOptions for Vendor {
    fn as_any(&self) -> &dyn Any {
        self
    }

    fn as_any_mut(&mut self) -> &mut dyn Any {
        self
    }

    fn cloned(&self) -> Box<dyn ExtensionOptions> {
        Box::new(self.clone())
    }

    fn set(&mut self, key: &str, value: &str) -> Result<()> {
        self.values.insert(key.to_string(), value.to_string());
        Ok(())
    }

    fn entries(&self) -> Vec<ConfigEntry> {
        vec![]
    }
}

/// A session that plans statements over no tables, with its default table options, which knows the
/// object stores of its runtime.
#[derive(Default)]
struct Session {
    config: ConfigOptions,
    defaults: RefCell<TableOptions>,
    runtime: RuntimeEnv,
}

impl ContextProvider for Session {
    fn get_table_source(&self, name: TableReference) -> Result<Arc<dyn TableSource>> {
        Err(DataFusionError::Plan(format!("no table {name}")))
    }

    fn get_file_type(&self, ext: &str) -> Result<Arc<dyn FileType>> {
        Ok(Arc::new(Named(ext.to_lowercase())))
    }

    fn get_function_meta(&self, _name: &str) -> Option<Arc<ScalarUDF>> {
        None
    }

    fn get_aggregate_meta(&self, _name: &str) -> Option<Arc<AggregateUDF>> {
        None
    }

    fn get_window_meta(&self, _name: &str) -> Option<Arc<WindowUDF>> {
        None
    }

    fn get_variable_type(&self, _variable_names: &[String]) -> Option<DataType> {
        None
    }

    fn options(&self) -> &ConfigOptions {
        &self.config
    }

    fn udf_names(&self) -> Vec<String> {
        vec![]
    }

    fn udaf_names(&self) -> Vec<String> {
        vec![]
    }

    fn udwf_names(&self) -> Vec<String> {
        vec![]
    }
}

fn shape_of(plan: &LogicalPlan) -> PlanShape<String, Options> {
    match plan {
        LogicalPlan::Ddl(DdlStatement::CreateExternalTable(cmd)) => {
            PlanShape::CreateExternalTable {
                location: cmd.location.clone(),
                file_type: cmd.file_type.clone(),
                options: cmd.options.clone(),
            }
        }
        LogicalPlan::Copy(copy_to) => PlanShape::Copy {
            output_url: copy_to.output_url.clone(),
            extension: copy_to.file_type.get_ext(),
            options: copy_to.options.clone(),
        },
        _ => PlanShape::Other,
    }
}

/// Registers a store in memory for the place, and returns the table options it was found under.
fn register(session: &Session, place: Registration<String, Options>) -> Result<TableOptions> {
    let (mut setup, mut action) = register_object_store_and_config_extensions(place)?;
    let mut table_options = TableOptions::default();
    loop {
        let event: SetupEvent<DataFusionError> = match action {
            SetupAction::ExtendOptions => {
                if matches!(setup.scheme.as_str(), "s3" | "oss" | "cos") {
                    session.defaults.borrow_mut().extensions.insert(Vendor::default());
                }
                SetupEvent::Extended
            }
            SetupAction::CopyDefaults => {
                table_options =
                    session.defaults.borrow().combine_with_session_config(&session.config);
                SetupEvent::Copied
            }
            SetupAction::SetFormat(format) => {
                match format {
                    file_type::ConfigFileType::CSV => {
                        table_options.set_config_format(ConfigFileType::CSV)
                    }
                    file_type::ConfigFileType::JSON => {
                        table_options.set_config_format(ConfigFileType::JSON)
                    }
                    // DataFusion has this format only where it is built with Parquet, and no option
                    // of it is set here.
                    file_type::ConfigFileType::PARQUET => {}
                }
                SetupEvent::Formatted
            }
            SetupAction::SetOptions => {
                SetupEvent::Configured(table_options.alter_with_string_hash_map(&setup.options))
            }
            SetupAction::FindStore => SetupEvent::Found(Ok(())),
            SetupAction::RegisterStore => {
                let url: &Url = setup.url.as_ref();
                session.runtime.register_object_store(url, Arc::new(InMemory::new()));
                SetupEvent::Registered
            }
            SetupAction::Finish(outcome) => return outcome.map(|()| table_options),
            SetupAction::Unexpected => panic!("not awaited"),
        };
        (setup, action) = setup.step(event);
    }
}

/// The vendor options in table options.
fn vendor(table_options: &TableOptions) -> &Options {
    &table_options.extensions.get::<Vendor>().unwrap().values
}

/// The plan of the one statement in a text, with its store registered.
fn create_plan(session: &Session, sql: &str) -> Result<(LogicalPlan, TableOptions)> {
    let queue = exec_and_print("generic", sql).unwrap();
    let (queue, action) = queue.step(Ok::<(), DataFusionError>(()));
    let statement = match action {
        QueueAction::Run(statement) => statement,
        other => panic!("{:?}", other),
    };
    assert!(queue.waiting.is_empty());
    let plan = SqlToRel::new(session).statement_to_plan(statement.ast)?;

    let (creation, action) =
        PlanCreation::new(false).step::<_, DataFusionError>(CreationEvent::Planned(Ok(shape_of(&plan))));
    let place = match action {
        CreationAction::Register(place) => place,
        other => panic!("{:?}", other),
    };
    assert!(!place.resolve_region);
    let table_options = register(session, place)?;
    let (_, action) = creation
        .step::<Options, DataFusionError>(CreationEvent::Registered(Ok(())));
    assert!(matches!(action, CreationAction::Finish(Ok(()))));
    Ok((plan, table_options))
}

fn create_external_table_test(location: &str, sql: &str) -> Result<TableOptions> {
    let session = Session::default();
    let (plan, table_options) = create_plan(&session, sql)?;
    assert!(matches!(plan, LogicalPlan::Ddl(DdlStatement::CreateExternalTable(_))));

    // Ensure the URL is supported by the object store
    session.runtime.object_store(ListingTableUrl::parse(location)?)?;

    Ok(table_options)
}

fn copy_to_table_test(location: &str, sql: &str) -> Result<TableOptions> {
    let session = Session::default();
    let (plan, table_options) = create_plan(&session, sql)?;
    assert!(matches!(plan, LogicalPlan::Copy(_)));

    // Ensure the URL is supported by the object store
    session.runtime.object_store(ListingTableUrl::parse(location)?)?;

    Ok(table_options)
}

#[test]
fn create_object_store_table_http() {
    // Should be OK
    let location = "http://example.com/file.parquet";
    let sql = format!("CREATE EXTERNAL TABLE test STORED AS PARQUET LOCATION '{location}'");
    create_external_table_test(location, &sql).unwrap();
}

#[test]
fn copy_to_external_object_store_test() {
    let locations = vec![
        "s3://bucket/path/file.parquet",
        "oss://bucket/path/file.parquet",
        "cos://bucket/path/file.parquet",
        "gcs://bucket/path/file.parquet",
    ];
    let session = Session::default();
    for location in locations {
        let sql = format!("copy (values (1,2)) to '{location}' STORED AS PARQUET;");
        //Should not fail
        let (plan, _) = create_plan(&session, &sql).unwrap();
        if let LogicalPlan::Copy(copy_to) = &plan {
            assert_eq!(copy_to.output_url, location);
            assert_eq!(copy_to.file_type.get_ext(), "parquet".to_string());
            session
                .runtime
                .object_store_registry
                .get_store(&Url::parse(&copy_to.output_url).unwrap())
                .unwrap();
        } else {
            panic!("LogicalPlan is not a CopyTo");
        }
    }
}

#[test]
fn copy_to_object_store_table_s3() {
    let access_key_id = "fake_access_key_id";
    let secret_access_key = "fake_secret_access_key";
    let location = "s3://bucket/path/file.parquet";

    // Missing region, use object_store defaults
    let sql = format!("COPY (values (1,2)) TO '{location}' STORED AS PARQUET
            OPTIONS ('aws.access_key_id' '{access_key_id}', 'aws.secret_access_key' '{secret_access_key}')");
    let table_options = copy_to_table_test(location, &sql).unwrap();
    assert_eq!(vendor(&table_options)["aws.access_key_id"], access_key_id);
    assert_eq!(vendor(&table_options)["aws.secret_access_key"], secret_access_key);
}

#[test]
fn create_object_store_table_s3() {
    let access_key_id = "fake_access_key_id";
    let secret_access_key = "fake_secret_access_key";
    let region = "fake_us-east-2";
    let session_token = "fake_session_token";
    let location = "s3://bucket/path/file.parquet";

    // Missing region, use object_store defaults
    let sql = format!("CREATE EXTERNAL TABLE test STORED AS PARQUET
            OPTIONS('aws.access_key_id' '{access_key_id}', 'aws.secret_access_key' '{secret_access_key}') LOCATION '{location}'");
    create_external_table_test(location, &sql).unwrap();

    // Should be OK
    let sql = format!("CREATE EXTERNAL TABLE test STORED AS PARQUET
            OPTIONS('aws.access_key_id' '{access_key_id}', 'aws.secret_access_key' '{secret_access_key}', 'aws.region' '{region}', 'aws.session_token' '{session_token}') LOCATION '{location}'");
    let table_options = create_external_table_test(location, &sql).unwrap();
    assert_eq!(vendor(&table_options)["aws.region"], region);
    assert_eq!(vendor(&table_options)["aws.session_token"], session_token);
}

#[test]
fn create_object_store_table_oss() {
    let access_key_id = "fake_access_key_id";
    let secret_access_key = "fake_secret_access_key";
    let endpoint = "fake_endpoint";
    let location = "oss://bucket/path/file.parquet";

    // Should be OK
    let sql = format!("CREATE EXTERNAL TABLE test STORED AS PARQUET
            OPTIONS('aws.access_key_id' '{access_key_id}', 'aws.secret_access_key' '{secret_access_key}', 'aws.oss.endpoint' '{endpoint}') LOCATION '{location}'");
    create_external_table_test(location, &sql).unwrap();
}

#[test]
fn create_object_store_table_cos() {
    let access_key_id = "fake_access_key_id";
    let secret_access_key = "fake_secret_access_key";
    let endpoint = "fake_endpoint";
    let location = "cos://bucket/path/file.parquet";

    // Should be OK
    let sql = format!("CREATE EXTERNAL TABLE test STORED AS PARQUET
            OPTIONS('aws.access_key_id' '{access_key_id}', 'aws.secret_access_key' '{secret_access_key}', 'aws.cos.endpoint' '{endpoint}') LOCATION '{location}'");
    create_external_table_test(location, &sql).unwrap();
}

#[test]
fn create_external_table_local_file() {
    let location = "path/to/file.parquet";

    // Ensure that local files are also registered
    let sql = format!("CREATE EXTERNAL TABLE test STORED AS PARQUET LOCATION '{location}'");
    create_external_table_test(location, &sql).unwrap();
}

#[test]
fn create_external_table_format_option() {
    let location = "path/to/file.cvs";

    // Test with format options
    let sql =
        format!("CREATE EXTERNAL TABLE test STORED AS CSV LOCATION '{location}' OPTIONS('format.has_header' 'true')");
    let table_options = create_external_table_test(location, &sql).unwrap();
    assert_eq!(table_options.csv.has_header, Some(true));
}

#[test]
fn options_without_their_format_are_refused() {
    let sql = "CREATE EXTERNAL TABLE test STORED AS OTHER LOCATION 'x' OPTIONS('format.has_header' 'true')";
    assert!(create_external_table_test("x", sql).is_err());
    // Vendor options are known only where the scheme is
    let sql = "CREATE EXTERNAL TABLE test STORED AS CSV LOCATION 'x' OPTIONS('aws.region' 'r')";
    assert!(create_external_table_test("x", sql).is_err());
}

#[test]
fn registrations_do_not_show_in_later_ones() {
    let session = Session::default();
    let first = "CREATE EXTERNAL TABLE a STORED AS CSV LOCATION 's3://bucket/a.csv'
            OPTIONS('aws.region' 'fake_region', 'format.has_header' 'true')";
    let (_, table_options) = create_plan(&session, first).unwrap();
    assert_eq!(vendor(&table_options)["aws.region"], "fake_region");
    let second = "CREATE EXTERNAL TABLE b STORED AS JSON LOCATION 's3://bucket/b.json'";
    let (_, table_options) = create_plan(&session, second).unwrap();
    assert!(vendor(&table_options).is_empty());
    assert_eq!(table_options.csv.has_header, None);
    assert!(matches!(table_options.current_format, Some(ConfigFileType::JSON)));
    assert!(vendor(&session.defaults.borrow()).is_empty());
    assert!(session.defaults.borrow().current_format.is_none());
}
