[package]
name = "datafusion_exec"
version = "0.1.0"
edition = "2021"
publish = false

[dependencies]
datafusion-common = { version = "=49.0.2", default-features = false }
datafusion-datasource = { version = "=49.0.2", default-features = false }
datafusion-execution = { version = "=49.0.2", default-features = false }
datafusion-expr = { version = "=49.0.2", default-features = false }
datafusion-physical-plan = { version = "=49.0.2", default-features = false }
datafusion-sql = { version = "=49.0.2", default-features = false }
futures = "=0.3.34"
log = "0.4"
object_store = { version = "=0.12.5", default-features = false }
rustyline = { version = "=16.0.0", default-features = false }
tokio = { version = "=1.54.1", features = ["macros", "rt", "signal"] }
url = "=2.5.8"
