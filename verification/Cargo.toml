[package]
name = "fedqrs"
version = "0.1.0"
edition = "2021"
publish = false

[dependencies]
adbc_core = "=0.20.0"
adbc_driver_manager = "=0.20.0"
arrow = { version = "=56.2.1", features = ["ffi"] }
arrow-array = "=56.2.1"
arrow-schema = "=56.2.1"
chrono = "0.4"
datafusion = { version = "=50.3.0", default-features = false, features = ["nested_expressions", "crypto_expressions", "datetime_expressions", "encoding_expressions", "regex_expressions", "string_expressions", "unicode_expressions", "parquet"] }
duckdb = { version = "=1.4.5", default-features = false, features = ["vtab-arrow", "appender-arrow"] }
futures = "0.3"
postgres = { version = "0.19", features = ["with-uuid-1", "with-chrono-0_4"] }
pyo3 = { version = "=0.25.1", features = ["extension-module", "abi3-py39"] }
serde = { version = "1", features = ["derive"] }
serde_json = "1"
tokio = { version = "1", features = ["rt-multi-thread"] }
uuid = { version = "1", features = ["v4"] }
