[package]
name = "sql_schema"
version = "0.1.0"
edition = "2021"
publish = false

[dependencies]
annotate-snippets = "0.11"
anyhow = "1"
camino = "1"
chrono = "0.4"
clap = { version = "4", features = ["derive"] }
sqlformat = "0.3"
sqlparser = "0.57"
