[package]
name = "splittea"
version = "0.1.0"
edition = "2021"
publish = false

[dependencies]
rust_decimal = "=1.43.0"
anyhow = "=1.0.104"
async-trait = "=0.1.92"
async_once = "=0.2.6"
clap = { version = "=4.6.7", features = ["derive", "env"] }
directories = "=5.0.1"
dptree = "=0.3.0"
lazy_static = "1"
once_cell = "1"
sea-orm = { version = "=0.12.15", default-features = false, features = ["macros", "runtime-tokio-rustls", "sqlx-sqlite", "with-rust_decimal"] }
sea-orm-migration = { version = "=0.12.15", default-features = false, features = ["runtime-tokio-rustls", "sqlx-sqlite"] }
takecell = "=0.1.1"
teloxide = { version = "=0.12.2", features = ["macros"] }
tokio = { version = "1", features = ["macros", "rt-multi-thread"] }
tracing = "0.1"
tracing-subscriber = { version = "0.3", features = ["env-filter"] }
