[package]
name = "callgraph"
version = "1.0.0"
edition = "2021"
publish = false

[dependencies]
anyhow = "=1.0.104"
clap = { version = "=4.6.7", features = ["derive"] }
env_logger = "=0.11.11"
# Not used by the code: held at this version so that ruff_python_ast builds.
get-size2 = "=0.10.0"
indexmap = { version = "=2.14.2", features = ["serde"] }
log = "=0.4.34"
ruff_python_ast = "=0.0.5"
ruff_python_parser = "=0.0.5"
serde = { version = "=1.0.229", features = ["derive"] }
serde_json = "=1.0.154"
serde_yaml = "=0.9.34"
walkdir = "=2.5.0"
