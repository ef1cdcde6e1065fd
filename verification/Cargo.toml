[package]
name = "vcpu_tasks"
version = "0.1.0"
edition = "2021"
publish = false

[dependencies]
slog = "=2.8.2"
thiserror = "=1.0.69"

[dev-dependencies]
mockall = "0.12"
