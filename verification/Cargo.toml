[package]
name = "mirokio"
version = "0.1.0"
edition = "2021"
publish = false

[dependencies]
crossbeam = "0.8"
opentelemetry = "0.17"
opentelemetry-jaeger = "0.16"
tracing-opentelemetry = "0.17"
tracing-subscriber = "0.3"
