[package]
name = "prometheus_fdw"
version = "0.1.0"
edition = "2021"
publish = false

[dependencies]
chrono = "=0.4.45"
lazy_static = "=1.5.1"
pgrx = "=0.11.2"
prometheus-http-query = "=0.9.0"
supabase-wrappers = "=0.1.16"
