[package]
name = "nu_plugin_x509"
version = "0.1.0"
edition = "2021"
publish = false

[dependencies]
rcgen = "=0.14.10"
x509-parser = "=0.18.1"
time = "=0.3.55"
chrono = "=0.4.45"
nu-plugin = "=0.115.1"
nu-protocol = "=0.115.1"

[dev-dependencies]
hex = "=0.4.3"
