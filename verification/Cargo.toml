[package]
name = "openvpn_cred_management"
version = "0.1.0"
edition = "2021"
publish = false

[dependencies]
chrono = "*"
clap = { version = "*", features = ["derive"] }
clap_complete = "*"
clap-verbosity-flag = "*"
color-eyre = "*"
derive_more = { version = "*", features = ["full"] }
directories = "*"
documented = "*"
fs-more = "*"
itertools = "*"
log = "*"
serde = { version = "*", features = ["derive"] }
simplelog = "*"
strum = { version = "*", features = ["derive"] }
temp-dir = "*"
toml_edit = { version = "*", features = ["serde"] }
xshell = "*"
zip = "*"
zip-extensions = "*"
