[package]
name = "boucle"
version = "0.1.0"
edition = "2021"
publish = false

[dependencies]
clap = "*"
cpal = "*"
dasp = "*"
env_logger = "*"
hound = "*"
jack = "*"
log = "*"
nannou_osc = "*"
portmidi = "*"
