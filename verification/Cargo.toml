[package]
name = "roguegrid"
version = "0.1.0"
edition = "2021"
publish = false

[dependencies]
rand = "=0.3.23"
specs = "=0.7.1"
termion = "=1.5.5"
time = "=0.1.45"
log = "=0.3.9"
env_logger = "=0.4.3"
log-panics = "=2.1.0"
