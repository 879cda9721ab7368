[package]
name = "imaprust"
version = "0.1.0"
edition = "2021"
publish = false

[dependencies]
async-listen = "=0.2.1"
async-lock = "=3.4.2"
async-std = "=1.13.2"
bcrypt = "=0.19.3"
futures = "=0.3.34"
log = "=0.4.34"
