[package]
name = "ustat"
version = "0.2.2"
edition = "2021"
publish = false

[dependencies]
argparse = "0.2"
log = "0.4"
prettytable-rs = "0.10"
statrs = "*"
