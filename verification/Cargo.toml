[package]
name = "csv_to_json_converter"
version = "0.1.0"
edition = "2021"

[dependencies]
csv = "1"
getopts = "0.2"
json = "0.12"
