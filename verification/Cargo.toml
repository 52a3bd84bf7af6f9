[package]
name = "wryneck"
version = "0.1.0"
edition = "2021"

[dependencies]
colored = "2"
id_collections = "*"
lalrpop-util = { version = "0.19", features = ["lexer"] }
structopt = "0.3"
