[package]
name = "mongo_collection"
version = "0.1.0"
edition = "2021"
publish = false

[dependencies]
Inflector = "0.11"
mongodb = "3"
bson = "2"
futures = "0.3"
async-trait = "0.1"
serde = { version = "1", features = ["derive"] }
smart-default = "0.7"
syn = { version = "2", features = ["full"] }
quote = "1"
proc-macro2 = "1"
