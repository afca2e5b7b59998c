[package]
name = "object_loader"
version = "0.1.0"
edition = "2021"
publish = false

[dependencies]
anyhow = "1"
async-graphql = { version = "7", default-features = false, features = ["dataloader"] }
async-trait = "0.1"
bcs = "0.1"
diesel = { version = "2", default-features = false, features = ["postgres_backend"] }
serde = "1"
