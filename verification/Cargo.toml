[package]
name = "ax-id"
version = "0.2.2"
edition = "2021"
publish = false

[dependencies]
ax-rnd = "0.1"
clap = { version = "4", features = ["derive"] }
serde = "1"
bytemuck = "1"
zerocopy = { version = "0.8", features = ["derive"] }
borsh = "1"
arbitrary = "1"
rkyv = "0.8"
diesel = { version = "2", default-features = false }
sqlx = { version = "0.8", default-features = false }
sea-orm = { version = "1", default-features = false }

[dev-dependencies]
serde_json = "1"
