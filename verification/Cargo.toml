[package]
name = "raffle"
version = "0.1.0"
edition = "2021"
publish = false

[dependencies]
anchor-lang = "=1.2.1"
bytemuck = { version = "1", features = ["derive", "min_const_generics"] }
