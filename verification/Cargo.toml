[package]
name = "transfer_dispatch"
version = "0.1.0"
edition = "2021"
publish = false

[dependencies]
anchor-lang = "=0.28.0"
anchor-spl = "=0.28.0"
borsh = "=0.10.4"
mpl-token-auth-rules = "=1.4.3-beta.1"
mpl-token-metadata = "=1.13.2"
spl-memo = "=4.0.0"
spl-token = "=4.0.0"
