[package]
name = "rewards_ncn"
version = "0.1.0"
edition = "2021"
publish = false

[dependencies]
solana-program = "=2.1.16"
jito-bytemuck = "=0.0.5"
jito-jsm-core = "=0.0.5"
jito-restaking-core = "=0.0.5"
jito-vault-core = "=0.0.5"
jito-vault-sdk = "=0.0.5"
borsh = "=0.10.4"
bytemuck = { version = "=1.25.2", features = ["derive"] }
shank = "=0.4.9"
shank_idl = "=0.4.9"
thiserror = "=1.0.69"
const_str_to_pubkey = "=0.2.0"
solana-security-txt = "=1.1.3"
anyhow = "=1.0.104"
env_logger = "=0.11.11"
envfile = "=0.2.1"
log = "=0.4.34"
