[package]
name = "secio"
version = "0.1.0"
edition = "2021"
publish = false

[dependencies]
aes = "*"
bs58 = "*"
cipher = "*"
ctr = "*"
hmac = "*"
multiaddr = "*"
sha2 = "*"
twofish = "*"

[dev-dependencies]
rand = "*"
