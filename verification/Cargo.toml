[package]
name = "yara_x"
version = "0.1.0"
edition = "2021"
publish = false

[dependencies]
array-bytes = "6"
bitvec = "1"
const-oid = { version = "0.9", features = ["db"] }
digest = "0.10"
rustc-hash = "1"
sha1 = "0.10"
sha2 = "0.10"
smallvec = "1"
magic = "0.16"
ansi_term = "0.12"
anyhow = "1"
ascii_tree = "0.1"
bstr = "1"
clap = { version = "4", features = ["cargo"] }
cms = "0.2"
darling = "0.14"
der = { version = "0.7", features = ["derive", "alloc", "oid"] }
enable-ansi-support = "0.2"
globset = "0.4"
lazy_static = "1"
linkme = "0.3"
proc-macro2 = "1"
protobuf = "3"
quote = "1"
syn = { version = "1", features = ["full"] }
walrus = "0.19"
wasmtime = { version = "8", default-features = false, features = ["cranelift"] }
x509-cert = "0.2"
x509-tsp = "0.1"
