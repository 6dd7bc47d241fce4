[package]
name = "gamelog"
version = "0.1.0"
edition = "2021"
publish = false

[dependencies]
askama = "=0.5.0"
bcrypt = "=0.19.3"
# Not called from this crate. secure-session hands a Duration of chrono to
# cookie, which takes that of time: the two are one type in this version of
# chrono and no longer in later ones.
chrono = "=0.4.19"
diesel = { version = "=0.16.0", features = ["sqlite"] }
diesel_codegen = { version = "=0.16.1", features = ["sqlite"] }
env_logger = "=0.4.3"
error-chain = "=0.11.0"
futures = "=0.1.31"
hyper = "=0.11.27"
iron = "=0.6.1"
logger = "=0.4.0"
params = "=0.8.0"
rand = "=0.4.6"
router = "=0.6.0"
secure-session = "=0.3.1"
serde = "=1.0.229"
serde_derive = "=1.0.229"
serde_json = "=1.0.154"
time = "=0.1.45"
tokio-core = "=0.1.18"
typemap = "=0.3.3"
