[package]
name = "shaobot"
version = "0.1.0"
edition = "2021"
publish = false

[dependencies]
anyhow = "=1.0.104"
bevy_app = "=0.14.2"
bevy_ecs = "=0.14.2"
kira_framework = "=0.2.5"
kira_qqbot = "=0.2.5"
lazy_static = "=1.5.1"
log = "=0.4.35"
pinyin = "=0.10.0"
pretty_env_logger = "=0.5.0"
rand = "=0.8.8"
rand_core = { version = "=0.6.4", features = ["getrandom"] }
rand_isaac = "=0.3.0"
reqwest = { version = "=0.12.28", features = ["json"] }
serde = { version = "=1.0.229", features = ["derive"] }
serde_json = "=1.0.154"
sysinfo = "=0.31.4"
tokio = { version = "=1.54.1", features = ["rt-multi-thread", "macros"] }
