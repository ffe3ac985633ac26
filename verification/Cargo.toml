[package]
name = "translator"
version = "0.1.0"
edition = "2021"
publish = false

[dependencies]
async-openai = "*"
dirs = "*"
dotenvy = "*"
gtk4 = "*"
lingua = { version = "*", default-features = false, features = ["english", "french", "german", "spanish", "italian", "polish", "portuguese", "russian", "ukrainian", "japanese", "chinese", "korean"] }
tokio = { version = "*", features = ["macros", "rt-multi-thread", "time"] }
