[package]
name = "gpt_md_translator"
version = "0.1.0"
edition = "2021"
publish = false

[dependencies]
anyhow = "1"
async-openai = "0.23"
bpaf = "0.9"
config = { version = "0.13", default-features = false, features = ["toml"] }
log = "0.4"
once_cell = "1"
simplelog = "0.12"
tiktoken-rs = "0.5"
tokio = { version = "1", features = ["macros", "rt-multi-thread"] }
