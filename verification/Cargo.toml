[package]
name = "news_tui"
version = "0.1.0"
edition = "2021"
publish = false

[dependencies]
jiff = "0.2"
rss = "2"
atom_syndication = "*"
scraper = "*"
ratatui = "*"
ratatui-textarea = "*"
tui-widget-list = "*"
webbrowser = "*"
color-eyre = "*"
tokio = { version = "1", features = ["full"] }
reqwest = { version = "0.12", default-features = false, features = ["rustls-tls"] }
sqlite = "*"
