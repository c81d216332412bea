[package]
name = "quadtree"
version = "0.1.0"
edition = "2021"
publish = false

[dependencies]
page_size = "*"
