[package]
name = "tunm_timer"
version = "0.1.0"
edition = "2021"
publish = false

[dependencies]
rbtree = "=0.2.0"
