[package]
name = "dice_duel"
version = "0.1.0"
edition = "2021"

[dependencies]
fastrand = "*"
