[package]
name = "anchor_dice_game"
version = "0.1.0"
edition = "2021"
publish = false

[dependencies]
anchor-lang = "*"
sha2 = "*"
