[package]
name = "quad_snd"
version = "0.1.0"
edition = "2021"
publish = false

[dependencies]
hound = "*"
lewton = "*"
symphonia = "*"
cpal = "*"
libc = "*"
