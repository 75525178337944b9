[package]
name = "amethyst_rhusics"
version = "0.1.0"
edition = "2021"
publish = false

[dependencies]
amethyst_core = "=0.6.0"
amethyst_error = "=0.1.0"
cgmath = "=0.16.1"
collision = "=0.18.0"
rhusics-core = "=0.7.0"
rhusics-ecs = "=0.7.0"
