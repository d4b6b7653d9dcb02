[package]
name = "bevy_define"
version = "0.1.0"
edition = "2021"
publish = false

[dependencies]
bevy_ecs = "*"
bevy_ptr = "*"
bevy_reflect = "*"
bevy_utils = "*"
bevy_platform = "*"
variadics_please = "*"
