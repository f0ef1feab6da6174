[package]
name = "cheese"
version = "0.1.0"
edition = "2021"
publish = false

[dependencies]
base64 = "0.13"
legion = "=0.3.1"
ultraviolet = "=0.7.5"
spade = "=1.8.2"
cgmath = "=0.17.0"
ordered-float = "=2.10.1"
pathfinding = "=2.2.3"
log = "=0.4.35"
env_logger = "=0.8.4"
