[package]
name = "frame_sequencer"
version = "0.1.0"
edition = "2021"
publish = false

[dependencies]
bevy = { version = "=0.5.0", default-features = false }
# bevy 0.5's derive crates use syn's `full` items without asking for them;
# this derive crate asks for them on their behalf.
num_enum = { version = "=0.4.3", features = ["complex-expressions"] }
