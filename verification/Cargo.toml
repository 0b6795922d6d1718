[package]
name = "path_partitioner"
version = "0.1.0"
edition = "2021"
publish = false

[dependencies]
bit-vec = "*"
euclid = "*"
pathfinder_geometry = "*"
pathfinder_path_utils = "*"
