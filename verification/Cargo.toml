[package]
name = "pddl_search"
version = "0.1.0"
edition = "2021"
publish = false

[dependencies]
indexmap = "=2.14.2"
pddllib = "=0.1.24"
