[package]
name = "duniter_node_manager"
version = "0.1.0"
edition = "2021"
publish = false

[dependencies]
cpp = "0.5"
cstr = "0.2"
qmetaobject = "0.2"
ssh2 = "0.9"
