[package]
name = "amd_smi_lib"
version = "0.1.0"
edition = "2021"

[dependencies]
amd_smi_lib_sys = "*"
bitflags = "*"
