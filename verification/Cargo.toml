[package]
name = "kanshi"
version = "0.1.0"
edition = "2021"
publish = false

[dependencies]
edid = "*"
getopts = "*"
i3ipc = "*"
libudev = "*"
xmltree = "=0.9.0"
