[package]
name = "treeview"
version = "0.1.0"
edition = "2021"
publish = false

[dependencies]
devicons = "=0.6.13"
ignore = "=0.4.33"
lscolors = "=0.21.0"
nu-ansi-term = "=0.50.3"
nu-plugin = "=0.115.1"
nu-protocol = "=0.115.1"
ptree = "=0.5.2"
