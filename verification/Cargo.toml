[package]
name = "details_table"
version = "0.1.0"
edition = "2021"
publish = false

[dependencies]
ansi_term = "*"
datetime = "*"
locale = "*"
num_cpus = "*"
number_prefix = "*"
scoped_threadpool = "*"
unicode-width = "*"
users = "*"
