[package]
name = "conculake"
version = "0.1.0"
edition = "2021"
publish = false

[dependencies]
rand = "=0.8.8"
libc = "=0.2.191"
chrono = "=0.4.45"
getopts = "=0.2.24"
ncurses = "=5.91.0"
