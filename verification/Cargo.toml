[package]
name = "ruggle"
version = "0.1.0"
edition = "2021"
publish = false

[dependencies]
piston = "*"
rand = "0.7"
rand_pcg = "0.2"
shipyard = "0.4"
