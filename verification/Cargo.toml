[package]
name = "fractal_pendulum"
version = "0.1.0"
edition = "2021"
publish = false

[dependencies]
ode_solvers = "*"
num-complex = "*"
