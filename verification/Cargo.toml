[package]
name = "calnexus"
version = "0.1.0"
edition = "2021"
publish = false

[dependencies]
fluent-bundle = "=0.16.0"
unic-langid = "=0.9.6"
regex = "=1.13.1"
jiff = "=0.2.39"
num-bigint = "=0.4.8"
num-rational = "=0.4.2"
num-traits = "=0.2.19"
num-integer = "=0.1.47"
num-complex = "=0.4.6"
nalgebra = "=0.35.0"
sys-locale = "=0.3.2"
