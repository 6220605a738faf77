[package]
name = "stoc"
version = "0.1.0"
edition = "2021"
publish = false

[dependencies]
ndarray = "0.15"
ordered-float = "3"
rand = "0.8"
rand_distr = "0.4"
rand_pcg = "0.3"
rayon = "1"
