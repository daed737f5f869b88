[package]
name = "brrrr"
version = "0.1.0"
edition = "2021"
publish = false

[dependencies]
arrow = "*"
parquet = "*"
noodles = { version = "*", features = ["fasta", "fastq", "gff"] }
flate2 = "*"
clap = { version = "*", features = ["derive"] }
