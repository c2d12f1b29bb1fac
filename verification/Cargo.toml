[package]
name = "seismology"
version = "0.1.0"
edition = "2021"
publish = false

[dependencies]
chrono = "=0.4.45"
thiserror = "=2.0.21"
rusqlite = { version = "=0.41.1", features = ["bundled"] }
reqwest = { version = "=0.13.5", features = ["blocking"] }
http = "=1.5.0"
plotters = "=0.3.7"
fftw = "=0.8.0"
quick-xml = "=0.37.5"
