[package]
name = "dicom_inspect"
version = "0.1.0"
edition = "2021"
publish = false

[dependencies]
base64 = "0.22"
dicom = "*"
dicom-dictionary-std = "*"
dicom-pixeldata = { version = "*", features = ["image"] }
image = { version = "0.25", default-features = false, features = ["jpeg"] }
serde = { version = "1", features = ["derive"] }
serde_json = "1"
