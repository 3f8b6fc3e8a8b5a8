[package]
name = "rem_extract"
version = "0.1.0"
edition = "2021"
publish = false

[dependencies]
camino = "*"
ra_ap_ide = "=0.0.248"
ra_ap_ide_assists = "=0.0.248"
ra_ap_ide_db = "=0.0.248"
ra_ap_load-cargo = "=0.0.248"
ra_ap_project_model = "=0.0.248"
ra_ap_vfs = "=0.0.248"
