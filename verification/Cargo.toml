[package]
name = "scene_viewer"
version = "0.1.0"
edition = "2021"
publish = false

[dependencies]
gl = "=0.14.0"
glam = "=0.20.5"
gltf = "=1.4.1"
glutin = "=0.28.0"
nalgebra-glm = "=0.21.0"
stb_image = "=0.3.0"
thiserror = "=1.0.69"
