[package]
name = "poshumim_hwscreen"
version = "0.1.0"
edition = "2021"
publish = false

[dependencies]
anyhow = "1"
env_logger = "0.11"
livekit = "=0.10.0"
livekit-api = { version = "=0.10.0", default-features = false, features = ["access-token"] }
log = "0.4"
napi = { version = "2", features = ["napi4", "async"] }
napi-derive = "2"
tokio = { version = "1", features = ["rt-multi-thread", "macros", "sync", "time"] }
windows = { version = "0.58", features = ["Foundation", "Graphics_Capture", "Graphics_DirectX", "Graphics_DirectX_Direct3D11", "Win32_Foundation", "Win32_Graphics_Direct3D", "Win32_Graphics_Direct3D_Fxc", "Win32_Graphics_Direct3D11", "Win32_Graphics_Dxgi", "Win32_Graphics_Dxgi_Common", "Win32_Graphics_Gdi", "Win32_System_WinRT_Direct3D11", "Win32_System_WinRT_Graphics_Capture"] }
