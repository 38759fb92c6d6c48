[package]
name = "blps"
version = "0.1.0"
edition = "2021"
publish = false

[dependencies]
heapless = "0.5"
heck = "0.3"
typenum = "1"
thiserror = "1"
log = "0.4"
simplelog = "0.7"
winapi = { version = "0.3", features = ["consoleapi", "libloaderapi", "minwindef", "processthreadsapi", "psapi", "synchapi", "wincon", "winnt"] }
detours-sys = "0.1"
