[package]
name = "krun_devices"
version = "0.1.0"
edition = "2021"
publish = false

[dependencies]
bincode-next = "*"
bytes = "*"
crossbeam-channel = "*"
libc = "0.2"
libloading = "*"
log = "0.4"
mio = { version = "1", features = ["net", "os-ext", "os-poll"] }
nix = { version = "*", features = ["event", "fs", "net", "socket"] }
pnet = "*"
rand = "0.9"
smoltcp = "*"
socket2 = { version = "*", features = ["all"] }
thiserror = "*"
tokio = { version = "1", features = ["macros", "net", "rt", "sync", "time"] }
tracing = "0.1"
vhost = { version = "*", features = ["vhost-user-frontend"] }
virtio-bindings = "*"
vm-memory = { version = "*", features = ["backend-mmap"] }
