[package]
name = "iocp_selector"
version = "0.1.0"
edition = "2021"
publish = false

[dependencies]
libc = "0.2"
miow = "0.3"
ntapi = "0.3"
winapi = { version = "0.3", features = ["fileapi", "handleapi", "ioapiset", "minwinbase", "minwindef", "mswsock", "ntdef", "ntstatus", "winbase", "winerror", "winnt", "winsock2", "ws2def"] }
