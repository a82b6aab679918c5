//! The decisions behind termhost's background programs.
//!
//! termhost keeps terminals in a process of their own, pty-host. The daemon is a
//! client of it, and the bridge pops one terminal out into a console window.
//! This library holds what these programs decide and compute: which console
//! calls to make, how to relay bytes, when to claim a window's size, how to
//! number and answer requests, how to get hold of pty-host, and what the logs
//! say. It makes no system call but for reading the clock. The programs open,
//! read, write, wait and print, and ask it what to do next.
//!
//! - [`console`]: the console's modes, and how they are put back.
//! - [`relay`]: the loop between the console and a terminal's raw pipe.
//! - [`utf8_prefix`]: where output may be cut.
//! - [`window_size`]: the size of the window, and the claims on it.
//! - [`terminals`]: which terminal is asked for, and which there are.
//! - [`pty_client`], [`pty_ipc`]: requests to pty-host and their answers.
//! - [`host_connect`]: the way to a connection with pty-host.
//! - [`pty_host`]: the check that there is only one pty-host.
//! - [`panic_log`]: the lines of the logs and their timestamps.
//! - [`calendar`], [`decimal`], [`text_order`]: dates, numbers as text, and the
//!   order of texts.

pub mod calendar;
pub mod console;
pub mod decimal;
pub mod host_connect;
pub mod panic_log;
pub mod pty_client;
pub mod pty_host;
pub mod pty_ipc;
pub mod relay;
pub mod terminals;
pub mod text_order;
pub mod utf8_prefix;
pub mod window_size;
