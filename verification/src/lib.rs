//! Control of Omarchy desktops over a tailnet.
pub mod access;
pub mod address;
pub mod agent;
pub mod agent_client;
pub mod authorize;
pub mod cli;
pub mod config;
pub mod connect;
pub mod discovery;
pub mod display;
pub mod doctor;
pub mod domain;
pub mod error_code;
pub mod follow_focus;
pub mod hyprland;
pub mod ids;
pub mod input;
pub mod omarchy;
pub mod launcher;
pub mod moonlight;
pub mod order;
pub mod pair;
pub mod pairing;
pub mod panels;
pub mod ports;
pub mod process;
pub mod protocol;
pub mod readiness;
pub mod release;
pub mod replay;
pub mod scan;
pub mod screen;
pub mod seqs;
pub mod services;
pub mod session;
pub mod session_record;
pub mod settings;
pub mod startup;
pub mod state;
pub mod strings;
pub mod sunshine;
pub mod systemd;
pub mod tailscale;
pub mod target;
pub mod text;
pub mod theme;
pub mod tui;
pub mod wrap;
