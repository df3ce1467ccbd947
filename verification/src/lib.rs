//! The logic of a telemetry agent for a small embedded host.
//!
//! The agent reads lines from a serial device and samples the host's
//! metrics, and ships both to a message broker and to an HTTP endpoint, under
//! a configuration that can be replaced while it runs. This library holds
//! what the agent decides and computes; opening devices, sleeping, and
//! talking to the network are left to the program around it.
//!
//! The core is the versioned configuration store ([`config`]), the bounded
//! queue between ingestion and a sink ([`queue`]), the envelopes that travel
//! through it ([`envelope`]), and the two loops as state machines: the serial
//! ingestion loop ([`uart_reader`]) and the publisher loop of a sink
//! ([`publisher`], with [`mqtt_publisher`] and [`http_publisher`]). Around it
//! stand the dashboard's requests and pages ([`web`], [`html_config`],
//! [`html_template`]), the network setup ([`network_config`], [`uci`]), the
//! readers of the host's metrics ([`system_info`]), the clock
//! ([`time_sync`]), the display ([`oled`]) and the text functions that all of
//! them share ([`text`]).

pub mod backoff;
pub mod config;
pub mod envelope;
pub mod html_config;
pub mod html_template;
pub mod http_publisher;
pub mod mqtt_publisher;
pub mod network_config;
pub mod oled;
pub mod publisher;
pub mod queue;
pub mod system_info;
pub mod text;
pub mod time_sync;
pub mod uart_reader;
pub mod uci;
pub mod web;
