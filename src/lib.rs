//! Core of an IP-over-USB gadget: a CDC-NCM wire engine that frames Ethernet
//! traffic into NCM transfer blocks over 64-byte USB bulk packets, together
//! with the small services that run on the emulated link.

pub mod queue;
pub mod cdc_ncm;
pub mod ncm_api;
pub mod ncm_netif;
pub mod usbipserver;
pub mod ncm_laws;
pub mod text;
pub mod http;
pub mod dhcp;
pub mod board;
pub mod server;
