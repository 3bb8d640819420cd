//! The logic of a device plugin that declares VFIO-bound devices to the kubelet.
pub mod cdi;
pub mod config;
pub mod dp;
pub mod lifecycle;
pub mod platform;
pub mod plugin;
pub mod registry;
pub mod text;
pub mod vfio;
pub mod watch;
