//! Notification channels.
pub mod feishu;
