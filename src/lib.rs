pub mod backoff;
pub mod connection_status;
pub mod messages;
pub mod next_connection;
pub mod orders_manager;
pub mod orders_queue;
