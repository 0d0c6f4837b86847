//! Runtime configuration. Reading the environment happens outside the
//! library; the defaults and the shape of the record live here.

use vstd::prelude::*;

verus! {

/// Ports, log level and buffer sizes the process runs with.
#[derive(Debug)]
pub struct Config {
    pub http_port: u16,
    pub grpc_port: u16,
    pub log_level: String,
    pub order_queue_size: usize,
    pub event_buffer_size: usize,
}

impl Clone for Config {
    fn clone(&self) -> (r: Self)
        ensures
            r.http_port == self.http_port,
            r.grpc_port == self.grpc_port,
            r.log_level@ == self.log_level@,
            r.order_queue_size == self.order_queue_size,
            r.event_buffer_size == self.event_buffer_size,
    {
        Config {
            http_port: self.http_port,
            grpc_port: self.grpc_port,
            log_level: self.log_level.clone(),
            order_queue_size: self.order_queue_size,
            event_buffer_size: self.event_buffer_size,
        }
    }
}

impl Default for Config {
    /// The values used when the environment sets nothing.
    fn default() -> (r: Self)
        ensures
            r.http_port == 3000,
            r.grpc_port == 50051,
            r.log_level@ == "info"@,
            r.order_queue_size == 1024,
            r.event_buffer_size == 1024,
    {
        Config {
            http_port: 3000,
            grpc_port: 50051,
            log_level: "info".to_owned(),
            order_queue_size: 1024,
            event_buffer_size: 1024,
        }
    }
}

} // verus!
