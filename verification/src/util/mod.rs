pub mod ip;
pub mod private_ip;
pub mod validate;
pub mod output_limit;
pub mod progress_buffer;
pub mod logs_transport;
