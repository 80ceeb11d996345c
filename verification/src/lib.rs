//! Server-side core of a Mirror-compatible networking library: the wire
//! format, the message set, and the decisions of the network server.
pub mod le_bytes;
pub mod blittable;
pub mod compress;
pub mod network_reader;
pub mod network_writer;
pub mod wire_laws;
pub mod stable_hash;
pub mod transport;
pub mod message;
pub mod message_types;
pub mod spawn_message;
pub mod network_connection;
pub mod network_behaviour;
pub mod remote_calls;
pub mod network_identity;
pub mod network_server;
pub mod sync_list;
pub mod network_manager;
pub mod network_room_manager;
pub mod network_loop;
pub mod network_writer_pool;
pub mod network_reader_pool;
pub mod sync_list_laws;
pub mod server_laws;
pub mod behaviour_object;
pub mod quaternion_bits;
pub mod batching;
