//! Verified core of a remote desktop service: the wire protocol, the
//! GameStream pairing handshake, the rendezvous store, the host agent's and
//! the client's decisions.

pub mod agent;
pub mod agent_laws;
pub mod agent_loop;
pub mod apollo;
pub mod apps;
pub mod apps_laws;
pub mod autostart;
pub mod client_config;
pub mod config_laws;
pub mod connect;
pub mod connect_laws;
pub mod crypto;
pub mod desk;
pub mod desk_laws;
pub mod error;
pub mod fakehost;
pub mod foreign;
pub mod handshake;
pub mod host_config;
pub mod host_laws;
pub mod http;
pub mod identity;
pub mod job_laws;
pub mod moonlight;
pub mod nesting;
pub mod pairing;
pub mod perm;
pub mod proto;
pub mod proto_laws;
pub mod rendezvous;
pub mod rendezvous_laws;
pub mod serverinfo;
pub mod serverinfo_laws;
pub mod session;
pub mod session_laws;
pub mod setup;
pub mod store_laws;
pub mod table;
pub mod testing;
pub mod text;
pub mod text_laws;
pub mod transport_laws;
pub mod xml;
pub mod xml_laws;
