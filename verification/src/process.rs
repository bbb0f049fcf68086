//! The operations behind the commands.

pub mod b64;
pub mod gen_pass;
pub mod http_serve;
pub mod text;
