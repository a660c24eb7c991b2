pub mod arib;
pub mod buf;
pub mod cmd;
pub mod crc32;
pub mod error;
pub mod h262;
pub mod pes;
pub mod psi;
pub mod stream;
pub mod text;
pub mod ts;
pub mod util;
