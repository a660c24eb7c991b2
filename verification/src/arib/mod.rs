pub mod caption;
pub mod pes;
pub mod string;
