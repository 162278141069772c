pub mod field;
pub mod curve;
pub mod eddsa;
pub mod codec;
