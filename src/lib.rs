pub mod cpe;
pub mod hash;
pub mod prefix;
pub mod script;
pub mod taproot;
pub mod transfer;
