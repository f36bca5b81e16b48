//! Wire forms of the protocol's basic types.

pub mod boolean;
pub mod intention;
pub mod known_pack;
pub mod sint;
pub mod string;
pub mod uint;
pub mod uuid;
pub mod option;
pub mod property;
pub mod settings;
pub mod vector;
