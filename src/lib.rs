//! Verified core of a cross-chain oracle and token bridge: the Gravity
//! consul authority, the Nebula oracle, and the burn/mint and lock/unlock
//! ports, with their instruction codecs and signer-set validation.
pub mod codec;
pub mod fee;
pub mod pda;
pub mod error;
pub mod records;
pub mod multisig;
pub mod gravity;
pub mod gravity_instruction;
pub mod port;
pub mod ibport;
pub mod ibport_instruction;
pub mod luport;
pub mod luport_instruction;
pub mod subscriber;
pub mod nebula;
pub mod nebula_instruction;
