//! Verified models of two FRAME pallets: a kitty registry with ownership,
//! pricing, trading and breeding, and an off-chain price oracle.

pub mod encoding;
pub mod frame;
pub mod kitties;
pub mod kitty_laws;
pub mod ocw;
pub mod ocw_laws;
pub mod price;
