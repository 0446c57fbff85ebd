pub mod call;
pub mod codec;
pub mod error;
pub mod guest;
pub mod labyrinth;
pub mod slots;
