pub mod arena;
pub mod arith;
pub mod buddy;
pub mod cert;
pub mod chacha;
pub mod child;
pub mod cpuid;
pub mod handles;
pub mod process;
pub mod segregated;
pub mod sync;
pub mod text;
