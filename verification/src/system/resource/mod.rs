pub mod crypto;
