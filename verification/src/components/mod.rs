pub mod devices;
pub mod dos;
pub mod mem_64k;
