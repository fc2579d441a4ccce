//! A one-way synchronization client library: it reconciles a local inventory
//! of distributable files against a remote inventory, plans authenticated
//! downloads for the entries that are missing locally, verifies downloaded
//! content against a declared MD5 checksum, and renders the manifest lines
//! that commit verified entries back to the local inventory.

pub mod ascii;
pub mod checksum;
pub mod commit;
pub mod guarantees;
pub mod inventory;
pub mod item;
pub mod num;
pub mod paths;
pub mod parse;

pub use item::Arch;
pub use item::Level;
pub use item::UpdateItem;
