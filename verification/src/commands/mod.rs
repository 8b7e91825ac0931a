pub mod charinfo;
pub mod delete;
pub mod google_palm;
pub mod ping;
pub mod stablehorde;
