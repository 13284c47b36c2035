pub mod link;
pub mod net;
pub mod rib;
pub mod route;
pub mod show;
