pub mod team;
pub mod ticket;
pub mod user;
