pub mod delete;
pub mod insert;
pub mod select;
pub mod update;
