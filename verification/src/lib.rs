pub mod text;
pub mod update;
pub mod store;
pub mod clock;
pub mod logic;
pub mod order;
pub mod sorting;
pub mod siren;
pub mod report;
pub mod todos;
pub mod notion;
pub mod sync;
pub mod ids;
pub mod download;
pub mod screen;
pub mod pages;
