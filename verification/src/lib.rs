pub mod cli;
pub mod contract;
pub mod extract;
pub mod generate;
pub mod laws;
pub mod order;
pub mod php;
pub mod stub_laws;
pub mod text;
