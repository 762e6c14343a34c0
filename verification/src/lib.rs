pub mod chan;
pub mod scanner;
pub mod text;
