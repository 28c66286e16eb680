pub mod laws;
pub mod matrix;
pub mod multiply;
pub mod oracle;
pub mod random;
pub mod ring;
