//! Batch-size and precision logic for estimating the energy cost of model
//! inference: precision labels and their factor tables, batch ranges and the
//! search for the most efficient batch size, and the delimited sweep table.
pub mod batch;
pub mod export;
pub mod precision;
