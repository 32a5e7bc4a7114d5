//! A small evolutionary-optimization engine: bit-level crossover and
//! mutation over fixed-width numeric genes, and a population loop that
//! ranks individuals by a caller-supplied loss, retires the worst, breeds
//! replacements from the fittest, and mutates the survivors.
//!
//! Everything the engine reads is held as plain integers so that it can be
//! specified exactly: a gene is its bit pattern, a loss is the bit pattern
//! of a 64-bit float (ordered with every incomparable NaN pattern last),
//! and each probability is a count of parts per thousand. Callers that
//! think in floats convert at the boundary with `to_bits` and `from_bits`.

pub mod bits;
pub mod chromosome;
pub mod env;
pub mod individual;
pub mod loss;
pub mod population;
pub mod random;
