//! A real-valued genetic algorithm whose genes and fitnesses are held as the
//! raw 64-bit IEEE-754 patterns of doubles. Recombination and mutation work on
//! those patterns directly; comparisons and clamping are stated over them.
pub mod float_bits;
pub mod individual;
pub mod random;
pub mod operators;
pub mod population;
pub mod restarts;
pub mod laws;
