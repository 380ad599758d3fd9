//! A linear genetic programming engine: populations of small register-machine
//! programs are evolved by fitness evaluation, truncation selection, crossover
//! and mutation.  An extension fuses the engine with tabular Q-learning.
//!
//! Register values, rewards and learning constants are plain 64-bit integers;
//! rate-like constants (gap, mutation and crossover shares, the learning
//! constants) are given in permille, so every rule of the engine is exact.

pub mod rng;
pub mod fitness_engine;
pub mod registers;
pub mod instruction;
pub mod instructions;
pub mod program;
pub mod characteristics;
pub mod population;
pub mod algorithm;
pub mod inputs;
pub mod classification;
pub mod reinforcement_learning;
pub mod q_learning;
pub mod test_utils;
