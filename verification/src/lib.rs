//! Strategies that generate optional values, and the shrink trees they
//! produce.

pub mod option;
pub mod runner;
pub mod strategy;
pub mod weight;
