//! A framework for genetic algorithms: a population of phenotypes is evolved by
//! repeated selection of parents, crossover, mutation and culling.
pub mod pheno;
mod random;
pub mod sim;
mod sort;
pub mod stats;
