//! A streaming line-rate limiter: admits at most a configured number of
//! lines per fixed time window, discarding the excess, so that a bursty
//! upstream producer cannot overwhelm a downstream consumer.

pub mod diag;
pub mod laws;
pub mod limiter;
