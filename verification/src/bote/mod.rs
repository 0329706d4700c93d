//! Back-of-the-envelope comparison of protocols over sets of regions.

pub mod search;
