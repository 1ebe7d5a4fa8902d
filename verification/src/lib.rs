//! Branded indices and ranges: offsets into a container that carry, in their
//! type, the session they were made in and whether they are known to denote at
//! least one element, together with two algorithms built on them.

pub mod brand;
pub mod certificate;
pub mod container;
pub mod copy;
pub mod index;
pub mod order;
pub mod qsort;
pub mod range;
pub mod storage;
pub mod ziprange;
