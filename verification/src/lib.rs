//! A minimal, manually-managed growable array, verified.
//!
//! `vec` holds the growable array itself: a raw slot buffer (`RawVec`), the
//! dynamic array (`Vec`) with push/pop/insert/remove/drain, and the consuming
//! iteration forms (`IntoIter`, `Drain`) built on a two-pointer cursor.
//! `refcell` holds a runtime-checked aliasing cell with explicit acquire and
//! release of shared or exclusive access.

pub mod refcell;
pub mod vec;
