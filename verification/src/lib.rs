//! Interior-mutability primitives for single-threaded use: a plain
//! single-value container (`Cell`) and a runtime-checked borrow cell
//! (`RefCell`) that hands out either many shared views or one exclusive
//! view of its value, tracked by a small verified state machine
//! (`BorrowState`).

pub mod cell;
pub mod refcell;
pub mod state;

pub use cell::Cell;
pub use refcell::Ref;
pub use refcell::RefCell;
pub use refcell::RefMut;
pub use state::BorrowState;
