//! Coordination stacks: one ordered store read through a chosen perspective
//! (LIFO, FIFO, Indexed or Hash), with views, blocking-take decisions and two
//! work-stealing structures built on it, a tagged value type with a binary
//! encoding, and the typed stacks of a small stack calculator.
//!
//! The state machine of a stack lives in [`inner::StackInner`] and is specified
//! over [`model::StackView`]; [`Stack`] shares it between threads behind a lock.
pub mod error;
pub mod index;
pub mod model;
pub mod inner;
pub mod lock;
pub mod stack;
pub mod laws;
pub mod bytes;
pub mod view;
pub mod worksteal;
pub mod take;
pub mod value;
pub mod calc;

pub use error::{Result, StackError};
pub use model::{ElementType, Perspective, PopParam};
pub use stack::{Stack, StackGuard};
pub use take::TakeStep;
pub use value::{Codeblock, Value, ValueType};
pub use view::{View, WorkStealViews};
pub use worksteal::{Task, WSDeque, WSStack};
pub use calc::StackMode;
pub use calc::int_stack::IntStack;
pub use calc::memory::{Memory, load, store};
pub use calc::selector::{StackSelector, StackType};
pub use calc::str_stack::StringStack;
