//! A small functional-composition library: an `Either` sum type, an
//! `OptionT` transformer that layers optionality over `Either`, and a
//! `Monad` trait for sequencing over built-in container types.

pub mod either;
pub mod monad;
pub mod option_t;
