//! Three small libraries whose promises are proved rather than sampled:
//! currency-tagged money, a typestate connection protocol, and a total
//! integer division kernel with its command-line front end.

pub mod decimal;
pub mod newtype;
pub mod safediv;
pub mod typestate;
