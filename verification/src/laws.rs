//! What holds of programs whatever they do.

pub mod boundary;
pub mod calling;
pub mod calls;
pub mod captures;
pub mod globals;
pub mod growth;
pub mod heap;
pub mod hosting;
pub mod injection;
pub mod instructions;
pub mod limits;
pub mod names;
pub mod objects;
pub mod orders;
pub mod programs;
pub mod running;
pub mod sessions;
pub mod texts;
pub mod validity;
