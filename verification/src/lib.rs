//! Decompiling functions of a binary through revng, with code lifted by fugue.
//!
//! A [`Decompiler`] holds a binary and what is known of its functions beforehand; a [`Session`]
//! decompiles several functions without repeating work. Neither talks to revng itself. They say
//! what to ask the pipeline for, one [`Request`] at a time, and take its replies; so every order of
//! requests, and what comes of every reply, is a matter of this library and proved here.
//!
//! - [`decompiler`] and [`making`] make an analysis and decompile one function from it;
//! - [`lift`] is what the lifter works from and leaves behind;
//! - [`analysis`] and [`output`] are what a finished analysis yields;
//! - [`session`] decides when an analysis serves and when a new one is needed;
//! - [`codegen`] optimises modules and generates code from them, with LLVM;
//! - [`startup`] brings revng up, once in a process;
//! - [`cli`] and [`report`] are what the command line decides and shows;
//! - the other modules hold the types, texts and numbers that these work with.

pub mod address;
pub mod analysis;
pub mod architecture;
pub mod ascending;
pub mod binary;
pub mod cli;
pub mod codegen;
pub mod decompiler;
pub mod error;
mod fx;
pub mod lift;
pub mod making;
pub mod number;
pub mod output;
pub mod prototype;
pub mod report;
pub mod session;
pub mod startup;
pub mod text;

pub use crate::address::Address;
pub use crate::analysis::{Analysis, ArtefactRequest, ObjectKind};
pub use crate::architecture::Architecture;
pub use crate::binary::{Binary, FunctionSymbol};
pub use crate::codegen::{compile, host_triple, optimise, CodeFormat};
pub use crate::decompiler::{Decompiler, Import, Request};
pub use crate::error::Error;
pub use crate::lift::{Lift, LiftContext, LiftOutcome};
pub use crate::making::{Build, Decompilation, DecompilationStep};
pub use crate::output::{Output, Rendering, Untranslated};
pub use crate::prototype::{Primitive, PrimitiveKind, Prototype};
pub use crate::session::{FunctionStep, ModuleStep, Session};
pub use crate::startup::{initialise, StartRequest, Startup};
