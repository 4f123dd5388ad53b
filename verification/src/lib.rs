//! A simulator for the Vondel microprogrammed CPU together with the
//! assembler that produces the microcode images it runs.
//!
//! The crate has two halves:
//! - [`uarch`]: the machine itself — RAM, the control store, the register
//!   file with its instruction-fetch unit, the ALU, and the two-phase
//!   data-path engine that executes one microinstruction per cycle.
//! - [`assembler`]: the pipeline from assembly text to a control-store
//!   image — lexer, parser, and the evaluator that lowers the typed AST
//!   to 64-bit microinstruction words and back-patches forward labels.

pub mod assembler;
pub mod uarch;
