//! The switches that steer one compilation.

use vstd::prelude::*;

verus! {

/// The switches that steer one compilation.
pub struct Options {
    pub emit_ir: bool,
    pub suppress_hcomp: bool,
    pub suppress_pcomp: bool,
    pub disable_comp: bool,
    pub extern_tokenizer: bool,
    pub comments: bool,
    pub stacksize: u32,
    pub disable_optim: bool,
    pub fixed_global_access: bool,
    pub ignore_errors: bool,
    pub pc_as_comment: bool,
    pub no_post_zpaql: bool,
    pub temp_debug_cfg: bool,
}

/// The stack size in cells of H that is used when none is asked for: 2^20.
pub const DEFAULT_STACKSIZE: u32 = 1048576;

impl Options {
    /// The defaults: comments and program-counter annotations on, every other
    /// switch off, a stack of 2^20 cells.
    pub fn new() -> (o: Options)
        ensures
            o == (Options {
                emit_ir: false,
                suppress_hcomp: false,
                suppress_pcomp: false,
                disable_comp: false,
                extern_tokenizer: false,
                comments: true,
                stacksize: DEFAULT_STACKSIZE,
                disable_optim: false,
                fixed_global_access: false,
                ignore_errors: false,
                pc_as_comment: true,
                no_post_zpaql: false,
                temp_debug_cfg: true,
            }),
    {
        Options {
            emit_ir: false,
            suppress_hcomp: false,
            suppress_pcomp: false,
            disable_comp: false,
            extern_tokenizer: false,
            comments: true,
            stacksize: DEFAULT_STACKSIZE,
            disable_optim: false,
            fixed_global_access: false,
            ignore_errors: false,
            pc_as_comment: true,
            no_post_zpaql: false,
            temp_debug_cfg: true,
        }
    }
}

} // verus!
