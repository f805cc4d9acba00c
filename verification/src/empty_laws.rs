//! What holds of a program whose sections have `pass` as their body.

use vstd::prelude::*;
use vstd::string::*;
use crate::ast::StmtView;
use crate::compiler::{compiles_to, filled, prepared};
use crate::error::CompileError;
use crate::gen_ir::Draft;
use crate::ir::IRView;
use crate::options::Options;
use crate::post_ir::{deblocked, has_nested, lightened_code, optimised, sweep, without_self_moves, without_unused_functions};
use crate::sections::{blank_cfg, built_ir, header_read, section_code, section_table};
use crate::statements::{
    is_empty_section, no_pairs, statement_code, statements_code, traversed, Pairs, Progress,
};
use crate::symbols::TableView;
use crate::text::decimal;
use crate::zpaqcfg::{lemma_empty_sections_text, CfgView};
use crate::zpaql::{assemble, resolve, OpView};

verus! {

/// Whether a list of statements defines a section without code: `hcomp`
/// or `pcomp` with `pass` as its body.
pub open spec fn defines_empty_section(stmts: Seq<StmtView>) -> bool {
    exists|k: int| 0 <= k < stmts.len() && is_empty_section(#[trigger] stmts[k])
}

proof fn lemma_empty_from(stmts: Seq<StmtView>, n: int, d: Draft, pairs: Pairs, opts: Options, k: int)
    requires
        0 <= n <= k < stmts.len(),
        is_empty_section(stmts[k]),
        statements_code(stmts, n, d, pairs, opts) is Ok,
    ensures
        statements_code(stmts, n, d, pairs, opts)->Ok_0 is Empty,
    decreases stmts.len() - n,
{
    let first = statement_code(stmts[n], d.note(stmts[n].location(), opts.comments), pairs, opts);
    if n < k {
        match first {
            Ok(Progress::Next { d: d1, pairs: p1 }) => {
                lemma_empty_from(stmts, n + 1, d1, p1, opts, k);
            },
            _ => {},
        }
    }
}

/// A list of statements that defines a section without code compiles to
/// no code, where it compiles.
pub proof fn lemma_empty_section_has_no_code(stmts: Seq<StmtView>, st: TableView, opts: Options)
    requires
        defines_empty_section(stmts),
        traversed(stmts, st, opts) is Ok,
    ensures
        traversed(stmts, st, opts)->Ok_0.0.len() == 0,
{
    let k = choose|k: int| 0 <= k < stmts.len() && is_empty_section(#[trigger] stmts[k]);
    lemma_empty_from(stmts, 0, Draft { code: Seq::empty(), st }, no_pairs(), opts, k);
}

/// No code is optimised to no code.
pub proof fn lemma_nothing_to_optimise(disable_optim: bool, ignore_errors: bool)
    ensures
        optimised(Seq::empty(), disable_optim, ignore_errors) == Ok::<Seq<IRView>, CompileError>(Seq::empty()),
{
    let none = Seq::<IRView>::empty();
    assert(deblocked(none) =~= none);
    assert(sweep(none, 0).out =~= none);
    assert(without_unused_functions(none) =~= none);
    assert(without_self_moves(none) =~= none);
    assert(!has_nested(none));
    assert(lightened_code(none) =~= none);
}

proof fn lemma_header_keeps_code(stmts: Seq<StmtView>, n: int, cfg: CfgView)
    ensures
        header_read(stmts, n, cfg).hcomp == cfg.hcomp,
        header_read(stmts, n, cfg).pcomp == cfg.pcomp,
        header_read(stmts, n, cfg).finalised == cfg.finalised,
    decreases n,
{
    if n > 0 && n <= stmts.len() {
        lemma_header_keeps_code(stmts, n - 1, cfg);
    }
}

/// A program in which `hcomp` and `pcomp` have `pass` as their body is
/// written with a single `halt` in the first section and without the
/// second, whatever its header and its other statements are.
pub proof fn lemma_sections_of_pass(
    opts: Options,
    hcomp: Seq<StmtView>,
    pcomp: Seq<StmtView>,
    source: Seq<char>,
    done: CfgView,
    out: Seq<char>,
)
    requires
        !opts.emit_ir,
        compiles_to(opts, hcomp, pcomp, source, done, out),
        defines_empty_section(hcomp.skip(6)),
        defines_empty_section(pcomp.skip(6)),
    ensures
        out == done.header_text() + "hcomp\n  halt\n"@ + "end\n"@,
        done.hcomp.len() == 0,
        done.pcomp.len() == 0,
{
    reveal(prepared);
    let cfg = header_read(pcomp.take(6), 6, blank_cfg(opts.stacksize));
    lemma_header_keeps_code(pcomp.take(6), 6, blank_cfg(opts.stacksize));
    lemma_nothing_to_optimise(opts.disable_optim, opts.ignore_errors);
    let first = section_code(true, hcomp.skip(6), cfg, source, opts);
    let second = section_code(false, pcomp.skip(6), cfg, source, opts);
    assert(first is Ok);
    lemma_empty_section_has_no_code(hcomp.skip(6), section_table(true, cfg, source), opts);
    assert(first == Ok::<Seq<IRView>, CompileError>(Seq::empty()));
    assert(second is Ok);
    lemma_empty_section_has_no_code(pcomp.skip(6), section_table(false, cfg, source), opts);
    assert(second == Ok::<Seq<IRView>, CompileError>(Seq::empty()));
    let none = Seq::<IRView>::empty();
    assert(built_ir(hcomp, pcomp, source, opts) == Ok::<_, CompileError>((cfg, none, none)));
    let full = filled(cfg, none, none, opts);
    assert(full is Ok);
    let p = full->Ok_0;
    assert(p.hcomp.len() == 0 && p.pcomp.len() == 0);
    assert(p.hcomp =~= Seq::<OpView>::empty());
    assert(p.pcomp =~= Seq::<OpView>::empty());
    assert(resolve(Seq::<OpView>::empty(), Seq::<OpView>::empty()) == Ok::<Seq<OpView>, CompileError>(Seq::empty()));
    assert(assemble(p.hcomp, opts.ignore_errors) == Ok::<Seq<OpView>, CompileError>(Seq::empty()));
    lemma_empty_sections_text(done, opts.pc_as_comment);
}

/// The configuration without arrays, components and code is written as
/// the header of five zeros, a single `halt` and the end.
pub proof fn lemma_empty_configuration(cfg: CfgView, pc_as_comment: bool)
    requires
        cfg.hh == 0,
        cfg.hm == 0,
        cfg.ph == 0,
        cfg.pm == 0,
        cfg.n == 0,
        cfg.hcomp.len() == 0,
        cfg.pcomp.len() == 0,
    ensures
        cfg.text(pc_as_comment) == "comp 0 0 0 0 0 (hh hm ph pm n)\nhcomp\n  halt\nend\n"@,
{
    reveal_strlit("comp 0 0 0 0 0 (hh hm ph pm n)\nhcomp\n  halt\nend\n");
    reveal_strlit("comp ");
    reveal_strlit(" ");
    reveal_strlit(" (hh hm ph pm n)\n");
    reveal_strlit("hcomp\n  halt\n");
    reveal_strlit("end\n");
    lemma_empty_sections_text(cfg, pc_as_comment);
    assert(decimal(0) =~= seq!['0']);
    assert(cfg.header_text() =~= "comp "@ + seq!['0'] + " "@ + seq!['0'] + " "@ + seq!['0'] + " "@ + seq!['0'] + " "@
        + seq!['0'] + " (hh hm ph pm n)\n"@);
    assert(cfg.text(pc_as_comment) =~= "comp 0 0 0 0 0 (hh hm ph pm n)\nhcomp\n  halt\nend\n"@);
}

} // verus!
