//! The whole way from a source text to the text of a configuration.

use vstd::prelude::*;
use vstd::string::*;
use crate::ast::{stmt_views, Stmt, StmtView};
use crate::cache::Cache;
use crate::error::CompileError;
use crate::gen_zpaql::{emit_zpaql, zpaql_code};
use crate::ir::{ir_views, IRView, IR};
use crate::options::Options;
use crate::parser::{parse_program, parsed};
use crate::post_zpaql::{array_assignment_replaced, replace_array_assignment};
use crate::rtok::{tokenize, tokenized};
use crate::sections::{all_expandable, build_ir, built_ir, listing_lines, xcomp_ir_string};
use crate::text::{join, push_text};
use crate::tok::{seperate_sections, separated, tok_views, Tok, TokView};
use crate::zpaqcfg::{lemma_total_log_unique, oversize, CfgView, ZPAQCfgFile};
use crate::zpaql::{op_views, OpView, ZPAQLOp};

verus! {

/// The statements of the two sections that a list of tokens spells.
pub open spec fn sections_parsed(tokens: Seq<TokView>) -> Result<(Seq<StmtView>, Seq<StmtView>), CompileError> {
    match separated(tokens) {
        Err(e) => Err(e),
        Ok((hcomp, pcomp)) => match parsed(hcomp) {
            Err(e) => Err(e),
            Ok(h) => match parsed(pcomp) {
                Err(e) => Err(e),
                Ok(p) => Ok((h, p)),
            },
        },
    }
}

/// The statements of the two sections of a source text.
pub open spec fn source_parsed(source: Seq<char>) -> Result<(Seq<StmtView>, Seq<StmtView>), CompileError> {
    match tokenized(source) {
        Err(e) => Err(e),
        Ok(tokens) => sections_parsed(tokens),
    }
}

/// Splits the tokens of a program into its two sections, each behind the
/// common part, and parses both.
pub fn parse_tokens(tokens: Vec<Tok>) -> (r: Result<(Vec<Stmt>, Vec<Stmt>), CompileError>)
    ensures
        match r {
            Ok((h, p)) => sections_parsed(tok_views(tokens@)) == Ok::<_, CompileError>(
                (stmt_views(h@), stmt_views(p@)),
            ),
            Err(e) => sections_parsed(tok_views(tokens@)) == Err::<(Seq<StmtView>, Seq<StmtView>), _>(e),
        },
{
    let (hcomp, pcomp) = seperate_sections(tokens)?;
    let h = parse_program(&hcomp)?;
    let p = parse_program(&pcomp)?;
    Ok((h, p))
}

/// Splits a source text into tokens and parses its two sections.
pub fn parse(optioncfg: &Options, input: &str) -> (r: Result<(Vec<Stmt>, Vec<Stmt>), CompileError>)
    ensures
        match r {
            Ok((h, p)) => source_parsed(input@) == Ok::<_, CompileError>((stmt_views(h@), stmt_views(p@))),
            Err(e) => source_parsed(input@) == Err::<(Seq<StmtView>, Seq<StmtView>), _>(e),
        },
{
    let tokens = tokenize(input)?;
    parse_tokens(tokens)
}

/// The instruction that every section begins with: it points R at its
/// last cell.
pub open spec fn section_start() -> Seq<OpView> {
    op_views(seq![ZPAQLOp::RsetA { n: 255 }])
}

/// The ZPAQL code of a section: the first instruction, and then the code
/// for the intermediate code, with runs of stores to an array drawn
/// together.
pub open spec fn section_zpaql(ir: Seq<IRView>, opts: Options) -> Result<Seq<OpView>, CompileError> {
    match zpaql_code(ir, Map::empty(), opts.comments) {
        Err(e) => Err(e),
        Ok(listing) => Ok(section_start() + array_assignment_replaced(listing.code, opts.no_post_zpaql)),
    }
}

/// Compiles the intermediate code of one section to ZPAQL.
pub fn emit_section(ir: &[IR], optioncfg: &Options) -> (r: Result<Vec<ZPAQLOp>, CompileError>)
    ensures
        match r {
            Ok(code) => section_zpaql(ir_views(ir@), *optioncfg) == Ok::<_, CompileError>(op_views(code@)),
            Err(e) => section_zpaql(ir_views(ir@), *optioncfg) == Err::<Seq<OpView>, _>(e),
        },
{
    let mut cache = Cache::new();
    let code = emit_zpaql(ir, &mut cache, optioncfg)?;
    let mut rest = replace_array_assignment(code, optioncfg);
    let ghost tail = rest@;
    let mut section: Vec<ZPAQLOp> = Vec::new();
    section.push(ZPAQLOp::RsetA { n: 255 });
    section.append(&mut rest);
    assert(op_views(section@) =~= section_start() + op_views(tail));
    Ok(section)
}

/// A section that only marks that there is code.
pub open spec fn marked() -> Seq<OpView> {
    op_views(seq![ZPAQLOp::Halt])
}

/// The configuration with the code of its sections, before it is
/// finalised. Without components there is no first section; a suppressed
/// section stays empty; where only the intermediate code is wanted, a
/// section with code holds a single `halt`.
pub open spec fn filled(cfg: CfgView, hir: Seq<IRView>, pir: Seq<IRView>, opts: Options) -> Result<
    CfgView,
    CompileError,
> {
    let n = if opts.disable_comp {
        0u8
    } else {
        cfg.n
    };
    let first = if hir.len() == 0 || opts.suppress_hcomp || n == 0 {
        Ok(cfg.hcomp)
    } else if opts.emit_ir {
        Ok(marked())
    } else {
        section_zpaql(hir, opts)
    };
    let second = if pir.len() == 0 || opts.suppress_pcomp {
        Ok(cfg.pcomp)
    } else if opts.emit_ir {
        Ok(marked())
    } else {
        section_zpaql(pir, opts)
    };
    match first {
        Err(e) => Err(e),
        Ok(hcomp) => match second {
            Err(e) => Err(e),
            Ok(pcomp) => Ok(CfgView { n, hcomp, pcomp, ..cfg }),
        },
    }
}

fn mark() -> (code: Vec<ZPAQLOp>)
    ensures
        op_views(code@) == marked(),
{
    let mut code: Vec<ZPAQLOp> = Vec::new();
    code.push(ZPAQLOp::Halt);
    assert(op_views(code@) =~= marked());
    code
}

/// Fills the sections of a configuration with the code for their
/// intermediate code.
pub fn fill(cfg: ZPAQCfgFile, hir: &[IR], pir: &[IR], optioncfg: &Options) -> (r: Result<ZPAQCfgFile, CompileError>)
    ensures
        match r {
            Ok(done) => filled(cfg.deep_view(), ir_views(hir@), ir_views(pir@), *optioncfg) == Ok::<_, CompileError>(
                done.deep_view(),
            ),
            Err(e) => filled(cfg.deep_view(), ir_views(hir@), ir_views(pir@), *optioncfg) == Err::<CfgView, _>(e),
        },
{
    let mut cfg = cfg;
    if optioncfg.disable_comp {
        cfg.n = 0;
    }
    if hir.len() != 0 && !optioncfg.suppress_hcomp && cfg.n > 0 {
        if optioncfg.emit_ir {
            cfg.hcomp = mark();
        } else {
            match emit_section(hir, optioncfg) {
                Err(e) => {
                    return Err(e);
                },
                Ok(code) => {
                    cfg.hcomp = code;
                },
            }
        }
    }
    if pir.len() != 0 && !optioncfg.suppress_pcomp {
        if optioncfg.emit_ir {
            cfg.pcomp = mark();
        } else {
            match emit_section(pir, optioncfg) {
                Err(e) => {
                    return Err(e);
                },
                Ok(code) => {
                    cfg.pcomp = code;
                },
            }
        }
    }
    Ok(cfg)
}

/// What is known of a program before its configuration is finalised.
pub struct Prepared {
    pub cfg: CfgView,
    pub hir: Seq<IRView>,
    pub pir: Seq<IRView>,
}

/// The configuration and the intermediate code of a program that was
/// parsed: the header is read, both sections are compiled to optimised
/// intermediate code, and the configuration is filled with their code.
#[verifier::opaque]
pub open spec fn prepared(opts: Options, hcomp: Seq<StmtView>, pcomp: Seq<StmtView>, source: Seq<char>) -> Result<
    Prepared,
    CompileError,
> {
    match built_ir(hcomp, pcomp, source, opts) {
        Err(e) => Err(e),
        Ok((cfg, hir, pir)) => match filled(cfg, hir, pir, opts) {
            Err(e) => Err(e),
            Ok(full) => Ok(Prepared { cfg: full, hir, pir }),
        },
    }
}

/// Whether the intermediate code of the sections that have code can be
/// listed with its instructions expanded.
pub open spec fn listable(first: bool, second: bool, hir: Seq<IRView>, pir: Seq<IRView>) -> bool {
    &&& first ==> all_expandable(hir, hir.len() as int)
    &&& second ==> all_expandable(pir, pir.len() as int)
}

/// The listing of the intermediate code under the header of the finalised
/// configuration: each section that has code with its expanded
/// instructions, one to a line.
pub open spec fn ir_listing(header: Seq<char>, first: bool, second: bool, hir: Seq<IRView>, pir: Seq<IRView>) -> Seq<
    char,
> {
    header + "hcomp\n"@ + (if first {
        join(listing_lines(true, hir), "\n"@) + "\n"@
    } else {
        Seq::empty()
    }) + (if second {
        "pcomp\n"@ + join(listing_lines(true, pir), "\n"@) + "\n"@
    } else {
        Seq::empty()
    }) + "end\n"@
}

/// Why a program that was parsed does not compile, if it does not.
pub open spec fn failure_from(opts: Options, hcomp: Seq<StmtView>, pcomp: Seq<StmtView>, source: Seq<char>) -> Option<
    CompileError,
> {
    match prepared(opts, hcomp, pcomp, source) {
        Err(e) => Some(e),
        Ok(p) => match p.cfg.finalise_error(opts.ignore_errors) {
            Some(e) => Some(e),
            None => if opts.emit_ir && !listable(p.cfg.hcomp.len() != 0, p.cfg.pcomp.len() != 0, p.hir, p.pir) {
                Some(CompileError::LimitExceeded)
            } else {
                None
            },
        },
    }
}

/// Whether a program that was parsed compiles to the finalised
/// configuration `done` and to the text `out`: the text of the
/// configuration, or the listing of the intermediate code where that is
/// wanted.
pub open spec fn compiles_to(
    opts: Options,
    hcomp: Seq<StmtView>,
    pcomp: Seq<StmtView>,
    source: Seq<char>,
    done: CfgView,
    out: Seq<char>,
) -> bool {
    match prepared(opts, hcomp, pcomp, source) {
        Err(_) => false,
        Ok(p) => {
            &&& p.cfg.finalised_as(done, opts.ignore_errors)
            &&& out == if opts.emit_ir {
                ir_listing(done.header_text(), p.cfg.hcomp.len() != 0, p.cfg.pcomp.len() != 0, p.hir, p.pir)
            } else {
                done.text(opts.pc_as_comment)
            }
        },
    }
}

/// Whether a program that was parsed compiles to the text `out`; the
/// configuration is handed out where it was compiled, and not where the
/// intermediate code was listed.
pub open spec fn compiled_from(
    opts: Options,
    hcomp: Seq<StmtView>,
    pcomp: Seq<StmtView>,
    source: Seq<char>,
    out: Seq<char>,
    cfg: Option<CfgView>,
) -> bool {
    match cfg {
        Some(done) => !opts.emit_ir && compiles_to(opts, hcomp, pcomp, source, done, out),
        None => opts.emit_ir && exists|done: CfgView| compiles_to(opts, hcomp, pcomp, source, done, out),
    }
}

/// Why a source text does not compile, if it does not.
pub open spec fn failure_of(opts: Options, source: Seq<char>) -> Option<CompileError> {
    match source_parsed(source) {
        Err(e) => Some(e),
        Ok((hcomp, pcomp)) => failure_from(opts, hcomp, pcomp, source),
    }
}

/// Whether a source text compiles to the text `out`, with or without the
/// configuration.
pub open spec fn compiled(opts: Options, source: Seq<char>, out: Seq<char>, cfg: Option<CfgView>) -> bool {
    match source_parsed(source) {
        Err(_) => false,
        Ok((hcomp, pcomp)) => compiled_from(opts, hcomp, pcomp, source, out, cfg),
    }
}

/// The configuration as a value, where there is one.
pub open spec fn cfg_view(cfg: Option<ZPAQCfgFile>) -> Option<CfgView> {
    match cfg {
        Some(c) => Some(c.deep_view()),
        None => None,
    }
}

fn list_ir(cfg: &ZPAQCfgFile, first: bool, second: bool, hir: &[IR], pir: &[IR]) -> (r: Result<String, CompileError>)
    requires
        cfg.finalised,
    ensures
        match r {
            Ok(s) => listable(first, second, ir_views(hir@), ir_views(pir@)) && s@ == ir_listing(
                cfg.deep_view().header_text(),
                first,
                second,
                ir_views(hir@),
                ir_views(pir@),
            ),
            Err(e) => !listable(first, second, ir_views(hir@), ir_views(pir@)) && e == CompileError::LimitExceeded,
        },
{
    let mut s = cfg.header_text();
    push_text(&mut s, "hcomp\n");
    if first {
        let listing = xcomp_ir_string(true, hir)?;
        push_text(&mut s, listing.as_str());
        push_text(&mut s, "\n");
    }
    if second {
        let listing = xcomp_ir_string(true, pir)?;
        push_text(&mut s, "pcomp\n");
        push_text(&mut s, listing.as_str());
        push_text(&mut s, "\n");
    }
    push_text(&mut s, "end\n");
    assert(s@ =~= ir_listing(cfg.deep_view().header_text(), first, second, ir_views(hir@), ir_views(pir@)));
    Ok(s)
}

/// Compiles the sections of a program that was parsed to intermediate
/// code and fills the configuration with the code of its sections.
pub fn prepare(optioncfg: &Options, parsed_hcomp: Vec<Stmt>, parsed_pcomp: Vec<Stmt>, input: String) -> (r: Result<
    (ZPAQCfgFile, Vec<IR>, Vec<IR>),
    CompileError,
>)
    ensures
        match r {
            Ok((cfg, hir, pir)) => prepared(*optioncfg, stmt_views(parsed_hcomp@), stmt_views(parsed_pcomp@), input@)
                == Ok::<_, CompileError>(
                Prepared { cfg: cfg.deep_view(), hir: ir_views(hir@), pir: ir_views(pir@) },
            ),
            Err(e) => prepared(*optioncfg, stmt_views(parsed_hcomp@), stmt_views(parsed_pcomp@), input@) == Err::<
                Prepared,
                _,
            >(e),
        },
{
    reveal(prepared);
    let (blank, hir, pir) = build_ir(optioncfg, parsed_hcomp, parsed_pcomp, input)?;
    let cfg = fill(blank, hir.as_slice(), pir.as_slice(), optioncfg)?;
    Ok((cfg, hir, pir))
}

/// Compiles a program that was parsed: to the text of its ZPAQ
/// configuration, with the configuration itself, or to the listing of its
/// intermediate code where the options ask for that. `input` is the
/// source text, whose lines go into the comments.
pub fn compile_parsed(optioncfg: &Options, parsed_hcomp: Vec<Stmt>, parsed_pcomp: Vec<Stmt>, input: String) -> (r:
    Result<(String, Option<ZPAQCfgFile>), CompileError>)
    ensures
        match r {
            Ok((out, cfg)) => failure_from(*optioncfg, stmt_views(parsed_hcomp@), stmt_views(parsed_pcomp@), input@)
                is None && compiled_from(
                *optioncfg,
                stmt_views(parsed_hcomp@),
                stmt_views(parsed_pcomp@),
                input@,
                out@,
                cfg_view(cfg),
            ),
            Err(e) => failure_from(*optioncfg, stmt_views(parsed_hcomp@), stmt_views(parsed_pcomp@), input@)
                == Some(e),
        },
{
    let ghost h = stmt_views(parsed_hcomp@);
    let ghost p = stmt_views(parsed_pcomp@);
    let (cfg, hir, pir) = prepare(optioncfg, parsed_hcomp, parsed_pcomp, input)?;
    let mut cfg = cfg;
    let first = cfg.hcomp.len() != 0;
    let second = cfg.pcomp.len() != 0;
    assert(cfg.deep_view().hcomp.len() == cfg.hcomp@.len());
    assert(cfg.deep_view().pcomp.len() == cfg.pcomp@.len());
    cfg.finalise(optioncfg)?;
    if optioncfg.emit_ir {
        let out = list_ir(&cfg, first, second, hir.as_slice(), pir.as_slice())?;
        assert(compiles_to(*optioncfg, h, p, input@, cfg.deep_view(), out@));
        assert(compiled_from(*optioncfg, h, p, input@, out@, None));
        Ok((out, None))
    } else {
        let out = cfg.to_string(optioncfg);
        Ok((out, Some(cfg)))
    }
}

/// Compiles a source text: to the text of its ZPAQ configuration, with
/// the configuration itself, or to the listing of its intermediate code
/// where the options ask for that.
pub fn compile(optioncfg: &Options, input: String) -> (r: Result<(String, Option<ZPAQCfgFile>), CompileError>)
    ensures
        match r {
            Ok((out, cfg)) => failure_of(*optioncfg, input@) is None && compiled(
                *optioncfg,
                input@,
                out@,
                cfg_view(cfg),
            ),
            Err(e) => failure_of(*optioncfg, input@) == Some(e),
        },
{
    let (parsed_hcomp, parsed_pcomp) = parse(optioncfg, input.as_str())?;
    compile_parsed(optioncfg, parsed_hcomp, parsed_pcomp, input)
}

/// A configuration is finalised in one way only.
pub proof fn lemma_finalised_once(cfg: CfgView, a: CfgView, b: CfgView, ignore_errors: bool)
    requires
        cfg.finalised_as(a, ignore_errors),
        cfg.finalised_as(b, ignore_errors),
    ensures
        a == b,
{
    if !oversize(cfg.hh as nat, cfg.hcomp_stack() as nat) {
        lemma_total_log_unique(a.hh as nat, b.hh as nat, cfg.hh as nat, cfg.hcomp_stack() as nat);
    }
    if !oversize(cfg.ph as nat, cfg.pcomp_stack() as nat) {
        lemma_total_log_unique(a.ph as nat, b.ph as nat, cfg.ph as nat, cfg.pcomp_stack() as nat);
    }
}

/// A program compiles to one configuration and one text only.
pub proof fn lemma_compiled_once(
    opts: Options,
    hcomp: Seq<StmtView>,
    pcomp: Seq<StmtView>,
    source: Seq<char>,
    a: CfgView,
    out_a: Seq<char>,
    b: CfgView,
    out_b: Seq<char>,
)
    requires
        compiles_to(opts, hcomp, pcomp, source, a, out_a),
        compiles_to(opts, hcomp, pcomp, source, b, out_b),
    ensures
        a == b,
        out_a == out_b,
{
    let p = prepared(opts, hcomp, pcomp, source)->Ok_0;
    lemma_finalised_once(p.cfg, a, b, opts.ignore_errors);
}

} // verus!
