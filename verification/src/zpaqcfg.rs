//! A ZPAQ configuration: the sizes of its arrays, its components and
//! the code of its two sections, and how it is finalised and written.

use vstd::prelude::*;
use vstd::string::*;
use crate::error::CompileError;
use crate::options::Options;
use crate::text::{decimal, push_decimal, push_text};
use crate::zpaql::{assemble, op_views, set_positions, total_size, OpView, ZPAQLOp};

verus! {

/// A ZPAQ configuration: the sizes of the arrays as powers of two, the
/// context-mixing components, and the code of the two sections.
pub struct ZPAQCfgFile {
    pub hh: u8,
    pub hm: u8,
    pub ph: u8,
    pub pm: u8,
    /// The number of components.
    pub n: u8,
    /// The components: their index and their definition.
    pub model: Vec<(u8, String)>,
    pub pcomp_invocation: String,
    /// The cells of H that each section has for its stack.
    pub stacksize: u32,
    pub hcomp: Vec<ZPAQLOp>,
    pub pcomp: Vec<ZPAQLOp>,
    pub finalised: bool,
}

/// A configuration as a value.
pub struct CfgView {
    pub hh: u8,
    pub hm: u8,
    pub ph: u8,
    pub pm: u8,
    pub n: u8,
    pub model: Seq<(u8, Seq<char>)>,
    pub pcomp_invocation: Seq<char>,
    pub stacksize: u32,
    pub hcomp: Seq<OpView>,
    pub pcomp: Seq<OpView>,
    pub finalised: bool,
}

impl DeepView for ZPAQCfgFile {
    type V = CfgView;

    open spec fn deep_view(&self) -> CfgView {
        CfgView {
            hh: self.hh,
            hm: self.hm,
            ph: self.ph,
            pm: self.pm,
            n: self.n,
            model: Seq::new(self.model@.len(), |i: int| (self.model@[i].0, self.model@[i].1@)),
            pcomp_invocation: self.pcomp_invocation@,
            stacksize: self.stacksize,
            hcomp: op_views(self.hcomp@),
            pcomp: op_views(self.pcomp@),
            finalised: self.finalised,
        }
    }
}

/// Two to the power `k`.
pub open spec fn two_to(k: nat) -> nat
    decreases k,
{
    if k == 0 {
        1
    } else {
        2 * two_to((k - 1) as nat)
    }
}

/// A higher power of two is larger.
pub proof fn lemma_two_to_grows(a: nat, b: nat)
    requires
        a <= b,
    ensures
        two_to(a) <= two_to(b),
        two_to(a) >= 1,
    decreases b,
{
    if a < b {
        lemma_two_to_grows(a, (b - 1) as nat);
    } else if a > 0 {
        lemma_two_to_grows((a - 1) as nat, (a - 1) as nat);
    }
}

/// Whether `k` is the least exponent for which two to the `k` cells hold an
/// array of two to the `hlog` cells and `stacksize` cells of stack.
pub open spec fn is_total_log(k: nat, hlog: nat, stacksize: nat) -> bool {
    &&& two_to(k) >= two_to(hlog) + stacksize
    &&& k == 0 || two_to((k - 1) as nat) < two_to(hlog) + stacksize
}

/// Whether the array and the stack together take more than 2^32 cells.
pub open spec fn oversize(hlog: nat, stacksize: nat) -> bool {
    two_to(hlog) + stacksize > two_to(32)
}

/// The exponent of the size of H for an array of two to the `hlog` cells
/// with a stack: the least that holds both. More than 2^32 cells are
/// refused; where errors are to be ignored, the size stays at 2^32.
pub open spec fn xh_size(hlog: u8, stacksize: u32, ignore_errors: bool, r: Result<u8, CompileError>) -> bool {
    if oversize(hlog as nat, stacksize as nat) {
        if ignore_errors {
            r == Ok::<u8, CompileError>(32)
        } else {
            r == Err::<u8, CompileError>(CompileError::OversizeArray)
        }
    } else {
        r is Ok && is_total_log(r->Ok_0 as nat, hlog as nat, stacksize as nat)
    }
}

/// There is one least exponent only.
pub proof fn lemma_total_log_unique(a: nat, b: nat, hlog: nat, stacksize: nat)
    requires
        is_total_log(a, hlog, stacksize),
        is_total_log(b, hlog, stacksize),
    ensures
        a == b,
{
    if a < b {
        lemma_two_to_grows(a, (b - 1) as nat);
    } else if b < a {
        lemma_two_to_grows(b, (a - 1) as nat);
    }
}

/// Two to the power 32.
pub proof fn lemma_two_to_32()
    ensures
        two_to(32) == 0x1_0000_0000,
        two_to(31) == 0x8000_0000,
{
    assert(two_to(8) == 256) by {
        reveal_with_fuel(two_to, 9);
    }
    assert(two_to(16) == 65536) by {
        reveal_with_fuel(two_to, 9);
    }
    assert(two_to(24) == 16777216) by {
        reveal_with_fuel(two_to, 9);
    }
    assert(two_to(31) == 0x8000_0000) by {
        reveal_with_fuel(two_to, 8);
    }
}

/// Two to the power `k`, for `k` up to 32.
pub fn power_of_two(k: u8) -> (p: u64)
    requires
        k <= 32,
    ensures
        p == two_to(k as nat),
        p <= 0x1_0000_0000,
{
    let mut p: u64 = 1;
    let mut i: u8 = 0;
    proof {
        lemma_two_to_32();
        lemma_two_to_grows(0, 32);
    }
    while i < k
        invariant
            i <= k <= 32,
            p == two_to(i as nat),
            p <= two_to(32),
            two_to(32) == 0x1_0000_0000,
        decreases k - i,
    {
        proof {
            lemma_two_to_grows((i + 1) as nat, 32);
        }
        p = p * 2;
        i = i + 1;
    }
    proof {
        lemma_two_to_32();
        lemma_two_to_grows(k as nat, 32);
    }
    p
}

/// Computes the exponent of the size of H for an array of two to the `hlog`
/// cells and a stack of `stacksize` cells.
pub fn calc_xh_size(hlog: u8, stacksize: u32, optioncfg: &Options) -> (r: Result<u8, CompileError>)
    ensures
        xh_size(hlog, stacksize, optioncfg.ignore_errors, r),
{
    proof {
        lemma_two_to_32();
    }
    let mut too_large = hlog > 32;
    let mut k: u8 = hlog;
    if hlog > 32 {
        proof {
            lemma_two_to_grows(33, hlog as nat);
            assert(two_to(33) == 2 * two_to(32));
        }
    } else {
        let base = power_of_two(hlog);
        let total: u64 = base + stacksize as u64;
        if total > 0x1_0000_0000 {
            too_large = true;
        } else {
            let mut p: u64 = base;
            proof {
                if hlog > 0 {
                    assert(two_to(hlog as nat) == 2 * two_to((hlog - 1) as nat));
                    lemma_two_to_grows((hlog - 1) as nat, (hlog - 1) as nat);
                }
            }
            while p < total
                invariant
                    hlog <= k <= 32,
                    p == two_to(k as nat),
                    total == two_to(hlog as nat) + stacksize,
                    total <= 0x1_0000_0000,
                    two_to(32) == 0x1_0000_0000,
                    k == 0 || two_to((k - 1) as nat) < total,
                decreases 32 - k,
            {
                proof {
                    if k >= 32 {
                        lemma_two_to_grows(32, k as nat);
                    }
                }
                p = p * 2;
                k = k + 1;
            }
        }
    }
    if too_large {
        if optioncfg.ignore_errors {
            Ok(32)
        } else {
            Err(CompileError::OversizeArray)
        }
    } else {
        Ok(k)
    }
}

impl CfgView {
    /// The stack that the first section needs: none where it has no code or
    /// the model has no component.
    pub open spec fn hcomp_stack(self) -> u32 {
        if self.hcomp.len() == 0 || self.n == 0 {
            0
        } else {
            self.stacksize
        }
    }

    /// The stack that the second section needs: none where it has no code.
    pub open spec fn pcomp_stack(self) -> u32 {
        if self.pcomp.len() == 0 {
            0
        } else {
            self.stacksize
        }
    }

    /// Why the configuration cannot be finalised, if it cannot.
    pub open spec fn finalise_error(self, ignore_errors: bool) -> Option<CompileError> {
        if self.finalised {
            Some(CompileError::AlreadyFinalised)
        } else if !ignore_errors && (oversize(self.hh as nat, self.hcomp_stack() as nat) || oversize(
            self.ph as nat,
            self.pcomp_stack() as nat,
        )) {
            Some(CompileError::OversizeArray)
        } else if assemble(self.hcomp, ignore_errors) is Err {
            Some(assemble(self.hcomp, ignore_errors)->Err_0)
        } else if assemble(self.pcomp, ignore_errors) is Err {
            Some(assemble(self.pcomp, ignore_errors)->Err_0)
        } else {
            None
        }
    }

    /// Whether `done` is this configuration finalised: the arrays in H have
    /// grown to hold the stacks, the code of both sections is assembled, and
    /// everything else is as it was.
    pub open spec fn finalised_as(self, done: CfgView, ignore_errors: bool) -> bool {
        &&& xh_size(self.hh, self.hcomp_stack(), ignore_errors, Ok(done.hh))
        &&& xh_size(self.ph, self.pcomp_stack(), ignore_errors, Ok(done.ph))
        &&& assemble(self.hcomp, ignore_errors) == Ok::<Seq<OpView>, CompileError>(done.hcomp)
        &&& assemble(self.pcomp, ignore_errors) == Ok::<Seq<OpView>, CompileError>(done.pcomp)
        &&& done.finalised
        &&& done.hm == self.hm
        &&& done.pm == self.pm
        &&& done.n == self.n
        &&& done.model == self.model
        &&& done.pcomp_invocation == self.pcomp_invocation
        &&& done.stacksize == self.stacksize
    }

    /// The first line of a configuration and the lines of its components.
    pub open spec fn header_text(self) -> Seq<char> {
        "comp "@ + decimal(self.hh as nat) + " "@ + decimal(self.hm as nat) + " "@ + decimal(
            self.ph as nat,
        ) + " "@ + decimal(self.pm as nat) + " "@ + decimal(self.n as nat) + " (hh hm ph pm n)\n"@ + (if self.n
            > 0 {
            model_lines(self.model, self.model.len() as int)
        } else {
            Seq::empty()
        })
    }

    /// The first section: its code, or a single `halt` where it has no code
    /// or the model has no component.
    pub open spec fn hcomp_text(self, pc_as_comment: bool) -> Seq<char> {
        "hcomp\n"@ + (if self.hcomp.len() == 0 || self.n == 0 {
            "  halt\n"@
        } else {
            code_lines(self.hcomp, self.hcomp.len() as int, pc_as_comment)
        })
    }

    /// The second section, which is left out where it has no code.
    pub open spec fn pcomp_text(self, pc_as_comment: bool) -> Seq<char> {
        if self.pcomp.len() == 0 {
            Seq::empty()
        } else {
            "pcomp "@ + self.pcomp_invocation + " ;\n"@ + code_lines(
                self.pcomp,
                self.pcomp.len() as int,
                pc_as_comment,
            )
        }
    }

    /// The whole configuration as text.
    pub open spec fn text(self, pc_as_comment: bool) -> Seq<char> {
        self.header_text() + self.hcomp_text(pc_as_comment) + self.pcomp_text(pc_as_comment) + "end\n"@
    }
}

/// The lines of the first `n` components: two spaces, the index, a space
/// and the definition.
pub open spec fn model_lines(model: Seq<(u8, Seq<char>)>, n: int) -> Seq<char>
    decreases n,
{
    if n <= 0 || n > model.len() {
        Seq::empty()
    } else {
        model_lines(model, n - 1) + "  "@ + decimal(model[n - 1].0 as nat) + " "@ + model[n - 1].1 + "\n"@
    }
}

/// The lines of the first `n` instructions: two spaces and the instruction,
/// and behind it, where that is asked for, the byte at which it stands.
pub open spec fn code_lines(code: Seq<OpView>, n: int, pc_as_comment: bool) -> Seq<char>
    decreases n,
{
    if n <= 0 || n > code.len() {
        Seq::empty()
    } else if pc_as_comment {
        code_lines(code, n - 1, pc_as_comment) + "  "@ + code[n - 1].text() + "        ("@ + decimal(
            total_size(code.take(n - 1)) % 65536,
        ) + ")\n"@
    } else {
        code_lines(code, n - 1, pc_as_comment) + "  "@ + code[n - 1].text() + "\n"@
    }
}

fn push_code_lines(s: &mut String, code: &Vec<ZPAQLOp>, pc_as_comment: bool)
    ensures
        final(s)@ == old(s)@ + code_lines(op_views(code@), code@.len() as int, pc_as_comment),
{
    let ghost all = op_views(code@);
    let ghost start = s@;
    let mut pc: u16 = 0;
    let mut i: usize = 0;
    assert(all.take(0) =~= Seq::<OpView>::empty());
    assert(s@ =~= start + code_lines(all, 0, pc_as_comment));
    while i < code.len()
        invariant
            i <= code.len(),
            all == op_views(code@),
            pc == total_size(all.take(i as int)) % 65536,
            s@ == start + code_lines(all, i as int, pc_as_comment),
        decreases code.len() - i,
    {
        let ghost before = s@;
        let ghost lines = code_lines(all, i as int, pc_as_comment);
        push_text(s, "  ");
        let t = code[i].to_string();
        push_text(s, t.as_str());
        if pc_as_comment {
            push_text(s, "        (");
            push_decimal(s, pc as u64);
            push_text(s, ")\n");
            assert(s@ =~= start + (lines + "  "@ + all[i as int].text() + "        ("@ + decimal(pc as nat)
                + ")\n"@));
        } else {
            push_text(s, "\n");
            assert(s@ =~= start + (lines + "  "@ + all[i as int].text() + "\n"@));
        }
        assert(all.take(i + 1).drop_last() =~= all.take(i as int));
        pc = ((pc as u32 + code[i].size() as u32) % 65536) as u16;
        i += 1;
    }
}

impl ZPAQCfgFile {
    /// Finalises the configuration: makes room for the stacks in H and
    /// assembles the code of both sections. This can be done once. Where it
    /// fails the configuration is left as it was.
    pub fn finalise(&mut self, optioncfg: &Options) -> (r: Result<(), CompileError>)
        ensures
            match r {
                Ok(_) => {
                    &&& old(self).deep_view().finalise_error(optioncfg.ignore_errors) is None
                    &&& old(self).deep_view().finalised_as(final(self).deep_view(), optioncfg.ignore_errors)
                },
                Err(e) => {
                    &&& old(self).deep_view().finalise_error(optioncfg.ignore_errors) == Some(e)
                    &&& final(self).deep_view() == old(self).deep_view()
                },
            },
    {
        if self.finalised {
            return Err(CompileError::AlreadyFinalised);
        }
        let hstack: u32 = if self.hcomp.len() == 0 || self.n == 0 {
            0
        } else {
            self.stacksize
        };
        let pstack: u32 = if self.pcomp.len() == 0 {
            0
        } else {
            self.stacksize
        };
        let total_hh = match calc_xh_size(self.hh, hstack, optioncfg) {
            Ok(k) => k,
            Err(e) => {
                return Err(e);
            },
        };
        let total_ph = match calc_xh_size(self.ph, pstack, optioncfg) {
            Ok(k) => k,
            Err(e) => {
                return Err(e);
            },
        };
        let hcomp = match set_positions(self.hcomp.as_slice(), optioncfg) {
            Ok(c) => c,
            Err(e) => {
                return Err(e);
            },
        };
        let pcomp = match set_positions(self.pcomp.as_slice(), optioncfg) {
            Ok(c) => c,
            Err(e) => {
                return Err(e);
            },
        };
        self.hh = total_hh;
        self.ph = total_ph;
        self.hcomp = hcomp;
        self.pcomp = pcomp;
        self.finalised = true;
        assert(final(self).deep_view().model =~= old(self).deep_view().model);
        Ok(())
    }

    /// The first line of the configuration and the lines of its components.
    pub fn header_text(&self) -> (s: String)
        requires
            self.finalised,
        ensures
            s@ == self.deep_view().header_text(),
    {
        let mut s = String::from_str("comp ");
        push_decimal(&mut s, self.hh as u64);
        push_text(&mut s, " ");
        push_decimal(&mut s, self.hm as u64);
        push_text(&mut s, " ");
        push_decimal(&mut s, self.ph as u64);
        push_text(&mut s, " ");
        push_decimal(&mut s, self.pm as u64);
        push_text(&mut s, " ");
        push_decimal(&mut s, self.n as u64);
        push_text(&mut s, " (hh hm ph pm n)\n");
        let ghost head = s@;
        let ghost model = self.deep_view().model;
        if self.n > 0 {
            let mut i: usize = 0;
            assert(s@ =~= head + model_lines(model, 0));
            while i < self.model.len()
                invariant
                    i <= self.model.len(),
                    model == self.deep_view().model,
                    s@ == head + model_lines(model, i as int),
                decreases self.model.len() - i,
            {
                let ghost lines = model_lines(model, i as int);
                push_text(&mut s, "  ");
                push_decimal(&mut s, self.model[i].0 as u64);
                push_text(&mut s, " ");
                push_text(&mut s, self.model[i].1.as_str());
                push_text(&mut s, "\n");
                assert(s@ =~= head + (lines + "  "@ + decimal(model[i as int].0 as nat) + " "@
                    + model[i as int].1 + "\n"@));
                i += 1;
            }
        } else {
            assert(s@ =~= head + Seq::<char>::empty());
        }
        s
    }

    /// The first section of the configuration.
    pub fn hcomp_text(&self, optioncfg: &Options) -> (s: String)
        requires
            self.finalised,
        ensures
            s@ == self.deep_view().hcomp_text(optioncfg.pc_as_comment),
    {
        let mut s = String::from_str("hcomp\n");
        if self.hcomp.len() == 0 || self.n == 0 {
            push_text(&mut s, "  halt\n");
        } else {
            push_code_lines(&mut s, &self.hcomp, optioncfg.pc_as_comment);
        }
        s
    }

    /// The second section of the configuration: nothing where it has no
    /// code.
    pub fn pcomp_text(&self, optioncfg: &Options) -> (s: String)
        requires
            self.finalised,
        ensures
            s@ == self.deep_view().pcomp_text(optioncfg.pc_as_comment),
    {
        let mut s = String::new();
        if self.pcomp.len() != 0 {
            push_text(&mut s, "pcomp ");
            push_text(&mut s, self.pcomp_invocation.as_str());
            push_text(&mut s, " ;\n");
            assert(s@ =~= "pcomp "@ + self.pcomp_invocation@ + " ;\n"@);
            push_code_lines(&mut s, &self.pcomp, optioncfg.pc_as_comment);
        }
        s
    }

    /// The last line of the configuration.
    pub fn end_text(&self) -> (s: String)
        requires
            self.finalised,
        ensures
            s@ == "end\n"@,
    {
        String::from_str("end\n")
    }

    /// The whole configuration as text.
    pub fn to_string(&self, optioncfg: &Options) -> (s: String)
        requires
            self.finalised,
        ensures
            s@ == self.deep_view().text(optioncfg.pc_as_comment),
    {
        let mut s = self.header_text();
        let h = self.hcomp_text(optioncfg);
        push_text(&mut s, h.as_str());
        let p = self.pcomp_text(optioncfg);
        push_text(&mut s, p.as_str());
        push_text(&mut s, "end\n");
        s
    }
}

/// A configuration without code in either section is written with a single
/// `halt` in the first section and without the second.
pub proof fn lemma_empty_sections_text(cfg: CfgView, pc_as_comment: bool)
    requires
        cfg.hcomp.len() == 0,
        cfg.pcomp.len() == 0,
    ensures
        cfg.text(pc_as_comment) == cfg.header_text() + "hcomp\n  halt\n"@ + "end\n"@,
{
    reveal_strlit("hcomp\n  halt\n");
    reveal_strlit("hcomp\n");
    reveal_strlit("  halt\n");
    assert("hcomp\n"@ + "  halt\n"@ =~= "hcomp\n  halt\n"@);
    assert(cfg.text(pc_as_comment) =~= cfg.header_text() + "hcomp\n  halt\n"@ + "end\n"@);
}

/// Finalising code without labels and jumps to labels, where nothing is
/// too large, grows H to the least power of two that holds the array and
/// the stack.
pub proof fn lemma_finalised_holds_stack(cfg: CfgView, done: CfgView, ignore_errors: bool)
    requires
        cfg.finalised_as(done, ignore_errors),
        !oversize(cfg.hh as nat, cfg.hcomp_stack() as nat),
    ensures
        two_to(done.hh as nat) >= two_to(cfg.hh as nat) + cfg.hcomp_stack(),
        done.hh == 0 || two_to((done.hh - 1) as nat) < two_to(cfg.hh as nat) + cfg.hcomp_stack(),
{
}

} // verus!
