//! What the registers are known to hold while ZPAQL code is emitted.

use vstd::prelude::*;
use crate::ir::{IRVar, IRVarView};
use crate::zpaql::{Loc, OtherReg, Reg};

verus! {

/// What each place is known to hold.
pub type CacheView = Map<Loc, IRVarView>;

/// The register A.
pub open spec fn reg_a() -> Loc {
    Loc::Reg(Reg::A)
}

/// The register B.
pub open spec fn reg_b() -> Loc {
    Loc::Reg(Reg::OtherReg(OtherReg::B))
}

/// The register C.
pub open spec fn reg_c() -> Loc {
    Loc::Reg(Reg::OtherReg(OtherReg::C))
}

/// The register D.
pub open spec fn reg_d() -> Loc {
    Loc::Reg(Reg::OtherReg(OtherReg::D))
}

/// A map from the seven places to operands.
pub struct LocMap {
    a: Option<IRVar>,
    b: Option<IRVar>,
    c: Option<IRVar>,
    d: Option<IRVar>,
    mb: Option<IRVar>,
    mc: Option<IRVar>,
    hd: Option<IRVar>,
}

impl LocMap {
    closed spec fn held(&self, loc: Loc) -> Option<IRVar> {
        match loc {
            Loc::Reg(Reg::A) => self.a,
            Loc::Reg(Reg::OtherReg(OtherReg::B)) => self.b,
            Loc::Reg(Reg::OtherReg(OtherReg::C)) => self.c,
            Loc::Reg(Reg::OtherReg(OtherReg::D)) => self.d,
            Loc::MB => self.mb,
            Loc::MC => self.mc,
            Loc::HD => self.hd,
        }
    }

    /// The map without entries.
    pub fn new() -> (m: LocMap)
        ensures
            m@ == Map::<Loc, IRVarView>::empty(),
    {
        let m = LocMap { a: None, b: None, c: None, d: None, mb: None, mc: None, hd: None };
        assert(m@ =~= Map::<Loc, IRVarView>::empty());
        m
    }

    /// What the place holds.
    pub fn get(&self, loc: &Loc) -> (r: Option<&IRVar>)
        ensures
            r is Some == self@.contains_key(*loc),
            r matches Some(v) ==> v.deep_view() == self@[*loc],
    {
        let slot = match loc {
            Loc::Reg(Reg::A) => &self.a,
            Loc::Reg(Reg::OtherReg(OtherReg::B)) => &self.b,
            Loc::Reg(Reg::OtherReg(OtherReg::C)) => &self.c,
            Loc::Reg(Reg::OtherReg(OtherReg::D)) => &self.d,
            Loc::MB => &self.mb,
            Loc::MC => &self.mc,
            Loc::HD => &self.hd,
        };
        match slot {
            Some(v) => Some(v),
            None => None,
        }
    }

    fn put(&mut self, loc: &Loc, value: Option<IRVar>)
        ensures
            final(self)@ == match value {
                Some(v) => old(self)@.insert(*loc, v.deep_view()),
                None => old(self)@.remove(*loc),
            },
    {
        match loc {
            Loc::Reg(Reg::A) => {
                self.a = value;
            },
            Loc::Reg(Reg::OtherReg(OtherReg::B)) => {
                self.b = value;
            },
            Loc::Reg(Reg::OtherReg(OtherReg::C)) => {
                self.c = value;
            },
            Loc::Reg(Reg::OtherReg(OtherReg::D)) => {
                self.d = value;
            },
            Loc::MB => {
                self.mb = value;
            },
            Loc::MC => {
                self.mc = value;
            },
            Loc::HD => {
                self.hd = value;
            },
        }
        assert(final(self)@ =~= match value {
            Some(v) => old(self)@.insert(*loc, v.deep_view()),
            None => old(self)@.remove(*loc),
        });
    }

    /// Notes that the place holds the operand.
    pub fn insert(&mut self, loc: Loc, value: IRVar)
        ensures
            final(self)@ == old(self)@.insert(loc, value.deep_view()),
    {
        self.put(&loc, Some(value));
    }

    /// Forgets what the place holds.
    pub fn remove(&mut self, loc: &Loc)
        ensures
            final(self)@ == old(self)@.remove(*loc),
    {
        self.put(loc, None);
    }

    /// Forgets everything.
    pub fn clear(&mut self)
        ensures
            final(self)@ == Map::<Loc, IRVarView>::empty(),
    {
        self.a = None;
        self.b = None;
        self.c = None;
        self.d = None;
        self.mb = None;
        self.mc = None;
        self.hd = None;
        assert(self@ =~= Map::<Loc, IRVarView>::empty());
    }
}

impl View for LocMap {
    type V = Map<Loc, IRVarView>;

    closed spec fn view(&self) -> Map<Loc, IRVarView> {
        Map::new(|l: Loc| self.held(l) is Some, |l: Loc| self.held(l)->0.deep_view())
    }
}

/// Whether an operand that is held stands for the operand `v`: a cell of H
/// does so whatever the name of the variable in it, every other operand
/// only if it is the same.
pub open spec fn stands_for(held: IRVarView, v: IRVarView) -> bool {
    match held {
        IRVarView::Ht { stack_offset: so, local: lo, .. } => match v {
            IRVarView::Ht { stack_offset, local, .. } => stack_offset == so && local == lo,
            _ => false,
        },
        IRVarView::H { index_varid: iv, .. } => match v {
            IRVarView::H { index_varid, .. } => index_varid == iv,
            _ => false,
        },
        h => v == h,
    }
}

/// Whether the place is known to hold the operand.
pub open spec fn is_held(ch: CacheView, loc: Loc, v: IRVarView) -> bool {
    ch.contains_key(loc) && stands_for(ch[loc], v)
}

/// The cache after a write to a place: what the place held is forgotten,
/// and for a register that points into memory also what it pointed to.
pub open spec fn without_reg(ch: CacheView, loc: Loc) -> CacheView {
    match loc {
        Loc::Reg(Reg::OtherReg(OtherReg::D)) => ch.remove(reg_d()).remove(Loc::HD),
        Loc::Reg(Reg::OtherReg(OtherReg::C)) => ch.remove(reg_c()).remove(Loc::MC),
        Loc::Reg(Reg::OtherReg(OtherReg::B)) => ch.remove(reg_b()).remove(Loc::MB),
        x => ch.remove(x),
    }
}

/// Whether an operand depends on the slot `varid` of R to find its cell.
pub open spec fn refers_to(held: IRVarView, varid: u8) -> bool {
    match held {
        IRVarView::H { index_varid, .. } => index_varid == varid,
        IRVarView::M { index_varid } => index_varid == varid,
        IRVarView::Ht { local, .. } => (local && varid == 0) || (!local && varid == 252),
        _ => false,
    }
}

/// The cache without the entries that depend on the slot `varid`.
pub open spec fn without_references(ch: CacheView, varid: u8) -> CacheView {
    ch.remove_keys(Set::new(|l: Loc| ch.contains_key(l) && refers_to(ch[l], varid)))
}

/// The cache without the entries for the operand `v`, but for the entry of
/// the place `keep`.
pub open spec fn without_var(ch: CacheView, v: IRVarView, keep: Option<Loc>) -> CacheView {
    ch.remove_keys(Set::new(|l: Loc| ch.contains_key(l) && ch[l] == v.tovar() && keep != Some(l)))
}

/// The cache without the entries of the places in `locs` that hold exactly
/// `t`, but for the entry of the place `keep`.
pub open spec fn pruned(ch: CacheView, t: IRVarView, keep: Option<Loc>, locs: Set<Loc>) -> CacheView {
    ch.remove_keys(Set::new(|l: Loc| locs.contains(l) && ch.contains_key(l) && ch[l] == t && keep != Some(l)))
}

/// What each register and each cell that a register points to is known to
/// hold: a copy of a variable or a constant.
pub struct Cache {
    pub last_hold: LocMap,
}

impl View for Cache {
    type V = Map<Loc, IRVarView>;

    open spec fn view(&self) -> Map<Loc, IRVarView> {
        self.last_hold@
    }
}

fn holds_reference(held: &IRVar, varid: u8) -> (b: bool)
    ensures
        b == refers_to(held.deep_view(), varid),
{
    match held {
        IRVar::H { index_varid, orig_name } => *index_varid == varid,
        IRVar::M { index_varid } => *index_varid == varid,
        IRVar::Ht { stack_offset, local, orig_name } => (*local && varid == 0) || (!*local && varid == 252),
        _ => false,
    }
}

impl Cache {
    /// The cache that knows nothing.
    pub fn new() -> (c: Cache)
        ensures
            c@ == Map::<Loc, IRVarView>::empty(),
    {
        Cache { last_hold: LocMap::new() }
    }

    /// Forgets what a place holds after a write to it. For a register that
    /// points into memory, what it pointed to is forgotten too.
    pub fn remove_reg(&mut self, loc: &Loc)
        ensures
            final(self)@ == without_reg(old(self)@, *loc),
    {
        match loc {
            Loc::Reg(Reg::OtherReg(OtherReg::D)) => {
                self.last_hold.remove(&Loc::Reg(Reg::OtherReg(OtherReg::D)));
                self.last_hold.remove(&Loc::HD);
            },
            Loc::Reg(Reg::OtherReg(OtherReg::C)) => {
                self.last_hold.remove(&Loc::Reg(Reg::OtherReg(OtherReg::C)));
                self.last_hold.remove(&Loc::MC);
            },
            Loc::Reg(Reg::OtherReg(OtherReg::B)) => {
                self.last_hold.remove(&Loc::Reg(Reg::OtherReg(OtherReg::B)));
                self.last_hold.remove(&Loc::MB);
            },
            x => {
                self.last_hold.remove(x);
            },
        }
    }

    fn drop_reference_at(&mut self, loc: Loc, varid: u8)
        ensures
            final(self)@ == if old(self)@.contains_key(loc) && refers_to(old(self)@[loc], varid) {
                old(self)@.remove(loc)
            } else {
                old(self)@
            },
    {
        let drop = match self.last_hold.get(&loc) {
            Some(v) => holds_reference(v, varid),
            None => false,
        };
        if drop {
            self.last_hold.remove(&loc);
        }
    }

    /// Forgets every entry that depends on the slot `varid` of R, which has
    /// a new value.
    pub fn delete_references(&mut self, varid: u8)
        ensures
            final(self)@ == without_references(old(self)@, varid),
    {
        self.drop_reference_at(Loc::Reg(Reg::A), varid);
        self.drop_reference_at(Loc::Reg(Reg::OtherReg(OtherReg::B)), varid);
        self.drop_reference_at(Loc::Reg(Reg::OtherReg(OtherReg::C)), varid);
        self.drop_reference_at(Loc::Reg(Reg::OtherReg(OtherReg::D)), varid);
        self.drop_reference_at(Loc::MB, varid);
        self.drop_reference_at(Loc::MC, varid);
        self.drop_reference_at(Loc::HD, varid);
        assert(self@ =~= without_references(old(self)@, varid));
    }

    fn forget_at(&mut self, loc: Loc, t: &IRVar, keep: Option<Loc>)
        ensures
            final(self)@ == if old(self)@.contains_key(loc) && old(self)@[loc] == t.deep_view() && keep
                != Some(loc) {
                old(self)@.remove(loc)
            } else {
                old(self)@
            },
    {
        let kept = match keep {
            Some(k) => k == loc,
            None => false,
        };
        let drop = match self.last_hold.get(&loc) {
            Some(h) => h.same(t) && !kept,
            None => false,
        };
        if drop {
            self.last_hold.remove(&loc);
        }
    }

    fn forget(&mut self, v: &IRVar, keep: Option<Loc>)
        ensures
            final(self)@ == without_var(old(self)@, v.deep_view(), keep),
    {
        let t = v.tovar();
        let ghost start = self@;
        let ghost tv = t.deep_view();
        let ghost s0 = Set::<Loc>::empty();
        assert(self@ =~= pruned(start, tv, keep, s0));
        self.forget_at(Loc::Reg(Reg::A), &t, keep);
        let ghost s1 = s0.insert(reg_a());
        assert(self@ =~= pruned(start, tv, keep, s1));
        self.forget_at(Loc::Reg(Reg::OtherReg(OtherReg::B)), &t, keep);
        let ghost s2 = s1.insert(reg_b());
        assert(self@ =~= pruned(start, tv, keep, s2));
        self.forget_at(Loc::Reg(Reg::OtherReg(OtherReg::C)), &t, keep);
        let ghost s3 = s2.insert(reg_c());
        assert(self@ =~= pruned(start, tv, keep, s3));
        self.forget_at(Loc::Reg(Reg::OtherReg(OtherReg::D)), &t, keep);
        let ghost s4 = s3.insert(reg_d());
        assert(self@ =~= pruned(start, tv, keep, s4));
        self.forget_at(Loc::MB, &t, keep);
        let ghost s5 = s4.insert(Loc::MB);
        assert(self@ =~= pruned(start, tv, keep, s5));
        self.forget_at(Loc::MC, &t, keep);
        let ghost s6 = s5.insert(Loc::MC);
        assert(self@ =~= pruned(start, tv, keep, s6));
        self.forget_at(Loc::HD, &t, keep);
        let ghost s7 = s6.insert(Loc::HD);
        assert(self@ =~= pruned(start, tv, keep, s7));
        assert forall|l: Loc| s7.contains(l) by {
            match l {
                Loc::Reg(Reg::A) => {},
                Loc::Reg(Reg::OtherReg(OtherReg::B)) => {},
                Loc::Reg(Reg::OtherReg(OtherReg::C)) => {},
                Loc::Reg(Reg::OtherReg(OtherReg::D)) => {},
                Loc::MB => {},
                Loc::MC => {},
                Loc::HD => {},
            }
        }
        assert(pruned(start, tv, keep, s7) =~= without_var(start, v.deep_view(), keep));
    }

    /// Forgets the entries for the operand, which has a new value.
    pub fn delete(&mut self, irvar: &IRVar)
        ensures
            final(self)@ == without_var(old(self)@, irvar.deep_view(), None),
    {
        self.forget(irvar, None);
    }

    /// Forgets the entries for the operand, but for that of the place `loc`.
    pub fn delete_not(&mut self, irvar: &IRVar, loc: &Loc)
        ensures
            final(self)@ == without_var(old(self)@, irvar.deep_view(), Some(*loc)),
    {
        self.forget(irvar, Some(*loc));
    }

    /// Whether the place is known to hold a copy of the operand.
    pub fn is_loc(&self, loc: &Loc, irvar: &IRVar) -> (b: bool)
        ensures
            b == is_held(self@, *loc, irvar.deep_view()),
    {
        match self.last_hold.get(loc) {
            Some(IRVar::Ht { stack_offset: so, local: lo, orig_name }) => {
                match irvar {
                    IRVar::Ht { stack_offset, local, orig_name: _ } => *stack_offset == *so && *local == *lo,
                    _ => false,
                }
            },
            Some(IRVar::H { index_varid: iv, orig_name }) => {
                match irvar {
                    IRVar::H { index_varid, orig_name: _ } => *index_varid == *iv,
                    _ => false,
                }
            },
            Some(v) => irvar.same(v),
            None => false,
        }
    }
}

/// After a write to a place the cache no longer says what the place holds.
pub proof fn lemma_write_forgets(ch: CacheView, loc: Loc, v: IRVarView)
    ensures
        !is_held(without_reg(ch, loc), loc, v),
{
}

/// After a write to a register that points into memory the cache no longer
/// says what the cell holds that it points to.
pub proof fn lemma_pointer_write_forgets(ch: CacheView, v: IRVarView)
    ensures
        !is_held(without_reg(ch, reg_b()), Loc::MB, v),
        !is_held(without_reg(ch, reg_c()), Loc::MC, v),
        !is_held(without_reg(ch, reg_d()), Loc::HD, v),
{
}

/// Once an operand's entries are forgotten, no place is known to hold
/// exactly it.
pub proof fn lemma_forgotten_everywhere(ch: CacheView, v: IRVarView, loc: Loc)
    ensures
        !(without_var(ch, v, None).contains_key(loc) && without_var(ch, v, None)[loc] == v.tovar()),
{
}

/// Once a slot of R has a new value, no place is known to hold a cell that
/// the slot points to.
pub proof fn lemma_references_forgotten(ch: CacheView, varid: u8, loc: Loc)
    ensures
        !(without_references(ch, varid).contains_key(loc) && refers_to(
            without_references(ch, varid)[loc],
            varid,
        )),
{
}

/// What the cache says of a place is what was last noted for it: an entry
/// stands for the operand it was made with, and the empty cache says
/// nothing.
pub proof fn lemma_held_is_noted(ch: CacheView, loc: Loc, noted: IRVarView, v: IRVarView)
    ensures
        is_held(ch.insert(loc, noted), loc, v) == stands_for(noted, v),
        !is_held(Map::empty(), loc, v),
{
}

} // verus!
