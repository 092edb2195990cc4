//! The modifier engine: prioritized, composable rules that turn a native
//! numeric quantity into an effective one.
//!
//! All quantities are decimal fixed-point numbers with three fractional
//! digits: a stored `v` stands for the real value `v / 1000`. The engine
//! saturates at `VAL_LIMIT` so that every operation is total.

use vstd::prelude::*;
use crate::cultivation::CultivationLevel;
use crate::disciple::{Disciple, DiscipleType, TalentType, find_talent, companion_of, master_of,
    student_ids, find_rel};
use crate::external::fresh_id;
use crate::relationship::{RelationDimension, RelationLevel, level_rank, level_from_score};

verus! {

/// One whole unit in fixed-point representation.
pub const FP_ONE: i64 = 1000;

/// Saturation bound of the engine, in fixed-point steps (10^12 whole units).
pub const VAL_LIMIT: i64 = 1_000_000_000_000_000;

/// Clamp a mathematical value into the engine's representable range.
pub open spec fn sat(v: int) -> int {
    if v > VAL_LIMIT as int {
        VAL_LIMIT as int
    } else if v < -(VAL_LIMIT as int) {
        -(VAL_LIMIT as int)
    } else {
        v
    }
}

/// Division by one fixed-point unit, rounding toward zero.
pub open spec fn fp_div(p: int) -> int {
    if p >= 0 {
        p / (FP_ONE as int)
    } else {
        -((-p) / (FP_ONE as int))
    }
}

/// The quantity a modifier acts on.
#[derive(Debug, Clone, Copy, PartialEq, Eq, Structural)]
pub enum ModifierTarget {
    DaoHeart,
    Energy,
    Constitution,
    TalentBonus(TalentType),
    TribulationSuccessRate,
    TaskReward,
    TaskSuitability,
    TaskDifficulty,
    Income,
    EnergyConsumption,
    ConstitutionConsumption,
    CultivationSpeed,
}

/// How a modifier combines with the value it acts on.
#[derive(Debug, Clone, Copy, PartialEq, Eq, Structural)]
pub enum ModifierApplication {
    /// effective = native + value
    Additive(i64),
    /// effective = native * (1 + value/1000); a value of 200 means +20%.
    Multiplicative(i64),
    /// effective = value, ignoring every other rule
    Override(i64),
}

impl ModifierApplication {
    /// The carried magnitude, whatever the mode.
    pub open spec fn magnitude(self) -> int {
        match self {
            ModifierApplication::Additive(a) => a as int,
            ModifierApplication::Multiplicative(m) => m as int,
            ModifierApplication::Override(o) => o as int,
        }
    }

    /// A magnitude within the engine's representable range.
    pub open spec fn wf(self) -> bool {
        -(VAL_LIMIT as int) <= self.magnitude() <= VAL_LIMIT as int
    }

    /// What applying this mode to a value yields.
    pub open spec fn apply_spec(self, v: int) -> int {
        match self {
            ModifierApplication::Additive(a) => sat(v + a),
            ModifierApplication::Multiplicative(m) => sat(fp_div(v * (FP_ONE + m))),
            ModifierApplication::Override(o) => o as int,
        }
    }
}

/// Where a modifier came from.
#[derive(Debug, Clone, Copy, PartialEq, Eq, Structural)]
pub enum ModifierSource {
    Talent,
    Equipment,
    Buff,
    Debuff,
    Pill,
    Heritage,
    Environment,
    System,
    Relationship,
}

/// A single rule: what it changes, how, where it came from, for how long.
#[derive(Debug, Clone)]
pub struct Modifier {
    pub id: String,
    pub name: String,
    pub target: ModifierTarget,
    pub application: ModifierApplication,
    pub source: ModifierSource,
    /// Remaining turns; None means permanent.
    pub duration: Option<u32>,
    /// Used only for stable ordering inside a stack (higher first).
    pub priority: i32,
}

impl Modifier {
    pub open spec fn wf(self) -> bool {
        self.application.wf()
    }

    /// A fresh permanent modifier with priority 0.
    pub fn new(
        name: String,
        target: ModifierTarget,
        application: ModifierApplication,
        source: ModifierSource,
    ) -> (m: Modifier)
        requires
            application.wf(),
        ensures
            m.wf(),
            m.name == name,
            m.target == target,
            m.application == application,
            m.source == source,
            m.duration is None,
            m.priority == 0,
    {
        Modifier {
            id: fresh_id(),
            name,
            target,
            application,
            source,
            duration: None,
            priority: 0,
        }
    }

    /// A fresh timed modifier that expires after `duration` aging passes.
    pub fn new_temporary(
        name: String,
        target: ModifierTarget,
        application: ModifierApplication,
        source: ModifierSource,
        duration: u32,
    ) -> (m: Modifier)
        requires
            application.wf(),
        ensures
            m.wf(),
            m.name == name,
            m.target == target,
            m.application == application,
            m.source == source,
            m.duration == Some(duration),
            m.priority == 0,
    {
        Modifier {
            id: fresh_id(),
            name,
            target,
            application,
            source,
            duration: Some(duration),
            priority: 0,
        }
    }

    /// The same modifier with its ordering priority set.
    pub fn with_priority(self, priority: i32) -> (m: Modifier)
        ensures
            m == (Modifier { priority, ..self }),
    {
        Modifier { priority, ..self }
    }

    /// Apply this rule to a value.
    pub fn apply(&self, value: i64) -> (r: i64)
        requires
            self.wf(),
            -VAL_LIMIT <= value <= VAL_LIMIT,
        ensures
            r == self.application.apply_spec(value as int),
            -VAL_LIMIT <= r <= VAL_LIMIT,
    {
        match &self.application {
            ModifierApplication::Additive(a) => sat_i64(value + *a),
            ModifierApplication::Multiplicative(m) => mul_fp(value, FP_ONE + *m),
            ModifierApplication::Override(o) => *o,
        }
    }
}

/// Divide by one fixed-point unit, rounding toward zero.
pub(crate) fn div_fp(p: i64) -> (r: i64)
    requires
        -i64::MAX <= p,
    ensures
        r == fp_div(p as int),
{
    if p >= 0 {
        let q: u64 = (p as u64) / 1000;
        proof {
            assert(q <= p);
        }
        q as i64
    } else {
        let q: u64 = ((-p) as u64) / 1000;
        proof {
            assert(q <= -p);
        }
        -(q as i64)
    }
}

/// Clamp an (already representable) sum into the engine's range.
fn sat_i64(v: i64) -> (r: i64)
    ensures
        r == sat(v as int),
{
    if v > VAL_LIMIT {
        VAL_LIMIT
    } else if v < -VAL_LIMIT {
        -VAL_LIMIT
    } else {
        v
    }
}

/// Multiply a value by a fixed-point factor, divide back by one unit
/// rounding toward zero, and saturate.
pub(crate) fn mul_fp(v: i64, f: i64) -> (r: i64)
    requires
        -VAL_LIMIT <= v <= VAL_LIMIT,
        -(VAL_LIMIT + FP_ONE) <= f <= VAL_LIMIT + FP_ONE,
    ensures
        r == sat(fp_div(v * f)),
{
    let neg: bool = (v < 0) != (f < 0);
    let va: u64 = if v >= 0 {
        v as u64
    } else {
        (-v) as u64
    };
    let fa: u64 = if f >= 0 {
        f as u64
    } else {
        (-f) as u64
    };
    proof {
        assert(va as int * fa as int <= (VAL_LIMIT as int) * (VAL_LIMIT as int + FP_ONE as int))
            by (nonlinear_arith)
            requires
                0 <= va as int <= VAL_LIMIT as int,
                0 <= fa as int <= VAL_LIMIT as int + FP_ONE as int,
        ;
    }
    let p: u128 = (va as u128) * (fa as u128);
    proof {
        assert(p == (if v * f >= 0 { v * f } else { -(v * f) })) by (nonlinear_arith)
            requires
                va == (if v >= 0 { v as int } else { -(v as int) }),
                fa == (if f >= 0 { f as int } else { -(f as int) }),
                p == va as int * fa as int,
        ;
        assert(neg ==> v * f <= 0) by (nonlinear_arith)
            requires
                neg == ((v < 0) != (f < 0)),
        ;
        assert(!neg ==> v * f >= 0) by (nonlinear_arith)
            requires
                neg == ((v < 0) != (f < 0)),
        ;
    }
    let q: u128 = p / 1000;
    let qs: u64 = if q > (VAL_LIMIT as u128) {
        VAL_LIMIT as u64
    } else {
        q as u64
    };
    proof {
        if neg {
            assert(fp_div(v * f) == -(q as int));
            assert(sat(fp_div(v * f)) == -(qs as int));
        } else {
            assert(fp_div(v * f) == q as int);
            assert(sat(fp_div(v * f)) == qs as int);
        }
    }
    if neg {
        -(qs as i64)
    } else {
        qs as i64
    }
}

/// The value carried by an Override rule.
pub open spec fn override_val(m: Modifier) -> int {
    match m.application {
        ModifierApplication::Override(o) => o as int,
        _ => 0,
    }
}

/// The first rule in collection order that targets `t` in Override mode.
pub open spec fn find_override(ms: Seq<Modifier>, t: ModifierTarget) -> Option<Modifier>
    decreases ms.len(),
{
    if ms.len() == 0 {
        None
    } else if ms[0].target == t && ms[0].application is Override {
        Some(ms[0])
    } else {
        find_override(ms.drop_first(), t)
    }
}

/// One step of an additive or multiplicative pass: rules of the other mode,
/// and rules for other targets, leave the value unchanged.
pub open spec fn pass_step(m: Modifier, t: ModifierTarget, additive: bool, v: int) -> int {
    if m.target == t && (if additive {
        m.application is Additive
    } else {
        m.application is Multiplicative
    }) {
        m.application.apply_spec(v)
    } else {
        v
    }
}

/// Apply every additive (or multiplicative) rule for `t` in collection order.
pub open spec fn apply_pass(ms: Seq<Modifier>, t: ModifierTarget, additive: bool, v: int) -> int
    decreases ms.len(),
{
    if ms.len() == 0 {
        v
    } else {
        apply_pass(ms.drop_first(), t, additive, pass_step(ms[0], t, additive, v))
    }
}

/// The effective value of `native` for target `t` under a member's personal
/// rules followed by extra (organization-level) rules: the first Override in
/// collection order wins outright; otherwise every Additive rule applies in
/// order, then every Multiplicative rule.
pub open spec fn effective_value(
    personal: Seq<Modifier>,
    extras: Seq<Modifier>,
    t: ModifierTarget,
    native: int,
) -> int {
    match find_override(personal, t) {
        Some(m) => override_val(m),
        None => match find_override(extras, t) {
            Some(m) => override_val(m),
            None => apply_pass(
                extras,
                t,
                false,
                apply_pass(
                    personal,
                    t,
                    false,
                    apply_pass(extras, t, true, apply_pass(personal, t, true, native)),
                ),
            ),
        },
    }
}

/// The rules of a sequence that act on target `t`, in collection order.
pub open spec fn matching(ms: Seq<Modifier>, t: ModifierTarget) -> Seq<Modifier>
    decreases ms.len(),
{
    if ms.len() == 0 {
        Seq::empty()
    } else if ms[0].target == t {
        seq![ms[0]] + matching(ms.drop_first(), t)
    } else {
        matching(ms.drop_first(), t)
    }
}

/// Where a rule of priority `p` lands when added: after every rule whose
/// priority is at least `p`, before the rest (a stable descending order).
pub open spec fn insert_pos(ms: Seq<Modifier>, p: i32) -> int
    decreases ms.len(),
{
    if ms.len() == 0 {
        0
    } else if ms[0].priority >= p {
        1 + insert_pos(ms.drop_first(), p)
    } else {
        0
    }
}

/// A rule after one aging pass: timed durations drop by one (stopping at 0),
/// permanent rules are untouched.
pub open spec fn tick_one(m: Modifier) -> Modifier {
    match m.duration {
        None => m,
        Some(d) => Modifier { duration: Some(if d == 0 { 0u32 } else { (d - 1) as u32 }), ..m },
    }
}

/// Whether a rule survives the aging pass that produced it.
pub open spec fn keeps_after_tick(m: Modifier) -> bool {
    match m.duration {
        None => true,
        Some(d) => d > 0,
    }
}

/// A whole rule sequence after one aging pass: durations decremented and
/// expired rules dropped, order otherwise kept.
pub open spec fn ticked(ms: Seq<Modifier>) -> Seq<Modifier>
    decreases ms.len(),
{
    if ms.len() == 0 {
        Seq::empty()
    } else {
        let m1 = tick_one(ms[0]);
        if keeps_after_tick(m1) {
            seq![m1] + ticked(ms.drop_first())
        } else {
            ticked(ms.drop_first())
        }
    }
}

/// The rules of a sequence whose id differs from `id`, in order.
pub open spec fn without_id(ms: Seq<Modifier>, id: Seq<char>) -> Seq<Modifier>
    decreases ms.len(),
{
    if ms.len() == 0 {
        Seq::empty()
    } else if ms[0].id@ == id {
        without_id(ms.drop_first(), id)
    } else {
        seq![ms[0]] + without_id(ms.drop_first(), id)
    }
}

/// The rules of a sequence whose provenance differs from `source`, in order.
pub open spec fn without_source(ms: Seq<Modifier>, source: ModifierSource) -> Seq<Modifier>
    decreases ms.len(),
{
    if ms.len() == 0 {
        Seq::empty()
    } else if ms[0].source == source {
        without_source(ms.drop_first(), source)
    } else {
        seq![ms[0]] + without_source(ms.drop_first(), source)
    }
}

/// Every rule of a sequence has a representable magnitude.
pub open spec fn seq_all_wf(ms: Seq<Modifier>) -> bool {
    forall|i: int| 0 <= i < ms.len() ==> (#[trigger] ms[i]).wf()
}

/// A sequence of rules in descending priority order.
pub open spec fn seq_sorted(ms: Seq<Modifier>) -> bool {
    forall|i: int, j: int| 0 <= i <= j < ms.len() ==> ms[i].priority >= ms[j].priority
}

/// A collection of rules held by one member, kept in descending priority
/// order (stable: rules of equal priority stay in insertion order).
#[derive(Debug, Clone)]
pub struct ModifierStack {
    modifiers: Vec<Modifier>,
}

impl View for ModifierStack {
    type V = Seq<Modifier>;

    closed spec fn view(&self) -> Seq<Modifier> {
        self.modifiers@
    }
}

impl ModifierStack {
    /// Every held rule has a representable magnitude.
    pub open spec fn all_wf(&self) -> bool {
        seq_all_wf(self@)
    }

    /// The rules are in descending priority order.
    pub open spec fn sorted(&self) -> bool {
        seq_sorted(self@)
    }

    pub open spec fn wf(&self) -> bool {
        self.all_wf() && self.sorted()
    }

    pub fn new() -> (s: ModifierStack)
        ensures
            s@ =~= Seq::<Modifier>::empty(),
            s.wf(),
    {
        ModifierStack { modifiers: Vec::new() }
    }

    /// Add a rule, keeping descending priority order; among rules of equal
    /// priority the newcomer goes last.
    pub fn add_modifier(&mut self, modifier: Modifier)
        requires
            old(self).wf(),
            modifier.wf(),
        ensures
            final(self).wf(),
            final(self)@ == old(self)@.insert(insert_pos(old(self)@, modifier.priority), modifier),
    {
        let ghost orig = self@;
        let p = modifier.priority;
        let n = self.modifiers.len();
        proof {
            assert(orig.subrange(0, n as int) =~= orig);
        }
        let mut i: usize = 0;
        while i < n && self.modifiers[i].priority >= p
            invariant
                0 <= i <= n,
                n == orig.len(),
                self@ == orig,
                old(self).wf(),
                modifier.wf(),
                forall|j: int| 0 <= j < i ==> orig[j].priority >= p,
                insert_pos(orig, p) == i + insert_pos(orig.subrange(i as int, n as int), p),
            decreases n - i,
        {
            proof {
                lemma_insert_pos_split(orig, p, i as int);
            }
            i = i + 1;
        }
        proof {
            if i < n {
                assert(orig.subrange(i as int, n as int)[0] == orig[i as int]);
                assert(insert_pos(orig.subrange(i as int, n as int), p) == 0);
            } else {
                assert(orig.subrange(i as int, n as int) =~= Seq::<Modifier>::empty());
            }
            assert(insert_pos(orig, p) == i as int);
        }
        self.modifiers.insert(i, modifier);
        proof {
            let k = i as int;
            let res = orig.insert(k, modifier);
            assert(self@ =~= res);
            assert(self@ == res);
            // everything at or past the split point has priority below p
            assert(forall|j: int|
                k <= j < orig.len() ==> p > #[trigger] orig[j].priority) by {
                if k < orig.len() {
                    assert(orig[k].priority < p);
                    assert(forall|j: int|
                        k <= j < orig.len() ==> orig[k].priority >= #[trigger] orig[j].priority);
                }
            }
            assert forall|a: int, b: int| 0 <= a <= b < res.len() implies res[a].priority
                >= res[b].priority by {
                if a < k {
                    assert(res[a] == orig[a]);
                } else if a == k {
                    assert(res[a] == modifier);
                } else {
                    assert(res[a] == orig[a - 1]);
                }
                if b < k {
                    assert(res[b] == orig[b]);
                } else if b == k {
                    assert(res[b] == modifier);
                } else {
                    assert(res[b] == orig[b - 1]);
                }
            }
            assert forall|a: int| 0 <= a < res.len() implies (#[trigger] res[a]).wf() by {
                if a < k {
                    assert(res[a] == orig[a]);
                } else if a == k {
                    assert(res[a] == modifier);
                } else {
                    assert(res[a] == orig[a - 1]);
                }
            }
        }
    }

    /// Remove the rules bearing the given id; reports whether any left.
    pub fn remove_modifier(&mut self, id: &String) -> (removed: bool)
        requires
            old(self).wf(),
        ensures
            final(self).wf(),
            final(self)@ == without_id(old(self)@, id@),
            removed == (final(self)@.len() < old(self)@.len()),
    {
        let ghost orig = self@;
        proof {
            lemma_without_id_shape(orig, id@);
        }
        let mut rest: Vec<Modifier> = Vec::new();
        core::mem::swap(&mut self.modifiers, &mut rest);
        let before = rest.len();
        proof {
            assert(orig.subrange(0, before as int) =~= orig);
            assert(Seq::<Modifier>::empty() + without_id(orig, id@) =~= without_id(orig, id@));
        }
        let mut i: usize = 0;
        while i < before
            invariant
                0 <= i <= before,
                before == orig.len(),
                rest@ == orig,
                self@ + without_id(orig.subrange(i as int, before as int), id@) == without_id(
                    orig,
                    id@,
                ),
            decreases before - i,
        {
            proof {
                lemma_without_id_split(orig, id@, i as int);
            }
            let m = &rest[i];
            if !(m.id == *id) {
                let kept = rest[i].clone_exact();
                self.modifiers.push(kept);
            }
            proof {
                assert(self@ + without_id(orig.subrange(i as int + 1, before as int), id@)
                    =~= without_id(orig, id@));
            }
            i = i + 1;
        }
        proof {
            assert(orig.subrange(before as int, before as int) =~= Seq::<Modifier>::empty());
            assert(self@ =~= without_id(orig, id@));
        }
        self.modifiers.len() < before
    }

    /// Remove every rule of the given provenance.
    pub fn remove_modifiers_by_source(&mut self, source: &ModifierSource)
        requires
            old(self).wf(),
        ensures
            final(self).wf(),
            final(self)@ == without_source(old(self)@, *source),
    {
        let ghost orig = self@;
        proof {
            lemma_without_source_shape(orig, *source);
        }
        let mut rest: Vec<Modifier> = Vec::new();
        core::mem::swap(&mut self.modifiers, &mut rest);
        let before = rest.len();
        proof {
            assert(orig.subrange(0, before as int) =~= orig);
            assert(Seq::<Modifier>::empty() + without_source(orig, *source) =~= without_source(
                orig,
                *source,
            ));
        }
        let mut i: usize = 0;
        while i < before
            invariant
                0 <= i <= before,
                before == orig.len(),
                rest@ == orig,
                self@ + without_source(orig.subrange(i as int, before as int), *source)
                    == without_source(orig, *source),
            decreases before - i,
        {
            proof {
                lemma_without_source_split(orig, *source, i as int);
            }
            if !(rest[i].source == *source) {
                let kept = rest[i].clone_exact();
                self.modifiers.push(kept);
            }
            proof {
                assert(self@ + without_source(orig.subrange(i as int + 1, before as int), *source)
                    =~= without_source(orig, *source));
            }
            i = i + 1;
        }
        proof {
            assert(orig.subrange(before as int, before as int) =~= Seq::<Modifier>::empty());
            assert(self@ =~= without_source(orig, *source));
        }
    }

    /// Age every timed rule by one turn and drop those that expire.
    /// Returns how many expired.
    pub fn tick(&mut self) -> (expired: usize)
        requires
            old(self).wf(),
        ensures
            final(self).wf(),
            final(self)@ == ticked(old(self)@),
            expired == old(self)@.len() - final(self)@.len(),
    {
        let ghost orig = self@;
        proof {
            lemma_ticked_shape(orig);
        }
        let mut rest: Vec<Modifier> = Vec::new();
        core::mem::swap(&mut self.modifiers, &mut rest);
        let before = rest.len();
        proof {
            assert(orig.subrange(0, before as int) =~= orig);
            assert(Seq::<Modifier>::empty() + ticked(orig) =~= ticked(orig));
        }
        let mut i: usize = 0;
        while i < before
            invariant
                0 <= i <= before,
                before == orig.len(),
                rest@ == orig,
                self@ + ticked(orig.subrange(i as int, before as int)) == ticked(orig),
            decreases before - i,
        {
            proof {
                lemma_ticked_split(orig, i as int);
            }
            let mut m = rest[i].clone_exact();
            match m.duration {
                None => {
                    self.modifiers.push(m);
                },
                Some(d) => {
                    let nd: u32 = if d == 0 {
                        0
                    } else {
                        d - 1
                    };
                    m.duration = Some(nd);
                    if nd > 0 {
                        self.modifiers.push(m);
                    }
                },
            }
            proof {
                assert(self@ + ticked(orig.subrange(i as int + 1, before as int)) =~= ticked(
                    orig,
                ));
            }
            i = i + 1;
        }
        proof {
            assert(orig.subrange(before as int, before as int) =~= Seq::<Modifier>::empty());
            assert(self@ =~= ticked(orig));
        }
        before - self.modifiers.len()
    }

    /// All rules acting on the given target, in stack order.
    pub fn get_modifiers_for_target<'a>(&'a self, target: &ModifierTarget) -> (r: Vec<&'a Modifier>)
        ensures
            r@.len() == matching(self@, *target).len(),
            forall|j: int| 0 <= j < r@.len() ==> *(#[trigger] r@[j]) == matching(
                self@,
                *target,
            )[j],
    {
        let n = self.modifiers.len();
        let mut r: Vec<&Modifier> = Vec::new();
        let mut i: usize = 0;
        while i < n
            invariant
                0 <= i <= n,
                n == self@.len(),
                matching(self@.subrange(0, i as int), *target).len() == r@.len(),
                forall|j: int| 0 <= j < r@.len() ==> *(#[trigger] r@[j]) == matching(
                    self@.subrange(0, i as int),
                    *target,
                )[j],
            decreases n - i,
        {
            proof {
                lemma_matching_extend(self@, *target, i as int);
            }
            if self.modifiers[i].target == *target {
                r.push(&self.modifiers[i]);
            }
            i = i + 1;
        }
        proof {
            assert(self@.subrange(0, n as int) =~= self@);
        }
        r
    }

    /// The effective value of `native` for `target` under this stack alone.
    pub fn calculate_effective(&self, target: &ModifierTarget, native: i64) -> (r: i64)
        requires
            self.all_wf(),
            -VAL_LIMIT <= native <= VAL_LIMIT,
        ensures
            r == effective_value(self@, Seq::<Modifier>::empty(), *target, native as int),
            -VAL_LIMIT <= r <= VAL_LIMIT,
    {
        let extras: Vec<Modifier> = Vec::new();
        self.calculate_effective_with_extras(target, native, &extras)
    }

    /// The effective value of `native` for `target` under this stack and the
    /// given extra (organization-level) rules.
    pub fn calculate_effective_with_extras(
        &self,
        target: &ModifierTarget,
        native: i64,
        extras: &Vec<Modifier>,
    ) -> (r: i64)
        requires
            self.all_wf(),
            forall|i: int| 0 <= i < extras@.len() ==> (#[trigger] extras@[i]).wf(),
            -VAL_LIMIT <= native <= VAL_LIMIT,
        ensures
            r == effective_value(self@, extras@, *target, native as int),
            -VAL_LIMIT <= r <= VAL_LIMIT,
    {
        if let Some(o) = find_override_in(&self.modifiers, target) {
            return o;
        }
        if let Some(o) = find_override_in(extras, target) {
            return o;
        }
        let v1 = run_pass(&self.modifiers, target, true, native);
        let v2 = run_pass(extras, target, true, v1);
        let v3 = run_pass(&self.modifiers, target, false, v2);
        run_pass(extras, target, false, v3)
    }

    /// A borrow of every held rule, in stack order.
    pub fn get_all_modifiers(&self) -> (r: &Vec<Modifier>)
        ensures
            r@ == self@,
    {
        &self.modifiers
    }

    /// Drop every rule.
    pub fn clear(&mut self)
        ensures
            final(self)@ =~= Seq::<Modifier>::empty(),
            final(self).wf(),
    {
        self.modifiers.clear();
    }

    pub fn len(&self) -> (r: usize)
        ensures
            r == self@.len(),
    {
        self.modifiers.len()
    }

    pub fn is_empty(&self) -> (r: bool)
        ensures
            r == (self@.len() == 0),
    {
        self.modifiers.len() == 0
    }
}

impl Modifier {
    /// A field-for-field copy (the derived clone says nothing to the
    /// verifier, so the copy is spelled out).
    pub fn clone_exact(&self) -> (r: Modifier)
        ensures
            r == *self,
    {
        Modifier {
            id: clone_string(&self.id),
            name: clone_string(&self.name),
            target: self.target,
            application: self.application,
            source: self.source,
            duration: self.duration,
            priority: self.priority,
        }
    }
}

/// A copy of a string with the same characters.
fn clone_string(s: &String) -> (r: String)
    ensures
        r == *s,
{
    s.clone()
}

/// Search a rule vector for the first Override acting on `target`.
fn find_override_in(mods: &Vec<Modifier>, target: &ModifierTarget) -> (r: Option<i64>)
    requires
        forall|i: int| 0 <= i < mods@.len() ==> (#[trigger] mods@[i]).wf(),
    ensures
        match find_override(mods@, *target) {
            Some(m) => r == Some(override_val(m) as i64) && -VAL_LIMIT <= override_val(m)
                <= VAL_LIMIT,
            None => r is None,
        },
{
    let n = mods.len();
    proof {
        assert(mods@.subrange(0, n as int) =~= mods@);
    }
    let mut i: usize = 0;
    while i < n
        invariant
            0 <= i <= n,
            n == mods@.len(),
            forall|k: int| 0 <= k < mods@.len() ==> (#[trigger] mods@[k]).wf(),
            find_override(mods@, *target) == find_override(
                mods@.subrange(i as int, n as int),
                *target,
            ),
        decreases n - i,
    {
        proof {
            lemma_find_override_split(mods@, *target, i as int);
        }
        if mods[i].target == *target {
            match mods[i].application {
                ModifierApplication::Override(o) => {
                    return Some(o);
                },
                _ => {},
            }
        }
        i = i + 1;
    }
    proof {
        assert(mods@.subrange(n as int, n as int) =~= Seq::<Modifier>::empty());
    }
    None
}

/// Run one additive or multiplicative pass of the engine over a rule vector.
fn run_pass(mods: &Vec<Modifier>, target: &ModifierTarget, additive: bool, v: i64) -> (r: i64)
    requires
        forall|i: int| 0 <= i < mods@.len() ==> (#[trigger] mods@[i]).wf(),
        -VAL_LIMIT <= v <= VAL_LIMIT,
    ensures
        r == apply_pass(mods@, *target, additive, v as int),
        -VAL_LIMIT <= r <= VAL_LIMIT,
{
    let n = mods.len();
    proof {
        assert(mods@.subrange(0, n as int) =~= mods@);
    }
    let mut cur = v;
    let mut i: usize = 0;
    while i < n
        invariant
            0 <= i <= n,
            n == mods@.len(),
            forall|k: int| 0 <= k < mods@.len() ==> (#[trigger] mods@[k]).wf(),
            -VAL_LIMIT <= cur <= VAL_LIMIT,
            apply_pass(mods@, *target, additive, v as int) == apply_pass(
                mods@.subrange(i as int, n as int),
                *target,
                additive,
                cur as int,
            ),
        decreases n - i,
    {
        proof {
            lemma_apply_pass_split(mods@, *target, additive, cur as int, i as int);
        }
        let m = &mods[i];
        let applies = m.target == *target && (if additive {
            matches!(m.application, ModifierApplication::Additive(_))
        } else {
            matches!(m.application, ModifierApplication::Multiplicative(_))
        });
        if applies {
            cur = m.apply(cur);
        }
        i = i + 1;
    }
    proof {
        assert(mods@.subrange(n as int, n as int) =~= Seq::<Modifier>::empty());
    }
    cur
}

proof fn lemma_insert_pos_split(ms: Seq<Modifier>, p: i32, i: int)
    requires
        0 <= i < ms.len(),
        ms[i].priority >= p,
    ensures
        insert_pos(ms.subrange(i, ms.len() as int), p) == 1 + insert_pos(
            ms.subrange(i + 1, ms.len() as int),
            p,
        ),
{
    assert(ms.subrange(i, ms.len() as int).drop_first() =~= ms.subrange(i + 1, ms.len() as int));
}

proof fn lemma_find_override_split(ms: Seq<Modifier>, t: ModifierTarget, i: int)
    requires
        0 <= i < ms.len(),
    ensures
        find_override(ms.subrange(i, ms.len() as int), t) == (if ms[i].target == t
            && ms[i].application is Override {
            Some(ms[i])
        } else {
            find_override(ms.subrange(i + 1, ms.len() as int), t)
        }),
{
    assert(ms.subrange(i, ms.len() as int).drop_first() =~= ms.subrange(i + 1, ms.len() as int));
}

proof fn lemma_apply_pass_split(ms: Seq<Modifier>, t: ModifierTarget, additive: bool, v: int, i: int)
    requires
        0 <= i < ms.len(),
    ensures
        apply_pass(ms.subrange(i, ms.len() as int), t, additive, v) == apply_pass(
            ms.subrange(i + 1, ms.len() as int),
            t,
            additive,
            pass_step(ms[i], t, additive, v),
        ),
{
    assert(ms.subrange(i, ms.len() as int).drop_first() =~= ms.subrange(i + 1, ms.len() as int));
}

proof fn lemma_matching_extend(ms: Seq<Modifier>, t: ModifierTarget, i: int)
    requires
        0 <= i < ms.len(),
    ensures
        matching(ms.subrange(0, i + 1), t) == (if ms[i].target == t {
            matching(ms.subrange(0, i), t) + seq![ms[i]]
        } else {
            matching(ms.subrange(0, i), t)
        }),
    decreases i,
{
    if i == 0 {
        assert(ms.subrange(0, 1).drop_first() =~= Seq::<Modifier>::empty());
        assert(ms.subrange(0, 0) =~= Seq::<Modifier>::empty());
        if ms[0].target == t {
            assert(matching(ms.subrange(0, 1), t) =~= matching(ms.subrange(0, 0), t) + seq![ms[0]]);
        } else {
            assert(ms.subrange(0, 0) =~= Seq::<Modifier>::empty());
        }
    } else {
        lemma_matching_extend(ms.drop_first(), t, i - 1);
        assert(ms.subrange(0, i + 1).drop_first() =~= ms.drop_first().subrange(0, i));
        assert(ms.subrange(0, i).drop_first() =~= ms.drop_first().subrange(0, i - 1));
        assert(ms.drop_first()[i - 1] == ms[i]);
        if ms[i].target == t {
            assert(matching(ms.subrange(0, i + 1), t) =~= matching(ms.subrange(0, i), t)
                + seq![ms[i]]);
        }
    }
}

/// Shape facts about the id-removal pass: the result is never longer than
/// the input, keeps descending priority order, keeps every rule well formed,
/// and its head's priority is bounded by the input's head.
proof fn lemma_without_id_shape(ms: Seq<Modifier>, id: Seq<char>)
    requires
        seq_sorted(ms),
        seq_all_wf(ms),
    ensures
        without_id(ms, id).len() <= ms.len(),
        seq_sorted(without_id(ms, id)),
        seq_all_wf(without_id(ms, id)),
        ms.len() > 0 && without_id(ms, id).len() > 0 ==> without_id(ms, id)[0].priority
            <= ms[0].priority,
    decreases ms.len(),
{
    if ms.len() > 0 {
        let rest = ms.drop_first();
        assert(seq_sorted(rest)) by {
            assert(forall|i: int, j: int|
                0 <= i <= j < rest.len() ==> rest[i] == ms[i + 1] && rest[j] == ms[j + 1]);
        }
        assert(seq_all_wf(rest)) by {
            assert(forall|i: int| 0 <= i < rest.len() ==> #[trigger] rest[i] == ms[i + 1]);
        }
        lemma_without_id_shape(rest, id);
        let w = without_id(ms, id);
        let wr = without_id(rest, id);
        if ms[0].id@ != id {
            assert(w == seq![ms[0]] + wr);
            assert forall|i: int, j: int| 0 <= i <= j < w.len() implies w[i].priority
                >= w[j].priority by {
                if 0 < j {
                    assert(w[j] == wr[j - 1]);
                    if 0 < i {
                        assert(w[i] == wr[i - 1]);
                    } else {
                        if rest.len() > 0 {
                            assert(wr[0].priority <= rest[0].priority);
                            assert(rest[0] == ms[1]);
                            assert(ms[0].priority >= ms[1].priority);
                            assert(wr[j - 1].priority <= wr[0].priority);
                        }
                    }
                }
            }
            assert(seq_all_wf(w)) by {
                assert(forall|i: int|
                    0 < i < w.len() ==> #[trigger] w[i] == wr[i - 1]);
            }
        } else {
            assert(w == wr);
            if w.len() > 0 && rest.len() > 0 {
                assert(w[0].priority <= rest[0].priority);
                assert(rest[0] == ms[1]);
            }
        }
    }
}

/// Shape facts about the provenance-removal pass, as for id removal.
proof fn lemma_without_source_shape(ms: Seq<Modifier>, source: ModifierSource)
    requires
        seq_sorted(ms),
        seq_all_wf(ms),
    ensures
        without_source(ms, source).len() <= ms.len(),
        seq_sorted(without_source(ms, source)),
        seq_all_wf(without_source(ms, source)),
        ms.len() > 0 && without_source(ms, source).len() > 0 ==> without_source(
            ms,
            source,
        )[0].priority <= ms[0].priority,
    decreases ms.len(),
{
    if ms.len() > 0 {
        let rest = ms.drop_first();
        assert(seq_sorted(rest)) by {
            assert(forall|i: int, j: int|
                0 <= i <= j < rest.len() ==> rest[i] == ms[i + 1] && rest[j] == ms[j + 1]);
        }
        assert(seq_all_wf(rest)) by {
            assert(forall|i: int| 0 <= i < rest.len() ==> #[trigger] rest[i] == ms[i + 1]);
        }
        lemma_without_source_shape(rest, source);
        let w = without_source(ms, source);
        let wr = without_source(rest, source);
        if ms[0].source != source {
            assert(w == seq![ms[0]] + wr);
            assert forall|i: int, j: int| 0 <= i <= j < w.len() implies w[i].priority
                >= w[j].priority by {
                if 0 < j {
                    assert(w[j] == wr[j - 1]);
                    if 0 < i {
                        assert(w[i] == wr[i - 1]);
                    } else {
                        if rest.len() > 0 {
                            assert(wr[0].priority <= rest[0].priority);
                            assert(rest[0] == ms[1]);
                            assert(ms[0].priority >= ms[1].priority);
                            assert(wr[j - 1].priority <= wr[0].priority);
                        }
                    }
                }
            }
            assert(seq_all_wf(w)) by {
                assert(forall|i: int|
                    0 < i < w.len() ==> #[trigger] w[i] == wr[i - 1]);
            }
        } else {
            assert(w == wr);
            if w.len() > 0 && rest.len() > 0 {
                assert(w[0].priority <= rest[0].priority);
                assert(rest[0] == ms[1]);
            }
        }
    }
}

/// Shape facts about the aging pass: the result is never longer than the
/// input, keeps descending priority order (aging leaves priorities alone),
/// and keeps every rule well formed.
proof fn lemma_ticked_shape(ms: Seq<Modifier>)
    requires
        seq_sorted(ms),
        seq_all_wf(ms),
    ensures
        ticked(ms).len() <= ms.len(),
        seq_sorted(ticked(ms)),
        seq_all_wf(ticked(ms)),
        ms.len() > 0 && ticked(ms).len() > 0 ==> ticked(ms)[0].priority <= ms[0].priority,
    decreases ms.len(),
{
    if ms.len() > 0 {
        let rest = ms.drop_first();
        assert(seq_sorted(rest)) by {
            assert(forall|i: int, j: int|
                0 <= i <= j < rest.len() ==> rest[i] == ms[i + 1] && rest[j] == ms[j + 1]);
        }
        assert(seq_all_wf(rest)) by {
            assert(forall|i: int| 0 <= i < rest.len() ==> #[trigger] rest[i] == ms[i + 1]);
        }
        lemma_ticked_shape(rest);
        let w = ticked(ms);
        let wr = ticked(rest);
        let m1 = tick_one(ms[0]);
        assert(m1.priority == ms[0].priority);
        assert(m1.wf() == ms[0].wf());
        if keeps_after_tick(m1) {
            assert(w == seq![m1] + wr);
            assert forall|i: int, j: int| 0 <= i <= j < w.len() implies w[i].priority
                >= w[j].priority by {
                if 0 < j {
                    assert(w[j] == wr[j - 1]);
                    if 0 < i {
                        assert(w[i] == wr[i - 1]);
                    } else {
                        if rest.len() > 0 {
                            assert(wr[0].priority <= rest[0].priority);
                            assert(rest[0] == ms[1]);
                            assert(ms[0].priority >= ms[1].priority);
                            assert(wr[j - 1].priority <= wr[0].priority);
                        }
                    }
                }
            }
            assert(seq_all_wf(w)) by {
                assert(forall|i: int|
                    0 < i < w.len() ==> #[trigger] w[i] == wr[i - 1]);
            }
        } else {
            assert(w == wr);
            if w.len() > 0 && rest.len() > 0 {
                assert(w[0].priority <= rest[0].priority);
                assert(rest[0] == ms[1]);
            }
        }
    }
}

proof fn lemma_without_id_split(ms: Seq<Modifier>, id: Seq<char>, i: int)
    requires
        0 <= i < ms.len(),
    ensures
        without_id(ms.subrange(i, ms.len() as int), id) == (if ms[i].id@ == id {
            without_id(ms.subrange(i + 1, ms.len() as int), id)
        } else {
            seq![ms[i]] + without_id(ms.subrange(i + 1, ms.len() as int), id)
        }),
{
    assert(ms.subrange(i, ms.len() as int).drop_first() =~= ms.subrange(i + 1, ms.len() as int));
}

proof fn lemma_without_source_split(ms: Seq<Modifier>, source: ModifierSource, i: int)
    requires
        0 <= i < ms.len(),
    ensures
        without_source(ms.subrange(i, ms.len() as int), source) == (if ms[i].source == source {
            without_source(ms.subrange(i + 1, ms.len() as int), source)
        } else {
            seq![ms[i]] + without_source(ms.subrange(i + 1, ms.len() as int), source)
        }),
{
    assert(ms.subrange(i, ms.len() as int).drop_first() =~= ms.subrange(i + 1, ms.len() as int));
}

proof fn lemma_ticked_split(ms: Seq<Modifier>, i: int)
    requires
        0 <= i < ms.len(),
    ensures
        ticked(ms.subrange(i, ms.len() as int)) == (if keeps_after_tick(tick_one(ms[i])) {
            seq![tick_one(ms[i])] + ticked(ms.subrange(i + 1, ms.len() as int))
        } else {
            ticked(ms.subrange(i + 1, ms.len() as int))
        }),
{
    assert(ms.subrange(i, ms.len() as int).drop_first() =~= ms.subrange(i + 1, ms.len() as int));
}

/// Searching a sequence for an Override looks only at rules for the target:
/// the search over the whole sequence and over its target-matching
/// subsequence agree.
proof fn lemma_find_override_matching(ms: Seq<Modifier>, t: ModifierTarget)
    ensures
        find_override(ms, t) == find_override(matching(ms, t), t),
    decreases ms.len(),
{
    if ms.len() > 0 {
        lemma_find_override_matching(ms.drop_first(), t);
        if ms[0].target == t {
            let w = matching(ms, t);
            assert(w == seq![ms[0]] + matching(ms.drop_first(), t));
            assert(w[0] == ms[0]);
            assert(w.drop_first() =~= matching(ms.drop_first(), t));
        }
    }
}

/// An additive or multiplicative pass ignores rules for other targets: the
/// pass over the whole sequence and over its target-matching subsequence
/// agree.
proof fn lemma_apply_pass_matching(ms: Seq<Modifier>, t: ModifierTarget, additive: bool, v: int)
    ensures
        apply_pass(ms, t, additive, v) == apply_pass(matching(ms, t), t, additive, v),
    decreases ms.len(),
{
    if ms.len() > 0 {
        let v1 = pass_step(ms[0], t, additive, v);
        lemma_apply_pass_matching(ms.drop_first(), t, additive, v1);
        if ms[0].target == t {
            let w = matching(ms, t);
            assert(w == seq![ms[0]] + matching(ms.drop_first(), t));
            assert(w[0] == ms[0]);
            assert(w.drop_first() =~= matching(ms.drop_first(), t));
        } else {
            lemma_apply_pass_matching(ms.drop_first(), t, additive, v);
        }
    }
}

/// The Override search succeeds exactly when some rule in the sequence is an
/// Override for the target, and what it finds is such a rule.
proof fn lemma_find_override_exists(ms: Seq<Modifier>, t: ModifierTarget)
    ensures
        (find_override(ms, t) is Some) <==> (exists|i: int|
            0 <= i < ms.len() && (#[trigger] ms[i]).target == t && ms[i].application is Override),
        find_override(ms, t) matches Some(m) ==> m.target == t && m.application is Override,
    decreases ms.len(),
{
    if ms.len() > 0 {
        lemma_find_override_exists(ms.drop_first(), t);
        if ms[0].target == t && ms[0].application is Override {
        } else {
            if find_override(ms.drop_first(), t) is Some {
                let i = choose|i: int|
                    0 <= i < ms.drop_first().len() && (#[trigger] ms.drop_first()[i]).target == t
                        && ms.drop_first()[i].application is Override;
                assert(ms[i + 1].target == t && ms[i + 1].application is Override);
            }
            if exists|i: int|
                0 <= i < ms.len() && (#[trigger] ms[i]).target == t
                    && ms[i].application is Override {
                let i = choose|i: int|
                    0 <= i < ms.len() && (#[trigger] ms[i]).target == t
                        && ms[i].application is Override;
                assert(i > 0);
                assert(ms.drop_first()[i - 1].target == t
                    && ms.drop_first()[i - 1].application is Override);
            }
        }
    }
}

/// Override dominance: when any rule in scope for the target carries
/// Override mode, the effective value is the carried value of the first such
/// rule in collection order, whatever the native value is; additive and
/// multiplicative rules no longer matter.
pub proof fn lemma_override_dominance(
    personal: Seq<Modifier>,
    extras: Seq<Modifier>,
    t: ModifierTarget,
    native1: int,
    native2: int,
)
    requires
        (exists|i: int|
            0 <= i < personal.len() && (#[trigger] personal[i]).target == t
                && personal[i].application is Override) || (exists|i: int|
            0 <= i < extras.len() && (#[trigger] extras[i]).target == t
                && extras[i].application is Override),
    ensures
        effective_value(personal, extras, t, native1) == effective_value(
            personal,
            extras,
            t,
            native2,
        ),
        exists|m: Modifier|
            (find_override(personal, t) == Some(m) || (find_override(personal, t) is None
                && find_override(extras, t) == Some(m))) && #[trigger] m.application is Override
                && m.target == t && effective_value(personal, extras, t, native1) == override_val(
                m,
            ),
{
    lemma_find_override_exists(personal, t);
    lemma_find_override_exists(extras, t);
}

/// Additive before multiplicative: when the rules in scope for the target
/// are exactly one Additive(a) and one Multiplicative(m) -- in either order,
/// with no extra rules -- the effective value of `native` is
/// (native + a) * (1 + m/1000), computed in the engine's saturating
/// fixed point.
pub proof fn lemma_additive_before_multiplicative(
    personal: Seq<Modifier>,
    t: ModifierTarget,
    ma: Modifier,
    mm: Modifier,
    a: i64,
    m: i64,
    native: int,
)
    requires
        ma.target == t,
        mm.target == t,
        ma.application == ModifierApplication::Additive(a),
        mm.application == ModifierApplication::Multiplicative(m),
        matching(personal, t) == seq![ma, mm] || matching(personal, t) == seq![mm, ma],
    ensures
        effective_value(personal, Seq::<Modifier>::empty(), t, native) == sat(
            fp_div(sat(native + a) * (FP_ONE + m)),
        ),
{
    let w = matching(personal, t);
    lemma_find_override_matching(personal, t);
    lemma_find_override_exists(w, t);
    assert(find_override(personal, t) is None) by {
        if find_override(w, t) is Some {
            let i = choose|i: int|
                0 <= i < w.len() && (#[trigger] w[i]).target == t && w[i].application is Override;
            assert(i == 0 || i == 1);
        }
    }
    assert(find_override(Seq::<Modifier>::empty(), t) is None);
    lemma_apply_pass_matching(personal, t, true, native);
    let v1 = apply_pass(personal, t, true, native);
    lemma_apply_pass_matching(personal, t, false, v1);
    assert(apply_pass(Seq::<Modifier>::empty(), t, true, native) == native);
    assert(apply_pass(Seq::<Modifier>::empty(), t, false, apply_pass(personal, t, false, v1))
        == apply_pass(personal, t, false, v1));
    let va = sat(native + a);
    let vm = sat(fp_div(va * (FP_ONE + m)));
    let e = Seq::<Modifier>::empty();
    if matching(personal, t) == seq![ma, mm] {
        assert(w[0] == ma && w[1] == mm);
        assert(w.drop_first() =~= seq![mm]);
        assert(seq![mm].drop_first() =~= e);
        assert(pass_step(ma, t, true, native) == va);
        assert(apply_pass(w, t, true, native) == apply_pass(seq![mm], t, true, va));
        assert(pass_step(mm, t, true, va) == va);
        assert(apply_pass(seq![mm], t, true, va) == apply_pass(e, t, true, va));
        assert(apply_pass(w, t, true, native) == va);
        assert(pass_step(ma, t, false, va) == va);
        assert(apply_pass(w, t, false, va) == apply_pass(seq![mm], t, false, va));
        assert(pass_step(mm, t, false, va) == vm);
        assert(apply_pass(seq![mm], t, false, va) == apply_pass(e, t, false, vm));
        assert(apply_pass(w, t, false, va) == vm);
    } else {
        assert(w[0] == mm && w[1] == ma);
        assert(w.drop_first() =~= seq![ma]);
        assert(seq![ma].drop_first() =~= e);
        assert(pass_step(mm, t, true, native) == native);
        assert(apply_pass(w, t, true, native) == apply_pass(seq![ma], t, true, native));
        assert(pass_step(ma, t, true, native) == va);
        assert(apply_pass(seq![ma], t, true, native) == apply_pass(e, t, true, va));
        assert(apply_pass(w, t, true, native) == va);
        assert(pass_step(mm, t, false, va) == vm);
        assert(apply_pass(w, t, false, va) == apply_pass(seq![ma], t, false, vm));
        assert(pass_step(ma, t, false, vm) == vm);
        assert(apply_pass(seq![ma], t, false, vm) == apply_pass(e, t, false, vm));
        assert(apply_pass(w, t, false, va) == vm);
    }
}

/// No rule that survives an aging pass carries duration zero.
proof fn lemma_ticked_alive(ms: Seq<Modifier>)
    ensures
        forall|j: int|
            0 <= j < ticked(ms).len() ==> (#[trigger] ticked(ms)[j]).duration != Some(0u32),
    decreases ms.len(),
{
    if ms.len() > 0 {
        lemma_ticked_alive(ms.drop_first());
        let m1 = tick_one(ms[0]);
        if keeps_after_tick(m1) {
            assert(ticked(ms) == seq![m1] + ticked(ms.drop_first()));
            assert forall|j: int|
                0 <= j < ticked(ms).len() implies (#[trigger] ticked(ms)[j]).duration != Some(
                0u32,
            ) by {
                if j > 0 {
                    assert(ticked(ms)[j] == ticked(ms.drop_first())[j - 1]);
                }
            }
        }
    }
}

/// A rule that survives its aging pass is present in the aged sequence.
proof fn lemma_ticked_contains(ms: Seq<Modifier>, i: int)
    requires
        0 <= i < ms.len(),
        keeps_after_tick(tick_one(ms[i])),
    ensures
        ticked(ms).contains(tick_one(ms[i])),
    decreases ms.len(),
{
    let m1 = tick_one(ms[0]);
    if i == 0 {
        assert(ticked(ms)[0] == tick_one(ms[0]));
    } else {
        lemma_ticked_contains(ms.drop_first(), i - 1);
        assert(ms.drop_first()[i - 1] == ms[i]);
        let j = choose|j: int|
            0 <= j < ticked(ms.drop_first()).len() && ticked(ms.drop_first())[j] == tick_one(
                ms[i],
            );
        if keeps_after_tick(m1) {
            assert(ticked(ms) == seq![m1] + ticked(ms.drop_first()));
            assert(ticked(ms)[j + 1] == tick_one(ms[i]));
        }
    }
}

/// Duration aging: a rule created with duration 2 survives exactly two aging
/// passes -- after one pass it is still held, now with duration 1; after the
/// second pass no rule equal to its twice-aged form remains.
pub proof fn lemma_duration_two_ticks(ms: Seq<Modifier>, i: int)
    requires
        0 <= i < ms.len(),
        ms[i].duration == Some(2u32),
    ensures
        ticked(ms).contains(tick_one(ms[i])),
        tick_one(ms[i]).duration == Some(1u32),
        forall|j: int|
            0 <= j < ticked(ticked(ms)).len() ==> #[trigger] ticked(ticked(ms))[j] != tick_one(
                tick_one(ms[i]),
            ),
{
    lemma_ticked_contains(ms, i);
    lemma_ticked_alive(ticked(ms));
    assert(tick_one(tick_one(ms[i])).duration == Some(0u32));
}


/// A predicate over member state, gating organization-wide rules.
#[derive(Debug)]
pub enum ModifierCondition {
    CultivationLevelEquals(CultivationLevel),
    CultivationLevelGreaterThan(CultivationLevel),
    CultivationLevelLessThan(CultivationLevel),
    CultivationLevelGreaterOrEqual(CultivationLevel),
    CultivationLevelLessOrEqual(CultivationLevel),
    DiscipleTypeEquals(DiscipleType),
    DaoHeartGreaterThan(u32),
    DaoHeartLessThan(u32),
    EnergyGreaterThan(u32),
    EnergyLessThan(u32),
    ConstitutionGreaterThan(u32),
    ConstitutionLessThan(u32),
    AgeGreaterThan(u32),
    AgeLessThan(u32),
    AgeEquals(u32),
    HasTalent(TalentType),
    TalentLevelGreaterThan(TalentType, u32),
    TalentLevelEquals(TalentType, u32),
    HasDaoCompanion,
    HasMaster,
    HasDisciples,
    RelationLevelGreaterOrEqual(usize, RelationDimension, RelationLevel),
    And(Vec<ModifierCondition>),
    Or(Vec<ModifierCondition>),
    Not(Box<ModifierCondition>),
    Always,
}

/// What a condition means of a member's state. Tier comparisons follow the
/// tiers' total order; talent checks look at the first talent of the named
/// type; And, Or and Not compose recursively; Always holds of everyone.
pub open spec fn check_spec(c: ModifierCondition, d: Disciple) -> bool
    decreases c,
{
    match c {
        ModifierCondition::CultivationLevelEquals(l) => d.cultivation.current_level == l,
        ModifierCondition::CultivationLevelGreaterThan(l) => d.cultivation.current_level.to_numeric_spec() > l.to_numeric_spec(),
        ModifierCondition::CultivationLevelLessThan(l) => d.cultivation.current_level.to_numeric_spec() < l.to_numeric_spec(),
        ModifierCondition::CultivationLevelGreaterOrEqual(l) => d.cultivation.current_level.to_numeric_spec() >= l.to_numeric_spec(),
        ModifierCondition::CultivationLevelLessOrEqual(l) => d.cultivation.current_level.to_numeric_spec() <= l.to_numeric_spec(),
        ModifierCondition::DiscipleTypeEquals(t) => d.disciple_type == t,
        ModifierCondition::DaoHeartGreaterThan(v) => d.dao_heart > v,
        ModifierCondition::DaoHeartLessThan(v) => d.dao_heart < v,
        ModifierCondition::EnergyGreaterThan(v) => d.energy > v,
        ModifierCondition::EnergyLessThan(v) => d.energy < v,
        ModifierCondition::ConstitutionGreaterThan(v) => d.constitution > v,
        ModifierCondition::ConstitutionLessThan(v) => d.constitution < v,
        ModifierCondition::AgeGreaterThan(v) => d.age > v,
        ModifierCondition::AgeLessThan(v) => d.age < v,
        ModifierCondition::AgeEquals(v) => d.age == v,
        ModifierCondition::HasTalent(tt) => find_talent(d.talents@, tt) is Some,
        ModifierCondition::TalentLevelGreaterThan(tt, lv) => (find_talent(d.talents@, tt) matches
            Some(t) && t.level > lv),
        ModifierCondition::TalentLevelEquals(tt, lv) => (find_talent(d.talents@, tt) matches Some(
            t,
        ) && t.level == lv),
        ModifierCondition::HasDaoCompanion => companion_of(d.relationships@) is Some,
        ModifierCondition::HasMaster => master_of(d.relationships@) is Some,
        ModifierCondition::HasDisciples => student_ids(d.relationships@).len() > 0,
        ModifierCondition::RelationLevelGreaterOrEqual(id, dim, lv) => (find_rel(
            d.relationships@,
            id as int,
        ) matches Some(rel) && level_rank(level_from_score(rel.scores.get_spec(dim))) >= level_rank(
            lv,
        )),
        ModifierCondition::And(cs) => forall|i: int|
            0 <= i < cs@.len() ==> check_spec(#[trigger] cs@[i], d),
        ModifierCondition::Or(cs) => exists|i: int|
            0 <= i < cs@.len() && check_spec(#[trigger] cs@[i], d),
        ModifierCondition::Not(b) => !check_spec(*b, d),
        ModifierCondition::Always => true,
    }
}

impl ModifierCondition {
    /// Evaluate the condition against a member's state.
    pub fn check(&self, disciple: &Disciple) -> (r: bool)
        ensures
            r == check_spec(*self, *disciple),
        decreases *self,
    {
        match self {
            ModifierCondition::CultivationLevelEquals(l) => {
                disciple.cultivation.current_level.to_numeric() == l.to_numeric()
                    && disciple.cultivation.current_level.requires_tribulation()
                    == l.requires_tribulation()
            },
            ModifierCondition::CultivationLevelGreaterThan(l) => {
                disciple.cultivation.current_level.to_numeric() > l.to_numeric()
            },
            ModifierCondition::CultivationLevelLessThan(l) => {
                disciple.cultivation.current_level.to_numeric() < l.to_numeric()
            },
            ModifierCondition::CultivationLevelGreaterOrEqual(l) => {
                disciple.cultivation.current_level.to_numeric() >= l.to_numeric()
            },
            ModifierCondition::CultivationLevelLessOrEqual(l) => {
                disciple.cultivation.current_level.to_numeric() <= l.to_numeric()
            },
            ModifierCondition::DiscipleTypeEquals(t) => disciple.disciple_type == *t,
            ModifierCondition::DaoHeartGreaterThan(v) => disciple.dao_heart > *v,
            ModifierCondition::DaoHeartLessThan(v) => disciple.dao_heart < *v,
            ModifierCondition::EnergyGreaterThan(v) => disciple.energy > *v,
            ModifierCondition::EnergyLessThan(v) => disciple.energy < *v,
            ModifierCondition::ConstitutionGreaterThan(v) => disciple.constitution > *v,
            ModifierCondition::ConstitutionLessThan(v) => disciple.constitution < *v,
            ModifierCondition::AgeGreaterThan(v) => disciple.age > *v,
            ModifierCondition::AgeLessThan(v) => disciple.age < *v,
            ModifierCondition::AgeEquals(v) => disciple.age == *v,
            ModifierCondition::HasTalent(tt) => find_talent_level(disciple, tt).is_some(),
            ModifierCondition::TalentLevelGreaterThan(tt, lv) => {
                match find_talent_level(disciple, tt) {
                    Some(level) => level > *lv,
                    None => false,
                }
            },
            ModifierCondition::TalentLevelEquals(tt, lv) => {
                match find_talent_level(disciple, tt) {
                    Some(level) => level == *lv,
                    None => false,
                }
            },
            ModifierCondition::HasDaoCompanion => disciple.has_dao_companion(),
            ModifierCondition::HasMaster => disciple.get_master_id().is_some(),
            ModifierCondition::HasDisciples => disciple.get_disciple_ids().len() > 0,
            ModifierCondition::RelationLevelGreaterOrEqual(id, dim, lv) => {
                match disciple.get_relationship(*id) {
                    Some(rel) => {
                        let level = rel.scores.get_level(*dim);
                        level.rank() >= lv.rank()
                    },
                    None => false,
                }
            },
            ModifierCondition::And(cs) => {
                let n = cs.len();
                let mut i: usize = 0;
                while i < n
                    invariant
                        0 <= i <= n,
                        n == cs@.len(),
                        *self == ModifierCondition::And(*cs),
                        forall|k: int| 0 <= k < i ==> check_spec(#[trigger] cs@[k], *disciple),
                    decreases n - i,
                {
                    proof {
                        vstd::std_specs::vec::axiom_vec_index_decreases(*cs, i as int);
                        assert(decreases_to!(*self => (*self)->And_0));
                        assert(decreases_to!(*self => cs@[i as int]));
                    }
                    if !cs[i].check(disciple) {
                        proof {
                            assert(!check_spec(cs@[i as int], *disciple));
                            assert(check_spec(*self, *disciple) == (forall|k: int|
                                0 <= k < cs@.len() ==> check_spec(#[trigger] cs@[k], *disciple)));
                        }
                        return false;
                    }
                    i = i + 1;
                }
                true
            },
            ModifierCondition::Or(cs) => {
                let n = cs.len();
                let mut i: usize = 0;
                while i < n
                    invariant
                        0 <= i <= n,
                        n == cs@.len(),
                        *self == ModifierCondition::Or(*cs),
                        forall|k: int| 0 <= k < i ==> !check_spec(#[trigger] cs@[k], *disciple),
                    decreases n - i,
                {
                    proof {
                        vstd::std_specs::vec::axiom_vec_index_decreases(*cs, i as int);
                        assert(decreases_to!(*self => (*self)->Or_0));
                        assert(decreases_to!(*self => cs@[i as int]));
                    }
                    if cs[i].check(disciple) {
                        proof {
                            assert(check_spec(*self, *disciple) == (exists|k: int|
                                0 <= k < cs@.len() && check_spec(#[trigger] cs@[k], *disciple)));
                        }
                        return true;
                    }
                    i = i + 1;
                }
                false
            },
            ModifierCondition::Not(b) => !b.check(disciple),
            ModifierCondition::Always => true,
        }
    }

}

/// The level of the first talent of the given type, if any.
fn find_talent_level(disciple: &Disciple, tt: &TalentType) -> (r: Option<u32>)
    ensures
        r == (match find_talent(disciple.talents@, *tt) {
            Some(t) => Some(t.level),
            None => None::<u32>,
        }),
{
    let ghost ts = disciple.talents@;
    let n = disciple.talents.len();
    proof {
        assert(ts.subrange(0, n as int) =~= ts);
    }
    let mut i: usize = 0;
    while i < n
        invariant
            0 <= i <= n,
            n == ts.len(),
            disciple.talents@ == ts,
            find_talent(ts, *tt) == find_talent(ts.subrange(i as int, n as int), *tt),
        decreases n - i,
    {
        proof {
            lemma_find_talent_split_local(ts, *tt, i as int);
        }
        if disciple.talents[i].talent_type == *tt {
            return Some(disciple.talents[i].level);
        }
        i = i + 1;
    }
    proof {
        assert(ts.subrange(n as int, n as int) =~= Seq::<crate::disciple::Talent>::empty());
    }
    None
}

proof fn lemma_find_talent_split_local(ts: Seq<crate::disciple::Talent>, tt: TalentType, i: int)
    requires
        0 <= i < ts.len(),
    ensures
        find_talent(ts.subrange(i, ts.len() as int), tt) == (if ts[i].talent_type == tt {
            Some(ts[i])
        } else {
            find_talent(ts.subrange(i + 1, ts.len() as int), tt)
        }),
{
    assert(ts.subrange(i, ts.len() as int).drop_first() =~= ts.subrange(i + 1, ts.len() as int));
}

/// A rule gated by a condition on member state: organization-wide rules that
/// apply only to matching members.
#[derive(Debug)]
pub struct ConditionalModifier {
    pub condition: ModifierCondition,
    pub modifier: Modifier,
}

impl ConditionalModifier {
    pub fn new(condition: ModifierCondition, modifier: Modifier) -> (r: ConditionalModifier)
        ensures
            r.condition == condition,
            r.modifier == modifier,
    {
        ConditionalModifier { condition, modifier }
    }

    /// Whether the gated rule applies to the given member.
    pub fn applies_to(&self, disciple: &Disciple) -> (r: bool)
        ensures
            r == check_spec(self.condition, *disciple),
    {
        self.condition.check(disciple)
    }

    /// The gated rule, when it applies to the given member.
    pub fn get_modifier_if_applies<'a>(&'a self, disciple: &Disciple) -> (r: Option<&'a Modifier>)
        ensures
            check_spec(self.condition, *disciple) ==> r == Some(&self.modifier),
            !check_spec(self.condition, *disciple) ==> r is None,
    {
        if self.applies_to(disciple) {
            Some(&self.modifier)
        } else {
            None
        }
    }
}

} // verus!
