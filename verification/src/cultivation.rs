//! The two-level power ladder: seven ordered major tiers, each divided into
//! three sub-tiers, plus the per-tier quota path that gates major promotion.

use vstd::prelude::*;
use crate::task::TaskCategory;

verus! {

/// The sub-tier within a major cultivation tier.
#[derive(Debug, Clone, Copy, PartialEq, Eq, Structural)]
pub enum SubLevel {
    Early,
    Middle,
    Perfect,
}

impl SubLevel {
    /// Numeric rank of the sub-tier: Early = 0, Middle = 1, Perfect = 2.
    pub open spec fn rank_spec(self) -> int {
        match self {
            SubLevel::Early => 0,
            SubLevel::Middle => 1,
            SubLevel::Perfect => 2,
        }
    }

    /// The successor sub-tier, if any.
    pub open spec fn next_spec(self) -> Option<SubLevel> {
        match self {
            SubLevel::Early => Some(SubLevel::Middle),
            SubLevel::Middle => Some(SubLevel::Perfect),
            SubLevel::Perfect => None,
        }
    }

    pub fn rank(&self) -> (r: u32)
        ensures
            r == self.rank_spec(),
    {
        match self {
            SubLevel::Early => 0,
            SubLevel::Middle => 1,
            SubLevel::Perfect => 2,
        }
    }

    pub fn next(&self) -> (r: Option<SubLevel>)
        ensures
            r == self.next_spec(),
    {
        match self {
            SubLevel::Early => Some(SubLevel::Middle),
            SubLevel::Middle => Some(SubLevel::Perfect),
            SubLevel::Perfect => None,
        }
    }
}

/// The major cultivation tier, an ordered ladder of seven stages.
#[derive(Debug, Clone, Copy, PartialEq, Eq, Structural)]
pub enum CultivationLevel {
    QiRefining,
    Foundation,
    GoldenCore,
    NascentSoul,
    SpiritSevering,
    VoidRefinement,
    Ascension,
}

impl CultivationLevel {
    /// Numeric rank of the tier, from QiRefining = 0 up to Ascension = 6.
    pub open spec fn to_numeric_spec(self) -> int {
        match self {
            CultivationLevel::QiRefining => 0,
            CultivationLevel::Foundation => 1,
            CultivationLevel::GoldenCore => 2,
            CultivationLevel::NascentSoul => 3,
            CultivationLevel::SpiritSevering => 4,
            CultivationLevel::VoidRefinement => 5,
            CultivationLevel::Ascension => 6,
        }
    }

    pub fn to_numeric(&self) -> (r: u32)
        ensures
            r == self.to_numeric_spec(),
    {
        match self {
            CultivationLevel::QiRefining => 0,
            CultivationLevel::Foundation => 1,
            CultivationLevel::GoldenCore => 2,
            CultivationLevel::NascentSoul => 3,
            CultivationLevel::SpiritSevering => 4,
            CultivationLevel::VoidRefinement => 5,
            CultivationLevel::Ascension => 6,
        }
    }

    /// The base lifespan, in years, granted on reaching the tier.
    pub open spec fn base_lifespan_spec(self) -> int {
        match self {
            CultivationLevel::QiRefining => 150,
            CultivationLevel::Foundation => 300,
            CultivationLevel::GoldenCore => 500,
            CultivationLevel::NascentSoul => 1000,
            CultivationLevel::SpiritSevering => 2000,
            CultivationLevel::VoidRefinement => 5000,
            CultivationLevel::Ascension => u32::MAX as int,
        }
    }

    pub fn base_lifespan(&self) -> (r: u32)
        ensures
            r == self.base_lifespan_spec(),
    {
        match self {
            CultivationLevel::QiRefining => 150,
            CultivationLevel::Foundation => 300,
            CultivationLevel::GoldenCore => 500,
            CultivationLevel::NascentSoul => 1000,
            CultivationLevel::SpiritSevering => 2000,
            CultivationLevel::VoidRefinement => 5000,
            CultivationLevel::Ascension => u32::MAX,
        }
    }

    /// Whether promotion *into* this tier requires a tribulation roll.
    /// Every tier but the lowest does.
    pub open spec fn requires_tribulation_spec(self) -> bool {
        self != CultivationLevel::QiRefining
    }

    pub fn requires_tribulation(&self) -> (r: bool)
        ensures
            r == self.requires_tribulation_spec(),
    {
        match self {
            CultivationLevel::QiRefining => false,
            _ => true,
        }
    }

    /// The successor tier, if any.
    pub open spec fn next_spec(self) -> Option<CultivationLevel> {
        match self {
            CultivationLevel::QiRefining => Some(CultivationLevel::Foundation),
            CultivationLevel::Foundation => Some(CultivationLevel::GoldenCore),
            CultivationLevel::GoldenCore => Some(CultivationLevel::NascentSoul),
            CultivationLevel::NascentSoul => Some(CultivationLevel::SpiritSevering),
            CultivationLevel::SpiritSevering => Some(CultivationLevel::VoidRefinement),
            CultivationLevel::VoidRefinement => Some(CultivationLevel::Ascension),
            CultivationLevel::Ascension => None,
        }
    }

    pub fn next(&self) -> (r: Option<CultivationLevel>)
        ensures
            r == self.next_spec(),
    {
        match self {
            CultivationLevel::QiRefining => Some(CultivationLevel::Foundation),
            CultivationLevel::Foundation => Some(CultivationLevel::GoldenCore),
            CultivationLevel::GoldenCore => Some(CultivationLevel::NascentSoul),
            CultivationLevel::NascentSoul => Some(CultivationLevel::SpiritSevering),
            CultivationLevel::SpiritSevering => Some(CultivationLevel::VoidRefinement),
            CultivationLevel::VoidRefinement => Some(CultivationLevel::Ascension),
            CultivationLevel::Ascension => None,
        }
    }

    /// How many map squares a member of this tier may move per turn.
    pub open spec fn movement_range_spec(self) -> int {
        self.to_numeric_spec() + 2
    }

    pub fn movement_range(&self) -> (r: u32)
        ensures
            r == self.movement_range_spec(),
    {
        self.to_numeric() + 2
    }
}


/// One requirement of a quota path: how many tasks of one category are
/// needed, and how many are done.
#[derive(Debug, Clone, Copy, PartialEq, Eq, Structural)]
pub struct QuotaEntry {
    pub category: TaskCategory,
    pub required: u32,
    pub completed: u32,
}

/// Whether the first entry for `category` (if any) can still be advanced.
pub open spec fn quota_can_advance(s: Seq<QuotaEntry>, category: TaskCategory) -> bool
    decreases s.len(),
{
    if s.len() == 0 {
        false
    } else if s[0].category == category {
        s[0].completed < s[0].required
    } else {
        quota_can_advance(s.drop_first(), category)
    }
}

/// The entries after crediting one completed task of `category`: the first
/// entry for the category gains one completed count if it is not yet met;
/// everything else is untouched.
pub open spec fn quota_credit(s: Seq<QuotaEntry>, category: TaskCategory) -> Seq<QuotaEntry>
    decreases s.len(),
{
    if s.len() == 0 {
        s
    } else if s[0].category == category {
        if s[0].completed < s[0].required {
            seq![QuotaEntry { completed: (s[0].completed + 1) as u32, ..s[0] }] + s.drop_first()
        } else {
            s
        }
    } else {
        seq![s[0]] + quota_credit(s.drop_first(), category)
    }
}

/// Sum of the required counts, capped at u32::MAX.
pub open spec fn quota_sum_required(s: Seq<QuotaEntry>) -> int
    decreases s.len(),
{
    if s.len() == 0 {
        0
    } else {
        let rest = quota_sum_required(s.drop_first());
        if s[0].required + rest > u32::MAX {
            u32::MAX as int
        } else {
            s[0].required + rest
        }
    }
}

/// Sum of the completed counts, capped at u32::MAX.
pub open spec fn quota_sum_completed(s: Seq<QuotaEntry>) -> int
    decreases s.len(),
{
    if s.len() == 0 {
        0
    } else {
        let rest = quota_sum_completed(s.drop_first());
        if s[0].completed + rest > u32::MAX {
            u32::MAX as int
        } else {
            s[0].completed + rest
        }
    }
}

/// The first entry for `category`, if any.
pub open spec fn quota_find(s: Seq<QuotaEntry>, category: TaskCategory) -> Option<QuotaEntry>
    decreases s.len(),
{
    if s.len() == 0 {
        None
    } else if s[0].category == category {
        Some(s[0])
    } else {
        quota_find(s.drop_first(), category)
    }
}

/// The quota path gating a major promotion: a count of tasks per category
/// that must be completed before the member may attempt to advance.
#[derive(Debug, Clone)]
pub struct CultivationPath {
    pub entries: Vec<QuotaEntry>,
}

impl CultivationPath {
    /// Categories are unique and no completed count exceeds its requirement.
    pub open spec fn wf(self) -> bool {
        (forall|i: int, j: int|
            0 <= i < j < self.entries@.len() ==> self.entries@[i].category
                != self.entries@[j].category) && (forall|i: int|
            0 <= i < self.entries@.len() ==> (#[trigger] self.entries@[i]).completed
                <= self.entries@[i].required)
    }

    /// Every requirement is met.
    pub open spec fn satisfied(self) -> bool {
        forall|i: int|
            0 <= i < self.entries@.len() ==> (#[trigger] self.entries@[i]).completed
                >= self.entries@[i].required
    }

    /// An empty path: no requirements, trivially satisfied.
    pub fn new() -> (r: CultivationPath)
        ensures
            r.entries@ =~= Seq::<QuotaEntry>::empty(),
            r.wf(),
            r.satisfied(),
    {
        CultivationPath { entries: Vec::new() }
    }

    /// A path demanding `requirements`, with nothing completed yet.
    pub fn with_requirements(requirements: Vec<(TaskCategory, u32)>) -> (r: CultivationPath)
        requires
            forall|i: int, j: int|
                0 <= i < j < requirements@.len() ==> requirements@[i].0 != requirements@[j].0,
        ensures
            r.wf(),
            r.entries@.len() == requirements@.len(),
            forall|i: int|
                0 <= i < requirements@.len() ==> r.entries@[i] == (QuotaEntry {
                    category: requirements@[i].0,
                    required: requirements@[i].1,
                    completed: 0u32,
                }),
    {
        let n = requirements.len();
        let mut entries: Vec<QuotaEntry> = Vec::new();
        let mut i: usize = 0;
        while i < n
            invariant
                0 <= i <= n,
                n == requirements@.len(),
                entries@.len() == i,
                forall|k: int|
                    0 <= k < i ==> entries@[k] == (QuotaEntry {
                        category: requirements@[k].0,
                        required: requirements@[k].1,
                        completed: 0u32,
                    }),
            decreases n - i,
        {
            let (category, required) = requirements[i];
            entries.push(QuotaEntry { category, required, completed: 0 });
            i = i + 1;
        }
        CultivationPath { entries }
    }

    /// Whether every requirement is met.
    pub fn is_completed(&self) -> (r: bool)
        ensures
            r == self.satisfied(),
    {
        let n = self.entries.len();
        let mut i: usize = 0;
        while i < n
            invariant
                0 <= i <= n,
                n == self.entries@.len(),
                forall|k: int|
                    0 <= k < i ==> (#[trigger] self.entries@[k]).completed
                        >= self.entries@[k].required,
            decreases n - i,
        {
            if self.entries[i].completed < self.entries[i].required {
                return false;
            }
            i = i + 1;
        }
        true
    }

    /// Credit one completed task of `category`. Categories without a
    /// requirement are ignored; a category already met is left alone.
    /// Reports whether a count advanced.
    pub fn complete_task_by_type(&mut self, category: TaskCategory) -> (advanced: bool)
        requires
            old(self).wf(),
        ensures
            final(self).wf(),
            advanced == quota_can_advance(old(self).entries@, category),
            final(self).entries@ == quota_credit(old(self).entries@, category),
    {
        let ghost orig = self.entries@;
        proof {
            assert(orig.subrange(0, orig.len() as int) =~= orig);
        }
        let n = self.entries.len();
        let mut i: usize = 0;
        while i < n
            invariant
                0 <= i <= n,
                n == orig.len(),
                self.entries@ == orig,
                orig == old(self).entries@,
                old(self).wf(),
                forall|k: int| 0 <= k < i ==> (#[trigger] orig[k]).category != category,
                quota_can_advance(orig, category) == quota_can_advance(
                    orig.subrange(i as int, n as int),
                    category,
                ),
                quota_credit(orig, category) == orig.subrange(0, i as int) + quota_credit(
                    orig.subrange(i as int, n as int),
                    category,
                ),
            decreases n - i,
        {
            proof {
                lemma_quota_split(orig, category, i as int);
            }
            let e = self.entries[i];
            if e.category == category {
                if e.completed < e.required {
                    let updated = QuotaEntry { completed: e.completed + 1, ..e };
                    self.entries.set(i, updated);
                    proof {
                        assert(self.entries@ =~= orig.subrange(0, i as int) + (seq![updated]
                            + orig.subrange(i as int + 1, n as int)));
                        assert(self.entries@ =~= quota_credit(orig, category));
                        lemma_quota_credit_wf(old(self).entries@, category);
                    }
                    return true;
                } else {
                    proof {
                        assert(orig.subrange(0, i as int) + orig.subrange(i as int, n as int)
                            =~= orig);
                        assert(self.entries@ =~= quota_credit(orig, category));
                        lemma_quota_credit_wf(old(self).entries@, category);
                    }
                    return false;
                }
            }
            proof {
                assert(orig.subrange(0, i as int) + (seq![orig[i as int]] + quota_credit(
                    orig.subrange(i as int + 1, n as int),
                    category,
                )) =~= orig.subrange(0, i as int + 1) + quota_credit(
                    orig.subrange(i as int + 1, n as int),
                    category,
                ));
            }
            i = i + 1;
        }
        proof {
            assert(orig.subrange(n as int, n as int) =~= Seq::<QuotaEntry>::empty());
            assert(orig.subrange(0, n as int) + Seq::<QuotaEntry>::empty() =~= orig);
            assert(self.entries@ =~= quota_credit(orig, category));
            lemma_quota_credit_wf(old(self).entries@, category);
        }
        false
    }

    /// Total completed and total required, each capped at u32::MAX.
    pub fn progress(&self) -> (r: (u32, u32))
        ensures
            r.0 == quota_sum_completed(self.entries@),
            r.1 == quota_sum_required(self.entries@),
    {
        let ghost s = self.entries@;
        let n = self.entries.len();
        proof {
            assert(s.subrange(n as int, n as int) =~= Seq::<QuotaEntry>::empty());
        }
        let mut total_completed: u32 = 0;
        let mut total_required: u32 = 0;
        let mut i: usize = n;
        while i > 0
            invariant
                0 <= i <= n,
                n == s.len(),
                self.entries@ == s,
                total_completed == quota_sum_completed(s.subrange(i as int, n as int)),
                total_required == quota_sum_required(s.subrange(i as int, n as int)),
            decreases i,
        {
            i = i - 1;
            proof {
                lemma_quota_sum_split(s, i as int);
            }
            let e = self.entries[i];
            total_completed = if e.completed > u32::MAX - total_completed {
                u32::MAX
            } else {
                e.completed + total_completed
            };
            total_required = if e.required > u32::MAX - total_required {
                u32::MAX
            } else {
                e.required + total_required
            };
        }
        proof {
            assert(s.subrange(0, n as int) =~= s);
        }
        (total_completed, total_required)
    }

    /// The completed and required counts of one category, zero for one that
    /// has no requirement.
    pub fn progress_by_type(&self, category: TaskCategory) -> (r: (u32, u32))
        ensures
            r == (match quota_find(self.entries@, category) {
                Some(e) => (e.completed, e.required),
                None => (0u32, 0u32),
            }),
    {
        let ghost s = self.entries@;
        proof {
            assert(s.subrange(0, s.len() as int) =~= s);
        }
        let n = self.entries.len();
        let mut i: usize = 0;
        while i < n
            invariant
                0 <= i <= n,
                n == s.len(),
                self.entries@ == s,
                quota_find(s, category) == quota_find(s.subrange(i as int, n as int), category),
            decreases n - i,
        {
            proof {
                lemma_quota_find_split(s, category, i as int);
            }
            let e = self.entries[i];
            if e.category == category {
                return (e.completed, e.required);
            }
            i = i + 1;
        }
        proof {
            assert(s.subrange(n as int, n as int) =~= Seq::<QuotaEntry>::empty());
        }
        (0, 0)
    }
}

/// Crediting a category not present in the requirements changes nothing and
/// reports no advance: crediting is idempotent on absent categories.
pub proof fn lemma_quota_absent_category(s: Seq<QuotaEntry>, category: TaskCategory)
    requires
        forall|i: int| 0 <= i < s.len() ==> (#[trigger] s[i]).category != category,
    ensures
        quota_credit(s, category) == s,
        !quota_can_advance(s, category),
    decreases s.len(),
{
    if s.len() > 0 {
        assert(forall|i: int|
            0 <= i < s.drop_first().len() ==> #[trigger] s.drop_first()[i] == s[i + 1]);
        lemma_quota_absent_category(s.drop_first(), category);
        assert(quota_credit(s, category) =~= s);
    }
}

proof fn lemma_quota_split(s: Seq<QuotaEntry>, category: TaskCategory, i: int)
    requires
        0 <= i < s.len(),
    ensures
        quota_can_advance(s.subrange(i, s.len() as int), category) == (if s[i].category
            == category {
            s[i].completed < s[i].required
        } else {
            quota_can_advance(s.subrange(i + 1, s.len() as int), category)
        }),
        quota_credit(s.subrange(i, s.len() as int), category) == (if s[i].category == category {
            if s[i].completed < s[i].required {
                seq![QuotaEntry { completed: (s[i].completed + 1) as u32, ..s[i] }] + s.subrange(
                    i + 1,
                    s.len() as int,
                )
            } else {
                s.subrange(i, s.len() as int)
            }
        } else {
            seq![s[i]] + quota_credit(s.subrange(i + 1, s.len() as int), category)
        }),
{
    assert(s.subrange(i, s.len() as int).drop_first() =~= s.subrange(i + 1, s.len() as int));
}

proof fn lemma_quota_find_split(s: Seq<QuotaEntry>, category: TaskCategory, i: int)
    requires
        0 <= i < s.len(),
    ensures
        quota_find(s.subrange(i, s.len() as int), category) == (if s[i].category == category {
            Some(s[i])
        } else {
            quota_find(s.subrange(i + 1, s.len() as int), category)
        }),
{
    assert(s.subrange(i, s.len() as int).drop_first() =~= s.subrange(i + 1, s.len() as int));
}

proof fn lemma_quota_sum_split(s: Seq<QuotaEntry>, i: int)
    requires
        0 <= i < s.len(),
    ensures
        quota_sum_completed(s.subrange(i, s.len() as int)) == ({
            let rest = quota_sum_completed(s.subrange(i + 1, s.len() as int));
            if s[i].completed + rest > u32::MAX {
                u32::MAX as int
            } else {
                s[i].completed + rest
            }
        }),
        quota_sum_required(s.subrange(i, s.len() as int)) == ({
            let rest = quota_sum_required(s.subrange(i + 1, s.len() as int));
            if s[i].required + rest > u32::MAX {
                u32::MAX as int
            } else {
                s[i].required + rest
            }
        }),
{
    assert(s.subrange(i, s.len() as int).drop_first() =~= s.subrange(i + 1, s.len() as int));
}

/// Crediting keeps the path well formed.
proof fn lemma_quota_credit_wf(s: Seq<QuotaEntry>, category: TaskCategory)
    requires
        forall|i: int, j: int| 0 <= i < j < s.len() ==> s[i].category != s[j].category,
        forall|i: int| 0 <= i < s.len() ==> (#[trigger] s[i]).completed <= s[i].required,
    ensures
        quota_credit(s, category).len() == s.len(),
        forall|i: int, j: int|
            0 <= i < j < s.len() ==> quota_credit(s, category)[i].category != quota_credit(
                s,
                category,
            )[j].category,
        forall|i: int|
            0 <= i < s.len() ==> (#[trigger] quota_credit(s, category)[i]).completed
                <= quota_credit(s, category)[i].required,
        forall|i: int|
            0 <= i < s.len() ==> (#[trigger] quota_credit(s, category)[i]).category
                == s[i].category,
    decreases s.len(),
{
    if s.len() > 0 {
        let rest = s.drop_first();
        assert(forall|i: int| 0 <= i < rest.len() ==> #[trigger] rest[i] == s[i + 1]);
        lemma_quota_credit_wf(rest, category);
        let w = quota_credit(s, category);
        if s[0].category == category {
            if s[0].completed < s[0].required {
                assert(forall|i: int| 0 < i < w.len() ==> #[trigger] w[i] == s[i]);
            }
        } else {
            let wr = quota_credit(rest, category);
            assert(w == seq![s[0]] + wr);
            assert(forall|i: int| 0 < i < w.len() ==> #[trigger] w[i] == wr[i - 1]);
        }
    }
}

} // verus!
