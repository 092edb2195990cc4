//! The organization aggregate: its members, shared resources, reputation,
//! stored pills, organization-wide conditional rules and construction tree.

use vstd::prelude::*;
use crate::building::{
    BuildingTree, BuildingError, built_mods, build_cost_spec, can_build_spec, all_mods_wf,
};
use crate::cultivation::CultivationLevel;
use crate::disciple::{
    Disciple, DiscipleType, Heritage, heritage_bonus_for, find_rel, rel_pos, ensured_rels,
    companion_of, master_of,
};
use crate::modifier::{ConditionalModifier, Modifier, check_spec};
use crate::pill::{PillInventory, HerbInventory};
use crate::relationship::{
    Relationship, RelationDimension, RelationLevel, add_result, level_from_score, level_rank,
};
use crate::task::TaskType;

verus! {

/// Why an organization-level request was refused.
#[derive(Debug, Clone, Copy, PartialEq, Eq, Structural)]
pub enum SectError {
    /// The named member does not exist or is no longer alive.
    MemberMissing,
    /// A member cannot form the requested bond with themselves.
    SelfRelation,
    /// The member already has a master.
    AlreadyHasMaster,
    /// A companion bond needs affection of at least 80 on both sides.
    AffectionTooLow,
    /// One of the pair already has a companion.
    AlreadyHasCompanion,
    /// No construction tree has been set up.
    NoBuildingTree,
    /// The resource pool cannot pay the cost.
    InsufficientResources,
    /// The construction tree refused the request.
    Construction(BuildingError),
    /// No such pill is in stock.
    PillUnavailable,
    /// The herb store cannot cover the recipe.
    InsufficientHerbs,
    /// No recipe makes the requested pill.
    NoRecipe,
    /// The target square is beyond the member's reach.
    OutOfRange,
    /// The member has no movement left this turn.
    NoMovesLeft,
}

/// Whether a member counts as alive.
pub open spec fn alive_spec(d: Disciple) -> bool {
    d.age < d.lifespan && d.constitution > 0
}

/// The first member with the given id, if any.
pub open spec fn find_disciple(ds: Seq<Disciple>, id: int) -> Option<Disciple>
    decreases ds.len(),
{
    if ds.len() == 0 {
        None
    } else if ds[0].id == id {
        Some(ds[0])
    } else {
        find_disciple(ds.drop_first(), id)
    }
}

/// The index of the first member with the given id; the length when absent.
pub open spec fn disciple_pos(ds: Seq<Disciple>, id: int) -> int
    decreases ds.len(),
{
    if ds.len() == 0 {
        0
    } else if ds[0].id == id {
        0
    } else {
        1 + disciple_pos(ds.drop_first(), id)
    }
}

/// Whether a member with the given id exists and is alive.
pub open spec fn has_alive(ds: Seq<Disciple>, id: int) -> bool {
    match find_disciple(ds, id) {
        Some(d) => alive_spec(d),
        None => false,
    }
}

/// The alive members, in roster order.
pub open spec fn alive_list(ds: Seq<Disciple>) -> Seq<Disciple>
    decreases ds.len(),
{
    if ds.len() == 0 {
        Seq::empty()
    } else if alive_spec(ds[0]) {
        seq![ds[0]] + alive_list(ds.drop_first())
    } else {
        alive_list(ds.drop_first())
    }
}

/// A member one turn older; dead members no longer age, and age saturates.
pub open spec fn aged(d: Disciple) -> Disciple {
    if alive_spec(d) && d.age < u32::MAX {
        Disciple { age: (d.age + 1) as u32, ..d }
    } else {
        d
    }
}

/// The roster after a yearly aging pass.
pub open spec fn aged_all(ds: Seq<Disciple>) -> Seq<Disciple>
    decreases ds.len(),
{
    if ds.len() == 0 {
        Seq::empty()
    } else {
        seq![aged(ds[0])] + aged_all(ds.drop_first())
    }
}

/// The legacy a member leaves, as a spec-level value.
pub open spec fn heritage_of(d: Disciple) -> Heritage {
    Heritage {
        name: d.name,
        level: d.cultivation.current_level,
        tribulation_bonus: heritage_bonus_for(d.cultivation.current_level) as i64,
    }
}

/// The legacies harvested by one aging pass: members who were alive, ran out
/// of lifespan by aging, and stand at the fourth tier or higher, in roster
/// order.
pub open spec fn harvest(ds: Seq<Disciple>) -> Seq<Heritage>
    decreases ds.len(),
{
    if ds.len() == 0 {
        Seq::empty()
    } else {
        let head = if alive_spec(ds[0]) && !alive_spec(aged(ds[0]))
            && ds[0].cultivation.current_level.to_numeric_spec() >= 3 {
            seq![heritage_of(aged(ds[0]))]
        } else {
            Seq::<Heritage>::empty()
        };
        head + harvest(ds.drop_first())
    }
}

/// Aging a roster acts member by member.
pub proof fn lemma_aged_all_index(ds: Seq<Disciple>)
    ensures
        aged_all(ds).len() == ds.len(),
        forall|k: int| 0 <= k < ds.len() ==> #[trigger] aged_all(ds)[k] == aged(ds[k]),
    decreases ds.len(),
{
    if ds.len() > 0 {
        lemma_aged_all_index(ds.drop_first());
        assert(forall|k: int|
            0 <= k < ds.drop_first().len() ==> #[trigger] ds.drop_first()[k] == ds[k + 1]);
        assert(forall|k: int|
            0 < k < aged_all(ds).len() ==> #[trigger] aged_all(ds)[k] == aged_all(
                ds.drop_first(),
            )[k - 1]);
        assert(aged_all(ds)[0] == aged(ds[0]));
    }
}

/// The rules of a conditional list that apply to a member, in list order.
pub open spec fn applicable(cms: Seq<ConditionalModifier>, d: Disciple) -> Seq<Modifier>
    decreases cms.len(),
{
    if cms.len() == 0 {
        Seq::empty()
    } else if check_spec(cms[0].condition, d) {
        seq![cms[0].modifier] + applicable(cms.drop_first(), d)
    } else {
        applicable(cms.drop_first(), d)
    }
}

/// Every organization-wide rule in scope for a member: directly registered
/// rules first, then rules granted by built structures.
pub open spec fn org_rules(s: Sect, d: Disciple) -> Seq<Modifier> {
    applicable(s.sect_modifiers@, d) + (match s.building_tree {
        Some(t) => applicable(built_mods(t.buildings@), d),
        None => Seq::<Modifier>::empty(),
    })
}

/// A sum capped at u32::MAX.
pub open spec fn cap_add_u32(a: int, b: int) -> int {
    if a + b > u32::MAX {
        u32::MAX as int
    } else {
        a + b
    }
}

/// A signed sum clamped into the i32 range.
pub open spec fn cap_add_i32(a: int, b: int) -> int {
    if a + b > i32::MAX {
        i32::MAX as int
    } else if a + b < i32::MIN {
        i32::MIN as int
    } else {
        a + b
    }
}

/// How many alive members are of the given standing.
pub open spec fn count_type(ds: Seq<Disciple>, t: DiscipleType) -> int
    decreases ds.len(),
{
    if ds.len() == 0 {
        0
    } else {
        (if alive_spec(ds[0]) && ds[0].disciple_type == t {
            1int
        } else {
            0int
        }) + count_type(ds.drop_first(), t)
    }
}

/// How many alive members stand at the given tier.
pub open spec fn count_level(ds: Seq<Disciple>, l: CultivationLevel) -> int
    decreases ds.len(),
{
    if ds.len() == 0 {
        0
    } else {
        (if alive_spec(ds[0]) && ds[0].cultivation.current_level == l {
            1int
        } else {
            0int
        }) + count_level(ds.drop_first(), l)
    }
}

/// A point-in-time summary of the organization.
#[derive(Debug)]
pub struct SectStatistics {
    pub total_disciples: usize,
    pub outer_disciples: usize,
    pub inner_disciples: usize,
    pub personal_disciples: usize,
    pub resources: u32,
    pub reputation: i32,
    pub year: u32,
    /// Alive members per major tier, lowest tier first.
    pub cultivation_distribution: Vec<usize>,
}

/// The organization.
#[derive(Debug)]
pub struct Sect {
    pub name: String,
    pub disciples: Vec<Disciple>,
    pub resources: u32,
    pub reputation: i32,
    pub is_immortal_sect: bool,
    pub heritages: Vec<Heritage>,
    pub year: u32,
    pub pill_inventory: PillInventory,
    pub herb_inventory: HerbInventory,
    pub sect_modifiers: Vec<ConditionalModifier>,
    pub building_tree: Option<BuildingTree>,
}

impl Sect {
    /// Every member, the pill store and the tree are well formed.
    pub open spec fn wf(&self) -> bool {
        &&& forall|i: int|
            0 <= i < self.disciples@.len() ==> (#[trigger] self.disciples@[i]).wf()
        &&& self.pill_inventory.wf()
        &&& self.herb_inventory.wf()
        &&& (self.building_tree matches Some(t) ==> t.wf() && all_mods_wf(t.buildings@))
        &&& forall|i: int|
            0 <= i < self.sect_modifiers@.len() ==> (#[trigger] self.sect_modifiers@[i]).modifier.wf()
    }

    /// A fresh organization with the starting resource pool.
    pub fn new(name: String) -> (s: Sect)
        ensures
            s.wf(),
            s.name == name,
            s.disciples@ =~= Seq::<Disciple>::empty(),
            s.resources == 1000,
            s.reputation == 0,
            !s.is_immortal_sect,
            s.heritages@ =~= Seq::<Heritage>::empty(),
            s.year == 0,
            s.sect_modifiers@ =~= Seq::<ConditionalModifier>::empty(),
            s.building_tree is None,
    {
        Sect {
            name,
            disciples: Vec::new(),
            resources: 1000,
            reputation: 0,
            is_immortal_sect: false,
            heritages: Vec::new(),
            year: 0,
            pill_inventory: PillInventory::new(),
            herb_inventory: HerbInventory::new(),
            sect_modifiers: Vec::new(),
            building_tree: None,
        }
    }

    /// Install the construction tree.
    pub fn init_building_tree(&mut self, building_tree: BuildingTree)
        ensures
            final(self).building_tree == Some(building_tree),
            *final(self) == (Sect { building_tree: Some(building_tree), ..*old(self) }),
    {
        self.building_tree = Some(building_tree);
    }

    /// Register an organization-wide conditional rule.
    pub fn add_sect_modifier(&mut self, conditional_modifier: ConditionalModifier)
        ensures
            final(self).sect_modifiers@ == old(self).sect_modifiers@.push(conditional_modifier),
            *final(self) == (Sect { sect_modifiers: final(self).sect_modifiers, ..*old(self) }),
    {
        self.sect_modifiers.push(conditional_modifier);
    }

    /// Withdraw the rule at the given index, if it exists.
    pub fn remove_sect_modifier(&mut self, index: usize) -> (r: Option<ConditionalModifier>)
        ensures
            index < old(self).sect_modifiers@.len() ==> r == Some(
                old(self).sect_modifiers@[index as int],
            ) && final(self).sect_modifiers@ == old(self).sect_modifiers@.remove(index as int),
            index >= old(self).sect_modifiers@.len() ==> r is None && final(self).sect_modifiers@
                == old(self).sect_modifiers@,
            *final(self) == (Sect { sect_modifiers: final(self).sect_modifiers, ..*old(self) }),
    {
        if index < self.sect_modifiers.len() {
            Some(self.sect_modifiers.remove(index))
        } else {
            None
        }
    }

    /// Withdraw every organization-wide rule.
    pub fn clear_sect_modifiers(&mut self)
        ensures
            final(self).sect_modifiers@ =~= Seq::<ConditionalModifier>::empty(),
            *final(self) == (Sect { sect_modifiers: final(self).sect_modifiers, ..*old(self) }),
    {
        self.sect_modifiers.clear();
    }

    /// Every organization-wide rule (directly registered, then granted by
    /// built structures) that applies to the member, as owned values.
    pub fn get_applicable_modifiers_owned(&self, disciple: &Disciple) -> (r: Vec<Modifier>)
        ensures
            r@ == org_rules(*self, *disciple),
            self.wf() ==> forall|i: int| 0 <= i < r@.len() ==> (#[trigger] r@[i]).wf(),
    {
        let ghost cms = self.sect_modifiers@;
        let n = self.sect_modifiers.len();
        proof {
            assert(cms.subrange(0, n as int) =~= cms);
            assert(Seq::<Modifier>::empty() + applicable(cms, *disciple) =~= applicable(
                cms,
                *disciple,
            ));
        }
        let mut out: Vec<Modifier> = Vec::new();
        let mut i: usize = 0;
        while i < n
            invariant
                0 <= i <= n,
                n == cms.len(),
                self.sect_modifiers@ == cms,
                out@ + applicable(cms.subrange(i as int, n as int), *disciple) == applicable(
                    cms,
                    *disciple,
                ),
            decreases n - i,
        {
            proof {
                lemma_applicable_split(cms, *disciple, i as int);
            }
            if self.sect_modifiers[i].applies_to(disciple) {
                let m = self.sect_modifiers[i].modifier.clone_exact();
                out.push(m);
            }
            proof {
                assert(out@ + applicable(cms.subrange(i as int + 1, n as int), *disciple)
                    =~= applicable(cms, *disciple));
            }
            i = i + 1;
        }
        proof {
            assert(cms.subrange(n as int, n as int) =~= Seq::<ConditionalModifier>::empty());
            assert(out@ =~= applicable(cms, *disciple));
        }
        match &self.building_tree {
            None => {
                proof {
                    assert(out@ =~= applicable(cms, *disciple) + Seq::<Modifier>::empty());
                    if self.wf() {
                        lemma_applicable_wf(cms, *disciple);
                    }
                }
                out
            },
            Some(tree) => {
                let tree_mods = tree.get_all_modifiers();
                let ghost bm = built_mods(tree.buildings@);
                let m = tree_mods.len();
                proof {
                    assert(bm.subrange(0, m as int) =~= bm);
                    assert(applicable(cms, *disciple) + Seq::<Modifier>::empty() + applicable(
                        bm,
                        *disciple,
                    ) =~= applicable(cms, *disciple) + applicable(bm, *disciple));
                    assert(out@ + applicable(bm, *disciple) =~= applicable(cms, *disciple)
                        + applicable(bm, *disciple));
                }
                let mut j: usize = 0;
                while j < m
                    invariant
                        0 <= j <= m,
                        m == bm.len(),
                        tree_mods@.len() == m,
                        forall|k: int|
                            0 <= k < m ==> *(#[trigger] tree_mods@[k]) == bm[k],
                        out@ + applicable(bm.subrange(j as int, m as int), *disciple) == applicable(
                            cms,
                            *disciple,
                        ) + applicable(bm, *disciple),
                    decreases m - j,
                {
                    proof {
                        lemma_applicable_split(bm, *disciple, j as int);
                        assert(*tree_mods@[j as int] == bm[j as int]);
                    }
                    if tree_mods[j].applies_to(disciple) {
                        let mv = tree_mods[j].modifier.clone_exact();
                        out.push(mv);
                    }
                    proof {
                        assert(out@ + applicable(bm.subrange(j as int + 1, m as int), *disciple)
                            =~= applicable(cms, *disciple) + applicable(bm, *disciple));
                    }
                    j = j + 1;
                }
                proof {
                    assert(bm.subrange(m as int, m as int) =~= Seq::<ConditionalModifier>::empty());
                    assert(out@ =~= applicable(cms, *disciple) + applicable(bm, *disciple));
                    if self.wf() {
                        lemma_built_mods_wf(tree.buildings@);
                        lemma_applicable_wf(cms, *disciple);
                        lemma_applicable_wf(bm, *disciple);
                        let direct = applicable(cms, *disciple);
                        let granted = applicable(bm, *disciple);
                        assert forall|i: int| 0 <= i < out@.len() implies (
                        #[trigger] out@[i]).wf() by {
                            if i < direct.len() {
                                assert(out@[i] == direct[i]);
                            } else {
                                assert(out@[i] == granted[i - direct.len()]);
                            }
                        }
                    }
                }
                out
            },
        }
    }

    /// A borrow of every directly registered rule that applies to the
    /// member, in list order.
    pub fn get_applicable_modifiers<'a>(&'a self, disciple: &Disciple) -> (r: Vec<&'a Modifier>)
        ensures
            r@.len() == applicable(self.sect_modifiers@, *disciple).len(),
            forall|j: int|
                0 <= j < r@.len() ==> *(#[trigger] r@[j]) == applicable(
                    self.sect_modifiers@,
                    *disciple,
                )[j],
    {
        let ghost cms = self.sect_modifiers@;
        let n = self.sect_modifiers.len();
        proof {
            assert(cms.subrange(0, n as int) =~= cms);
        }
        let mut out: Vec<&Modifier> = Vec::new();
        let ghost target = applicable(cms, *disciple);
        proof {
            assert(target.subrange(0, target.len() as int) =~= target);
        }
        let mut i: usize = 0;
        while i < n
            invariant
                0 <= i <= n,
                n == cms.len(),
                self.sect_modifiers@ == cms,
                target == applicable(cms, *disciple),
                out@.len() <= target.len(),
                out@.len() + applicable(cms.subrange(i as int, n as int), *disciple).len()
                    == target.len(),
                forall|j: int| 0 <= j < out@.len() ==> *(#[trigger] out@[j]) == target[j],
                target.subrange(out@.len() as int, target.len() as int) == applicable(
                    cms.subrange(i as int, n as int),
                    *disciple,
                ),
            decreases n - i,
        {
            proof {
                lemma_applicable_split(cms, *disciple, i as int);
            }
            if self.sect_modifiers[i].applies_to(disciple) {
                proof {
                    assert(target.subrange(out@.len() as int, target.len() as int)[0] == target[
                        out@.len() as int
                    ]);
                    assert(target[out@.len() as int] == cms[i as int].modifier);
                }
                let ghost ol = out@.len() as int;
                out.push(&self.sect_modifiers[i].modifier);
                proof {
                    assert(target.subrange(ol, target.len() as int).drop_first() =~= target.subrange(
                        ol + 1,
                        target.len() as int,
                    ));
                }
            }
            proof {
                assert(target.subrange(out@.len() as int, target.len() as int) =~= applicable(
                    cms.subrange(i as int + 1, n as int),
                    *disciple,
                ));
            }
            i = i + 1;
        }
        out
    }

    /// Enroll a new member.
    pub fn recruit_disciple(&mut self, disciple: Disciple)
        ensures
            final(self).disciples@ == old(self).disciples@.push(disciple),
            *final(self) == (Sect { disciples: final(self).disciples, ..*old(self) }),
    {
        self.disciples.push(disciple);
    }

    /// A borrow of every alive member, in roster order.
    pub fn alive_disciples<'a>(&'a self) -> (r: Vec<&'a Disciple>)
        ensures
            r@.len() == alive_list(self.disciples@).len(),
            forall|j: int|
                0 <= j < r@.len() ==> *(#[trigger] r@[j]) == alive_list(self.disciples@)[j],
    {
        let ghost ds = self.disciples@;
        let n = self.disciples.len();
        proof {
            assert(ds.subrange(0, n as int) =~= ds);
        }
        let mut out: Vec<&Disciple> = Vec::new();
        let ghost target = alive_list(ds);
        proof {
            assert(target.subrange(0, target.len() as int) =~= target);
        }
        let mut i: usize = 0;
        while i < n
            invariant
                0 <= i <= n,
                n == ds.len(),
                self.disciples@ == ds,
                target == alive_list(ds),
                out@.len() <= target.len(),
                out@.len() + alive_list(ds.subrange(i as int, n as int)).len() == target.len(),
                forall|j: int| 0 <= j < out@.len() ==> *(#[trigger] out@[j]) == target[j],
                target.subrange(out@.len() as int, target.len() as int) == alive_list(
                    ds.subrange(i as int, n as int),
                ),
            decreases n - i,
        {
            proof {
                lemma_alive_split(ds, i as int);
            }
            if self.disciples[i].is_alive() {
                proof {
                    assert(target.subrange(out@.len() as int, target.len() as int)[0] == target[
                        out@.len() as int
                    ]);
                    assert(target[out@.len() as int] == ds[i as int]);
                }
                let ghost ol = out@.len() as int;
                out.push(&self.disciples[i]);
                proof {
                    assert(target.subrange(ol, target.len() as int).drop_first() =~= target.subrange(
                        ol + 1,
                        target.len() as int,
                    ));
                }
            }
            proof {
                assert(target.subrange(out@.len() as int, target.len() as int) =~= alive_list(
                    ds.subrange(i as int + 1, n as int),
                ));
            }
            i = i + 1;
        }
        out
    }

    /// Record the victory condition: some member reached the terminal tier.
    pub fn check_immortal_sect(&mut self) -> (r: bool)
        ensures
            r == (exists|i: int|
                0 <= i < old(self).disciples@.len()
                    && (#[trigger] old(self).disciples@[i]).cultivation.current_level
                    == CultivationLevel::Ascension),
            r ==> *final(self) == (Sect { is_immortal_sect: true, ..*old(self) }),
            !r ==> *final(self) == *old(self),
    {
        let n = self.disciples.len();
        let mut i: usize = 0;
        while i < n
            invariant
                0 <= i <= n,
                n == self.disciples@.len(),
                *self == *old(self),
                forall|k: int|
                    0 <= k < i ==> (#[trigger] self.disciples@[k]).cultivation.current_level
                        != CultivationLevel::Ascension,
            decreases n - i,
        {
            if self.disciples[i].is_immortal() {
                self.is_immortal_sect = true;
                return true;
            }
            i = i + 1;
        }
        false
    }

    /// Whether no member is left alive.
    pub fn is_destroyed(&self) -> (r: bool)
        ensures
            r == (alive_list(self.disciples@).len() == 0),
    {
        self.alive_disciples().len() == 0
    }

    /// Bank the legacy of a member who died, if their tier warrants one.
    pub fn handle_disciple_death(&mut self, disciple_id: usize)
        ensures
            final(self).heritages@ == (match find_disciple(old(self).disciples@, disciple_id as int) {
                Some(d) => if d.cultivation.current_level.to_numeric_spec() >= 3 {
                    old(self).heritages@.push(heritage_of(d))
                } else {
                    old(self).heritages@
                },
                None => old(self).heritages@,
            }),
            *final(self) == (Sect { heritages: final(self).heritages, ..*old(self) }),
    {
        let ghost ds = self.disciples@;
        let n = self.disciples.len();
        proof {
            assert(ds.subrange(0, n as int) =~= ds);
        }
        let mut i: usize = 0;
        while i < n
            invariant
                0 <= i <= n,
                n == ds.len(),
                *self == *old(self),
                self.disciples@ == ds,
                find_disciple(ds, disciple_id as int) == find_disciple(
                    ds.subrange(i as int, n as int),
                    disciple_id as int,
                ),
            decreases n - i,
        {
            proof {
                lemma_find_disciple_split(ds, disciple_id as int, i as int);
            }
            if self.disciples[i].id == disciple_id {
                match self.disciples[i].generate_heritage() {
                    Some(h) => {
                        self.heritages.push(h);
                    },
                    None => {},
                }
                return ;
            }
            i = i + 1;
        }
        proof {
            assert(ds.subrange(n as int, n as int) =~= Seq::<Disciple>::empty());
        }
    }

    /// Add to the resource pool, capped at u32::MAX.
    pub fn add_resources(&mut self, amount: u32)
        ensures
            final(self).resources == cap_add_u32(old(self).resources as int, amount as int),
            *final(self) == (Sect { resources: final(self).resources, ..*old(self) }),
    {
        self.resources = if amount > u32::MAX - self.resources {
            u32::MAX
        } else {
            self.resources + amount
        };
    }

    /// Pay from the resource pool; succeeds exactly when it can cover the
    /// amount.
    pub fn consume_resources(&mut self, amount: u32) -> (ok: bool)
        ensures
            ok == (old(self).resources >= amount),
            ok ==> final(self).resources == old(self).resources - amount,
            !ok ==> final(self).resources == old(self).resources,
            *final(self) == (Sect { resources: final(self).resources, ..*old(self) }),
    {
        if self.resources >= amount {
            self.resources = self.resources - amount;
            true
        } else {
            false
        }
    }

    /// Shift reputation, clamped into the i32 range.
    pub fn add_reputation(&mut self, amount: i32)
        ensures
            final(self).reputation == cap_add_i32(old(self).reputation as int, amount as int),
            *final(self) == (Sect { reputation: final(self).reputation, ..*old(self) }),
    {
        let sum: i64 = self.reputation as i64 + amount as i64;
        self.reputation = if sum > i32::MAX as i64 {
            i32::MAX
        } else if sum < i32::MIN as i64 {
            i32::MIN
        } else {
            sum as i32
        };
    }

    /// The yearly pass: the year advances, every alive member ages one year,
    /// and members whose lifespan ran out leave their legacies, in roster
    /// order.
    pub fn yearly_update(&mut self)
        requires
            old(self).wf(),
        ensures
            final(self).wf(),
            final(self).year == cap_add_u32(old(self).year as int, 1),
            final(self).disciples@ == aged_all(old(self).disciples@),
            final(self).disciples@.len() == old(self).disciples@.len(),
            final(self).heritages@ == old(self).heritages@ + harvest(old(self).disciples@),
            *final(self) == (Sect {
                year: final(self).year,
                disciples: final(self).disciples,
                heritages: final(self).heritages,
                ..*old(self)
            }),
    {
        self.year = if self.year < u32::MAX {
            self.year + 1
        } else {
            u32::MAX
        };
        let ghost orig = self.disciples@;
        let mut rest: Vec<Disciple> = Vec::new();
        core::mem::swap(&mut self.disciples, &mut rest);
        let before = rest.len();
        proof {
            assert(orig.subrange(0, before as int) =~= orig);
            assert(Seq::<Disciple>::empty() + aged_all(orig) =~= aged_all(orig));
            assert(old(self).heritages@ + harvest(orig) =~= self.heritages@ + harvest(orig));
        }
        let mut i: usize = 0;
        while i < before
            invariant
                0 <= i <= before,
                before == orig.len(),
                rest@ == orig.subrange(i as int, before as int),
                old(self).wf(),
                orig == old(self).disciples@,
                self.disciples@ + aged_all(orig.subrange(i as int, before as int)) == aged_all(
                    orig,
                ),
                self.heritages@ + harvest(orig.subrange(i as int, before as int)) == old(self).heritages@ + harvest(orig),
                *self == (Sect {
                    year: self.year,
                    disciples: self.disciples,
                    heritages: self.heritages,
                    ..*old(self)
                }),
                self.year == cap_add_u32(old(self).year as int, 1),
            decreases before - i,
        {
            proof {
                lemma_aged_harvest_split(orig, i as int);
                assert(orig[i as int].wf());
            }
            let mut d = rest.remove(0);
            proof {
                assert(rest@ =~= orig.subrange(i as int + 1, before as int));
            }
            let was_alive = d.is_alive();
            if was_alive && d.age < u32::MAX {
                d.age_one_year();
            }
            if was_alive && !d.is_alive() {
                match d.generate_heritage() {
                    Some(h) => {
                        self.heritages.push(h);
                    },
                    None => {},
                }
            }
            self.disciples.push(d);
            proof {
                assert(self.disciples@ + aged_all(orig.subrange(i as int + 1, before as int))
                    =~= aged_all(orig));
                assert(self.heritages@ + harvest(orig.subrange(i as int + 1, before as int))
                    =~= old(self).heritages@ + harvest(orig));
            }
            i = i + 1;
        }
        proof {
            assert(orig.subrange(before as int, before as int) =~= Seq::<Disciple>::empty());
            assert(self.disciples@ =~= aged_all(orig));
            assert(self.heritages@ =~= old(self).heritages@ + harvest(orig));
            lemma_aged_all_wf(orig);
        }
    }

    /// A point-in-time summary: alive counts overall, by standing, and by
    /// tier, beside the shared pools.
    pub fn get_statistics(&self) -> (r: SectStatistics)
        ensures
            r.total_disciples == alive_list(self.disciples@).len(),
            r.outer_disciples == count_type(self.disciples@, DiscipleType::Outer),
            r.inner_disciples == count_type(self.disciples@, DiscipleType::Inner),
            r.personal_disciples == count_type(self.disciples@, DiscipleType::Personal),
            r.resources == self.resources,
            r.reputation == self.reputation,
            r.year == self.year,
            r.cultivation_distribution@.len() == 7,
            r.cultivation_distribution@[0] == count_level(
                self.disciples@,
                CultivationLevel::QiRefining,
            ),
            r.cultivation_distribution@[1] == count_level(
                self.disciples@,
                CultivationLevel::Foundation,
            ),
            r.cultivation_distribution@[2] == count_level(
                self.disciples@,
                CultivationLevel::GoldenCore,
            ),
            r.cultivation_distribution@[3] == count_level(
                self.disciples@,
                CultivationLevel::NascentSoul,
            ),
            r.cultivation_distribution@[4] == count_level(
                self.disciples@,
                CultivationLevel::SpiritSevering,
            ),
            r.cultivation_distribution@[5] == count_level(
                self.disciples@,
                CultivationLevel::VoidRefinement,
            ),
            r.cultivation_distribution@[6] == count_level(
                self.disciples@,
                CultivationLevel::Ascension,
            ),
    {
        let total = self.alive_disciples().len();
        let outer = self.count_alive_of_type(DiscipleType::Outer);
        let inner = self.count_alive_of_type(DiscipleType::Inner);
        let personal = self.count_alive_of_type(DiscipleType::Personal);
        let mut cultivation_distribution: Vec<usize> = Vec::new();
        cultivation_distribution.push(self.count_alive_at_level(CultivationLevel::QiRefining));
        cultivation_distribution.push(self.count_alive_at_level(CultivationLevel::Foundation));
        cultivation_distribution.push(self.count_alive_at_level(CultivationLevel::GoldenCore));
        cultivation_distribution.push(self.count_alive_at_level(CultivationLevel::NascentSoul));
        cultivation_distribution.push(self.count_alive_at_level(CultivationLevel::SpiritSevering));
        cultivation_distribution.push(self.count_alive_at_level(CultivationLevel::VoidRefinement));
        cultivation_distribution.push(self.count_alive_at_level(CultivationLevel::Ascension));
        SectStatistics {
            total_disciples: total,
            outer_disciples: outer,
            inner_disciples: inner,
            personal_disciples: personal,
            resources: self.resources,
            reputation: self.reputation,
            year: self.year,
            cultivation_distribution,
        }
    }

    /// How many alive members are of the given standing.
    fn count_alive_of_type(&self, t: DiscipleType) -> (r: usize)
        ensures
            r == count_type(self.disciples@, t),
    {
        let ghost ds = self.disciples@;
        let n = self.disciples.len();
        proof {
            assert(ds.subrange(n as int, n as int) =~= Seq::<Disciple>::empty());
            lemma_count_bounds(ds, t);
        }
        let mut total: usize = 0;
        let mut i: usize = n;
        while i > 0
            invariant
                0 <= i <= n,
                n == ds.len(),
                self.disciples@ == ds,
                total == count_type(ds.subrange(i as int, n as int), t),
                total <= n - i,
            decreases i,
        {
            i = i - 1;
            proof {
                lemma_count_split(ds, i as int, t, CultivationLevel::QiRefining);
                lemma_count_bounds(ds.subrange(i as int + 1, n as int), t);
            }
            if self.disciples[i].is_alive() && self.disciples[i].disciple_type == t {
                total = total + 1;
            }
        }
        proof {
            assert(ds.subrange(0, n as int) =~= ds);
        }
        total
    }

    /// How many alive members stand at the given tier.
    fn count_alive_at_level(&self, l: CultivationLevel) -> (r: usize)
        ensures
            r == count_level(self.disciples@, l),
    {
        let ghost ds = self.disciples@;
        let n = self.disciples.len();
        proof {
            assert(ds.subrange(n as int, n as int) =~= Seq::<Disciple>::empty());
            lemma_count_level_bounds(ds, l);
        }
        let mut total: usize = 0;
        let mut i: usize = n;
        while i > 0
            invariant
                0 <= i <= n,
                n == ds.len(),
                self.disciples@ == ds,
                total == count_level(ds.subrange(i as int, n as int), l),
                total <= n - i,
            decreases i,
        {
            i = i - 1;
            proof {
                lemma_count_split(ds, i as int, DiscipleType::Outer, l);
                lemma_count_level_bounds(ds.subrange(i as int + 1, n as int), l);
            }
            let matches_level = self.disciples[i].cultivation.current_level.to_numeric()
                == l.to_numeric();
            if self.disciples[i].is_alive() && matches_level {
                total = total + 1;
            }
        }
        proof {
            assert(ds.subrange(0, n as int) =~= ds);
        }
        total
    }
}

proof fn lemma_applicable_split(cms: Seq<ConditionalModifier>, d: Disciple, i: int)
    requires
        0 <= i < cms.len(),
    ensures
        applicable(cms.subrange(i, cms.len() as int), d) == (if check_spec(cms[i].condition, d) {
            seq![cms[i].modifier] + applicable(cms.subrange(i + 1, cms.len() as int), d)
        } else {
            applicable(cms.subrange(i + 1, cms.len() as int), d)
        }),
{
    assert(cms.subrange(i, cms.len() as int).drop_first() =~= cms.subrange(i + 1, cms.len() as int));
}

/// Every applicable rule of a well-formed list is well formed.
proof fn lemma_applicable_wf(cms: Seq<ConditionalModifier>, d: Disciple)
    requires
        forall|i: int| 0 <= i < cms.len() ==> (#[trigger] cms[i]).modifier.wf(),
    ensures
        forall|i: int|
            0 <= i < applicable(cms, d).len() ==> (#[trigger] applicable(cms, d)[i]).wf(),
    decreases cms.len(),
{
    if cms.len() > 0 {
        assert(forall|i: int|
            0 <= i < cms.drop_first().len() ==> #[trigger] cms.drop_first()[i] == cms[i + 1]);
        lemma_applicable_wf(cms.drop_first(), d);
        let w = applicable(cms, d);
        let wr = applicable(cms.drop_first(), d);
        assert forall|i: int| 0 <= i < w.len() implies (#[trigger] w[i]).wf() by {
            if check_spec(cms[0].condition, d) {
                if i == 0 {
                    assert(w[0] == cms[0].modifier);
                } else {
                    assert(w[i] == wr[i - 1]);
                }
            } else {
                assert(w[i] == wr[i]);
            }
        }
    }
}

proof fn lemma_alive_split(ds: Seq<Disciple>, i: int)
    requires
        0 <= i < ds.len(),
    ensures
        alive_list(ds.subrange(i, ds.len() as int)) == (if alive_spec(ds[i]) {
            seq![ds[i]] + alive_list(ds.subrange(i + 1, ds.len() as int))
        } else {
            alive_list(ds.subrange(i + 1, ds.len() as int))
        }),
{
    assert(ds.subrange(i, ds.len() as int).drop_first() =~= ds.subrange(i + 1, ds.len() as int));
}

pub proof fn lemma_find_disciple_split(ds: Seq<Disciple>, id: int, i: int)
    requires
        0 <= i < ds.len(),
    ensures
        find_disciple(ds.subrange(i, ds.len() as int), id) == (if ds[i].id == id {
            Some(ds[i])
        } else {
            find_disciple(ds.subrange(i + 1, ds.len() as int), id)
        }),
        disciple_pos(ds.subrange(i, ds.len() as int), id) == (if ds[i].id == id {
            0int
        } else {
            1 + disciple_pos(ds.subrange(i + 1, ds.len() as int), id)
        }),
{
    assert(ds.subrange(i, ds.len() as int).drop_first() =~= ds.subrange(i + 1, ds.len() as int));
}

proof fn lemma_aged_harvest_split(ds: Seq<Disciple>, i: int)
    requires
        0 <= i < ds.len(),
    ensures
        aged_all(ds.subrange(i, ds.len() as int)) == seq![aged(ds[i])] + aged_all(
            ds.subrange(i + 1, ds.len() as int),
        ),
        harvest(ds.subrange(i, ds.len() as int)) == (if alive_spec(ds[i]) && !alive_spec(
            aged(ds[i]),
        ) && ds[i].cultivation.current_level.to_numeric_spec() >= 3 {
            seq![heritage_of(aged(ds[i]))] + harvest(ds.subrange(i + 1, ds.len() as int))
        } else {
            harvest(ds.subrange(i + 1, ds.len() as int))
        }),
{
    assert(ds.subrange(i, ds.len() as int).drop_first() =~= ds.subrange(i + 1, ds.len() as int));
}

/// Aging keeps every member well formed.
proof fn lemma_aged_all_wf(ds: Seq<Disciple>)
    requires
        forall|i: int| 0 <= i < ds.len() ==> (#[trigger] ds[i]).wf(),
    ensures
        aged_all(ds).len() == ds.len(),
        forall|i: int| 0 <= i < ds.len() ==> (#[trigger] aged_all(ds)[i]).wf(),
    decreases ds.len(),
{
    if ds.len() > 0 {
        assert(forall|i: int|
            0 <= i < ds.drop_first().len() ==> #[trigger] ds.drop_first()[i] == ds[i + 1]);
        lemma_aged_all_wf(ds.drop_first());
        assert(forall|i: int|
            0 < i < aged_all(ds).len() ==> #[trigger] aged_all(ds)[i] == aged_all(
                ds.drop_first(),
            )[i - 1]);
        assert(aged_all(ds)[0] == aged(ds[0]));
        assert(aged(ds[0]).wf() == ds[0].wf());
    }
}

/// Every rule granted by well-formed buildings is well formed.
proof fn lemma_built_mods_wf(bs: Seq<crate::building::Building>)
    requires
        all_mods_wf(bs),
    ensures
        forall|i: int|
            0 <= i < built_mods(bs).len() ==> (#[trigger] built_mods(bs)[i]).modifier.wf(),
    decreases bs.len(),
{
    if bs.len() > 0 {
        let rest = bs.drop_first();
        assert(forall|i: int| 0 <= i < rest.len() ==> #[trigger] rest[i] == bs[i + 1]);
        assert(all_mods_wf(rest)) by {
            assert forall|a: int, b: int|
                0 <= a < rest.len() && 0 <= b < rest[a].conditional_modifiers@.len() implies (
            #[trigger] rest[a].conditional_modifiers@[b]).modifier.wf() by {
                assert(rest[a] == bs[a + 1]);
            }
        }
        lemma_built_mods_wf(rest);
        if bs[0].is_built {
            assert forall|i: int|
                0 <= i < built_mods(bs).len() implies (#[trigger] built_mods(
                bs,
            )[i]).modifier.wf() by {
                if i < bs[0].conditional_modifiers@.len() {
                    assert(built_mods(bs)[i] == bs[0].conditional_modifiers@[i]);
                } else {
                    assert(built_mods(bs)[i] == built_mods(rest)[i
                        - bs[0].conditional_modifiers@.len()]);
                }
            }
        }
    }
}

proof fn lemma_count_split(ds: Seq<Disciple>, i: int, t: DiscipleType, l: CultivationLevel)
    requires
        0 <= i < ds.len(),
    ensures
        count_type(ds.subrange(i, ds.len() as int), t) == (if alive_spec(ds[i])
            && ds[i].disciple_type == t {
            1int
        } else {
            0int
        }) + count_type(ds.subrange(i + 1, ds.len() as int), t),
        count_level(ds.subrange(i, ds.len() as int), l) == (if alive_spec(ds[i])
            && ds[i].cultivation.current_level == l {
            1int
        } else {
            0int
        }) + count_level(ds.subrange(i + 1, ds.len() as int), l),
{
    assert(ds.subrange(i, ds.len() as int).drop_first() =~= ds.subrange(i + 1, ds.len() as int));
}

proof fn lemma_count_bounds(ds: Seq<Disciple>, t: DiscipleType)
    ensures
        0 <= count_type(ds, t) <= ds.len(),
    decreases ds.len(),
{
    if ds.len() > 0 {
        lemma_count_bounds(ds.drop_first(), t);
    }
}

proof fn lemma_count_level_bounds(ds: Seq<Disciple>, l: CultivationLevel)
    ensures
        0 <= count_level(ds, l) <= ds.len(),
    decreases ds.len(),
{
    if ds.len() > 0 {
        lemma_count_level_bounds(ds.drop_first(), l);
    }
}


/// Whether a member already has a master bond.
pub open spec fn has_master_bond(ds: Seq<Disciple>, id: int) -> bool {
    match find_disciple(ds, id) {
        Some(d) => master_of(d.relationships@) is Some,
        None => false,
    }
}

/// Whether a member already has a companion bond.
pub open spec fn has_companion_bond(ds: Seq<Disciple>, id: int) -> bool {
    match find_disciple(ds, id) {
        Some(d) => companion_of(d.relationships@) is Some,
        None => false,
    }
}

/// The affection score one member holds toward another; zero when either the
/// member or the relationship is missing.
pub open spec fn romance_between(ds: Seq<Disciple>, from: int, to: int) -> int {
    match find_disciple(ds, from) {
        Some(d) => match find_rel(d.relationships@, to) {
            Some(r) => r.scores.romance as int,
            None => 0,
        },
        None => 0,
    }
}

impl Sect {
    /// The index of the first member with the given id.
    fn find_disciple_index(&self, id: usize) -> (r: Option<usize>)
        ensures
            match r {
                Some(i) => 0 <= i < self.disciples@.len() && self.disciples@[i as int].id == id
                    && i == disciple_pos(self.disciples@, id as int) && find_disciple(
                    self.disciples@,
                    id as int,
                ) == Some(self.disciples@[i as int]),
                None => find_disciple(self.disciples@, id as int) is None,
            },
    {
        let ghost ds = self.disciples@;
        let n = self.disciples.len();
        proof {
            assert(ds.subrange(0, n as int) =~= ds);
        }
        let mut i: usize = 0;
        while i < n
            invariant
                0 <= i <= n,
                n == ds.len(),
                self.disciples@ == ds,
                find_disciple(ds, id as int) == find_disciple(
                    ds.subrange(i as int, n as int),
                    id as int,
                ),
                disciple_pos(ds, id as int) == i + disciple_pos(
                    ds.subrange(i as int, n as int),
                    id as int,
                ),
            decreases n - i,
        {
            proof {
                lemma_find_disciple_split(ds, id as int, i as int);
            }
            if self.disciples[i].id == id {
                return Some(i);
            }
            i = i + 1;
        }
        proof {
            assert(ds.subrange(n as int, n as int) =~= Seq::<Disciple>::empty());
        }
        None
    }

    /// Whether the member with the given id exists and is alive.
    fn is_alive_member(&self, id: usize) -> (r: bool)
        ensures
            r == has_alive(self.disciples@, id as int),
    {
        match self.find_disciple_index(id) {
            Some(i) => self.disciples[i].is_alive(),
            None => false,
        }
    }

    /// Bind a master and a student: both must exist alive, be distinct, and
    /// the student must not already have a master. On success the student
    /// gains a master bond and the master a student bond, each starting at
    /// mentorship 50.
    pub fn set_mentorship(&mut self, master_id: usize, disciple_id: usize) -> (r: Result<
        (),
        SectError,
    >)
        ensures
            r == (if !has_alive(old(self).disciples@, master_id as int) {
                Err::<(), SectError>(SectError::MemberMissing)
            } else if !has_alive(old(self).disciples@, disciple_id as int) {
                Err::<(), SectError>(SectError::MemberMissing)
            } else if master_id == disciple_id {
                Err::<(), SectError>(SectError::SelfRelation)
            } else if has_master_bond(old(self).disciples@, disciple_id as int) {
                Err::<(), SectError>(SectError::AlreadyHasMaster)
            } else {
                Ok::<(), SectError>(())
            }),
            r is Err ==> *final(self) == *old(self),
            r is Ok ==> ({
                let ds = old(self).disciples@;
                let di = disciple_pos(ds, disciple_id as int);
                let mi = disciple_pos(ds, master_id as int);
                let student_rel = Relationship {
                    target_id: master_id,
                    scores: crate::relationship::RelationScores {
                        romance: 0u32,
                        mentorship: 50u32,
                        comrade: 0u32,
                        understanding: 0u32,
                        fateful_bond: 0u32,
                    },
                    established_year: old(self).year,
                    is_dao_companion: false,
                    is_master: true,
                    is_disciple: false,
                };
                let master_rel = Relationship {
                    target_id: disciple_id,
                    scores: crate::relationship::RelationScores {
                        romance: 0u32,
                        mentorship: 50u32,
                        comrade: 0u32,
                        understanding: 0u32,
                        fateful_bond: 0u32,
                    },
                    established_year: old(self).year,
                    is_dao_companion: false,
                    is_master: false,
                    is_disciple: true,
                };
                &&& final(self).disciples@.len() == ds.len()
                &&& final(self).disciples@[di].relationships@ == ds[di].relationships@.push(
                    student_rel,
                )
                &&& final(self).disciples@[di] == (Disciple {
                    relationships: final(self).disciples@[di].relationships,
                    ..ds[di]
                })
                &&& final(self).disciples@[mi].relationships@ == ds[mi].relationships@.push(
                    master_rel,
                )
                &&& final(self).disciples@[mi] == (Disciple {
                    relationships: final(self).disciples@[mi].relationships,
                    ..ds[mi]
                })
                &&& forall|k: int|
                    0 <= k < ds.len() && k != di && k != mi ==> final(self).disciples@[k] == ds[k]
                &&& *final(self) == (Sect { disciples: final(self).disciples, ..*old(self) })
            }),
    {
        if !self.is_alive_member(master_id) {
            return Err(SectError::MemberMissing);
        }
        if !self.is_alive_member(disciple_id) {
            return Err(SectError::MemberMissing);
        }
        if master_id == disciple_id {
            return Err(SectError::SelfRelation);
        }
        let year = self.year;
        let di = match self.find_disciple_index(disciple_id) {
            Some(i) => i,
            None => {
                proof {
                    assert(false);
                }
                return Err(SectError::MemberMissing);
            },
        };
        if self.disciples[di].get_master_id().is_some() {
            return Err(SectError::AlreadyHasMaster);
        }
        let ghost ds = self.disciples@;
        let mut d = self.disciples.remove(di);
        d.relationships.push(Relationship::new_as_disciple_of(master_id, year));
        self.disciples.insert(di, d);
        proof {
            assert(self.disciples@ =~= ds.update(di as int, self.disciples@[di as int]));
            assert(forall|k: int|
                0 <= k < ds.len() && k != di ==> self.disciples@[k] == ds[k]);
            assert(self.disciples@[di as int].id == disciple_id);
            lemma_pos_update_same_ids(ds, self.disciples@, master_id as int);
        }
        let mi = match self.find_disciple_index(master_id) {
            Some(i) => i,
            None => {
                proof {
                    assert(false);
                }
                return Err(SectError::MemberMissing);
            },
        };
        proof {
            assert(mi != di);
        }
        let mut m = self.disciples.remove(mi);
        m.relationships.push(Relationship::new_as_master_of(disciple_id, year));
        self.disciples.insert(mi, m);
        proof {
            assert(self.disciples@ =~= ds.update(di as int, self.disciples@[di as int]).update(
                mi as int,
                self.disciples@[mi as int],
            ));
        }
        Ok(())
    }

    /// Bind two members as companions: both must exist alive, be distinct,
    /// hold affection of at least 80 toward each other, and have no
    /// companion yet. On success both relationship records carry the
    /// companion flag (created fresh if missing).
    pub fn set_dao_companion(&mut self, id1: usize, id2: usize) -> (r: Result<(), SectError>)
        ensures
            r == (if !has_alive(old(self).disciples@, id1 as int) {
                Err::<(), SectError>(SectError::MemberMissing)
            } else if !has_alive(old(self).disciples@, id2 as int) {
                Err::<(), SectError>(SectError::MemberMissing)
            } else if id1 == id2 {
                Err::<(), SectError>(SectError::SelfRelation)
            } else if romance_between(old(self).disciples@, id1 as int, id2 as int) < 80
                || romance_between(old(self).disciples@, id2 as int, id1 as int) < 80 {
                Err::<(), SectError>(SectError::AffectionTooLow)
            } else if has_companion_bond(old(self).disciples@, id1 as int) {
                Err::<(), SectError>(SectError::AlreadyHasCompanion)
            } else if has_companion_bond(old(self).disciples@, id2 as int) {
                Err::<(), SectError>(SectError::AlreadyHasCompanion)
            } else {
                Ok::<(), SectError>(())
            }),
            r is Err ==> *final(self) == *old(self),
            r is Ok ==> ({
                let ds = old(self).disciples@;
                let i1 = disciple_pos(ds, id1 as int);
                let i2 = disciple_pos(ds, id2 as int);
                let base1 = ensured_rels(ds[i1].relationships@, id2, old(self).year);
                let pos1 = rel_pos(base1, id2 as int);
                let base2 = ensured_rels(ds[i2].relationships@, id1, old(self).year);
                let pos2 = rel_pos(base2, id1 as int);
                &&& final(self).disciples@.len() == ds.len()
                &&& final(self).disciples@[i1].relationships@ == base1.update(
                    pos1,
                    Relationship { is_dao_companion: true, ..base1[pos1] },
                )
                &&& final(self).disciples@[i1] == (Disciple {
                    relationships: final(self).disciples@[i1].relationships,
                    ..ds[i1]
                })
                &&& final(self).disciples@[i2].relationships@ == base2.update(
                    pos2,
                    Relationship { is_dao_companion: true, ..base2[pos2] },
                )
                &&& final(self).disciples@[i2] == (Disciple {
                    relationships: final(self).disciples@[i2].relationships,
                    ..ds[i2]
                })
                &&& forall|k: int|
                    0 <= k < ds.len() && k != i1 && k != i2 ==> final(self).disciples@[k] == ds[k]
                &&& *final(self) == (Sect { disciples: final(self).disciples, ..*old(self) })
            }),
    {
        if !self.is_alive_member(id1) {
            return Err(SectError::MemberMissing);
        }
        if !self.is_alive_member(id2) {
            return Err(SectError::MemberMissing);
        }
        if id1 == id2 {
            return Err(SectError::SelfRelation);
        }
        let i1 = match self.find_disciple_index(id1) {
            Some(i) => i,
            None => {
                proof {
                    assert(false);
                }
                return Err(SectError::MemberMissing);
            },
        };
        let i2 = match self.find_disciple_index(id2) {
            Some(i) => i,
            None => {
                proof {
                    assert(false);
                }
                return Err(SectError::MemberMissing);
            },
        };
        let r1 = match self.disciples[i1].get_relationship(id2) {
            Some(rel) => rel.scores.romance,
            None => 0,
        };
        let r2 = match self.disciples[i2].get_relationship(id1) {
            Some(rel) => rel.scores.romance,
            None => 0,
        };
        if r1 < 80 || r2 < 80 {
            return Err(SectError::AffectionTooLow);
        }
        if self.disciples[i1].has_dao_companion() {
            return Err(SectError::AlreadyHasCompanion);
        }
        if self.disciples[i2].has_dao_companion() {
            return Err(SectError::AlreadyHasCompanion);
        }
        let year = self.year;
        let ghost ds = self.disciples@;
        proof {
            assert(i1 != i2);
        }
        let mut d1 = self.disciples.remove(i1);
        d1.set_dao_companion_flag(id2, year);
        self.disciples.insert(i1, d1);
        proof {
            assert(self.disciples@ =~= ds.update(i1 as int, self.disciples@[i1 as int]));
            assert(self.disciples@[i2 as int] == ds[i2 as int]);
        }
        let mut d2 = self.disciples.remove(i2);
        d2.set_dao_companion_flag(id1, year);
        self.disciples.insert(i2, d2);
        proof {
            assert(self.disciples@ =~= ds.update(i1 as int, self.disciples@[i1 as int]).update(
                i2 as int,
                self.disciples@[i2 as int],
            ));
        }
        Ok(())
    }

    /// Shift one dimension of the relationship one alive member holds toward
    /// another alive member, creating the relationship if needed; reports
    /// the level reached when the shift raised the level.
    pub fn update_relationship_score(
        &mut self,
        from_id: usize,
        to_id: usize,
        dimension: RelationDimension,
        delta: i32,
    ) -> (r: Result<Option<RelationLevel>, SectError>)
        ensures
            !has_alive(old(self).disciples@, from_id as int) || !has_alive(
                old(self).disciples@,
                to_id as int,
            ) ==> r == Err::<Option<RelationLevel>, SectError>(SectError::MemberMissing) && *final(self) == *old(self),
            (has_alive(old(self).disciples@, from_id as int) && has_alive(
                old(self).disciples@,
                to_id as int,
            )) ==> ({
                let ds = old(self).disciples@;
                let fi = disciple_pos(ds, from_id as int);
                let base = ensured_rels(ds[fi].relationships@, to_id, old(self).year);
                let p = rel_pos(base, to_id as int);
                let old_score = base[p].scores.get_spec(dimension);
                let new_score = add_result(old_score, delta as int);
                &&& r == Ok::<Option<RelationLevel>, SectError>(
                    if level_rank(level_from_score(new_score)) > level_rank(
                        level_from_score(old_score),
                    ) {
                        Some(level_from_score(new_score))
                    } else {
                        None
                    },
                )
                &&& final(self).disciples@.len() == ds.len()
                &&& final(self).disciples@[fi].relationships@ == base.update(
                    p,
                    Relationship { scores: base[p].scores.set_spec(dimension, new_score), ..base[p] },
                )
                &&& final(self).disciples@[fi] == (Disciple {
                    relationships: final(self).disciples@[fi].relationships,
                    ..ds[fi]
                })
                &&& forall|k: int|
                    0 <= k < ds.len() && k != fi ==> final(self).disciples@[k] == ds[k]
                &&& *final(self) == (Sect { disciples: final(self).disciples, ..*old(self) })
            }),
    {
        if !self.is_alive_member(from_id) {
            return Err(SectError::MemberMissing);
        }
        if !self.is_alive_member(to_id) {
            return Err(SectError::MemberMissing);
        }
        let year = self.year;
        let fi = match self.find_disciple_index(from_id) {
            Some(i) => i,
            None => {
                proof {
                    assert(false);
                }
                return Err(SectError::MemberMissing);
            },
        };
        let ghost ds = self.disciples@;
        let mut d = self.disciples.remove(fi);
        let (_, level_up) = d.add_relationship_score(to_id, year, dimension, delta);
        self.disciples.insert(fi, d);
        proof {
            assert(self.disciples@ =~= ds.update(fi as int, self.disciples@[fi as int]));
        }
        Ok(level_up)
    }

    /// Grow the relationships among every pair of members who worked a task
    /// together. The roster keeps its size and order, and only relationship
    /// records change; each reported entry names a pair whose level rose
    /// along a dimension.
    pub fn update_relationship_from_task(
        &mut self,
        disciple_ids: &Vec<usize>,
        task_type: &TaskType,
    ) -> (r: Vec<(usize, usize, RelationDimension, RelationLevel)>)
        ensures
            final(self).disciples@.len() == old(self).disciples@.len(),
            forall|k: int|
                0 <= k < old(self).disciples@.len() ==> #[trigger] final(self).disciples@[k] == (
                Disciple {
                    relationships: final(self).disciples@[k].relationships,
                    ..old(self).disciples@[k]
                }),
            *final(self) == (Sect { disciples: final(self).disciples, ..*old(self) }),
    {
        let year = self.year;
        let mut level_ups: Vec<(usize, usize, RelationDimension, RelationLevel)> = Vec::new();
        let n = disciple_ids.len();
        let mut i: usize = 0;
        while i < n
            invariant
                0 <= i <= n,
                n == disciple_ids@.len(),
                final(self).disciples@.len() == old(self).disciples@.len() || true,
                self.disciples@.len() == old(self).disciples@.len(),
                forall|k: int|
                    0 <= k < old(self).disciples@.len() ==> #[trigger] self.disciples@[k] == (
                    Disciple {
                        relationships: self.disciples@[k].relationships,
                        ..old(self).disciples@[k]
                    }),
                *self == (Sect { disciples: self.disciples, ..*old(self) }),
            decreases n - i,
        {
            let mut j: usize = 0;
            while j < n
                invariant
                    0 <= j <= n,
                    0 <= i < n,
                    n == disciple_ids@.len(),
                    self.disciples@.len() == old(self).disciples@.len(),
                    forall|k: int|
                        0 <= k < old(self).disciples@.len() ==> #[trigger] self.disciples@[k] == (
                        Disciple {
                            relationships: self.disciples@[k].relationships,
                            ..old(self).disciples@[k]
                        }),
                    *self == (Sect { disciples: self.disciples, ..*old(self) }),
                decreases n - j,
            {
                if i != j {
                    let from_id = disciple_ids[i];
                    let to_id = disciple_ids[j];
                    let ghost pre = self.disciples@;
                    match self.find_disciple_index(from_id) {
                        Some(fi) => {
                            let mut d = self.disciples.remove(fi);
                            let ups = d.apply_task_growth_with(to_id, year, task_type);
                            self.disciples.insert(fi, d);
                            proof {
                                assert(self.disciples@ =~= pre.update(
                                    fi as int,
                                    self.disciples@[fi as int],
                                ));
                            }
                            let m = ups.len();
                            let mut k: usize = 0;
                            while k < m
                                invariant
                                    0 <= k <= m,
                                    m == ups@.len(),
                                decreases m - k,
                            {
                                let (dim, level) = ups[k];
                                level_ups.push((from_id, to_id, dim, level));
                                k = k + 1;
                            }
                        },
                        None => {},
                    }
                }
                j = j + 1;
            }
            i = i + 1;
        }
        level_ups
    }

    /// Build a structure: the tree must exist, allow the build, and the
    /// resource pool must cover the doubled cost. On success the cost is
    /// paid, the structure marked built, and the paid cost returned.
    pub fn build_building(&mut self, building_id: &String) -> (r: Result<u32, SectError>)
        requires
            old(self).wf(),
        ensures
            final(self).wf(),
            old(self).building_tree is None ==> r == Err::<u32, SectError>(SectError::NoBuildingTree)
                && *final(self) == *old(self),
            old(self).building_tree matches Some(t) ==> {
                let cb = can_build_spec(t.buildings@, building_id@);
                let cost = build_cost_spec(
                    t.buildings@,
                    building_id@,
                    t.buildings_built_count as nat,
                );
                &&& (cb matches Err(e) ==> r == Err::<u32, SectError>(SectError::Construction(e))
                    && *final(self) == *old(self))
                &&& (cb is Ok ==> (cost matches Err(e) ==> r == Err::<u32, SectError>(
                    SectError::Construction(e),
                ) && *final(self) == *old(self)))
                &&& (cb is Ok ==> (cost matches Ok(c) ==> {
                    &&& (old(self).resources < c ==> r == Err::<u32, SectError>(
                        SectError::InsufficientResources,
                    ) && *final(self) == *old(self))
                    &&& (old(self).resources >= c ==> r == Ok::<u32, SectError>(c) && final(self).resources == old(self).resources - c && (final(self).building_tree matches Some(
                        t2,
                    ) && t2.buildings_built_count == (if t.buildings_built_count < u32::MAX {
                        t.buildings_built_count + 1
                    } else {
                        u32::MAX as int
                    }) && exists|i: int|
                        0 <= i < t.buildings@.len() && t.buildings@[i].id@ == building_id@
                            && t2.buildings@ == t.buildings@.update(
                            i,
                            crate::building::Building { is_built: true, ..t.buildings@[i] },
                        )) && final(self).reputation == old(self).reputation && final(self).disciples@ == old(self).disciples@)
                }))
            },
    {
        match &mut self.building_tree {
            None => Err(SectError::NoBuildingTree),
            Some(tree) => {
                match tree.can_build(building_id) {
                    Err(e) => Err(SectError::Construction(e)),
                    Ok(()) => {
                        let cost = match tree.calculate_build_cost(building_id) {
                            Err(e) => {
                                return Err(SectError::Construction(e));
                            },
                            Ok(c) => c,
                        };
                        if self.resources < cost {
                            return Err(SectError::InsufficientResources);
                        }
                        self.resources = self.resources - cost;
                        match self.building_tree {
                            Some(ref mut tree2) => {
                                match tree2.build(building_id) {
                                    Ok(_granted) => Ok(cost),
                                    Err(_) => {
                                        proof {
                                            assert(false);
                                        }
                                        Err(SectError::NoBuildingTree)
                                    },
                                }
                            },
                            None => {
                                proof {
                                    assert(false);
                                }
                                Err(SectError::NoBuildingTree)
                            },
                        }
                    },
                }
            },
        }
    }
}

/// Updating elements without changing their ids leaves every member search
/// position unchanged.
proof fn lemma_pos_update_same_ids(ds: Seq<Disciple>, ds2: Seq<Disciple>, id: int)
    requires
        ds.len() == ds2.len(),
        forall|k: int| 0 <= k < ds.len() ==> ds[k].id == ds2[k].id,
    ensures
        disciple_pos(ds, id) == disciple_pos(ds2, id),
        (find_disciple(ds, id) is Some) == (find_disciple(ds2, id) is Some),
    decreases ds.len(),
{
    if ds.len() > 0 {
        assert(forall|k: int|
            0 <= k < ds.drop_first().len() ==> #[trigger] ds.drop_first()[k] == ds[k + 1]);
        assert(forall|k: int|
            0 <= k < ds2.drop_first().len() ==> #[trigger] ds2.drop_first()[k] == ds2[k + 1]);
        lemma_pos_update_same_ids(ds.drop_first(), ds2.drop_first(), id);
    }
}

} // verus!
