//! The construction tree: buildings unlock in parent-before-child order,
//! cost doubles with every completed build, and built structures grant
//! organization-wide conditional rules.

use vstd::prelude::*;
use crate::modifier::{
    ConditionalModifier, Modifier, ModifierTarget, ModifierApplication, ModifierSource,
    ModifierCondition,
};
use crate::disciple::DiscipleType;
use crate::cultivation::CultivationLevel;

verus! {

/// Why a construction request was refused.
#[derive(Debug, Clone, Copy, PartialEq, Eq, Structural)]
pub enum BuildingError {
    /// The id is already taken.
    DuplicateId,
    /// The named parent does not exist.
    MissingParent,
    /// A second root was offered: every non-root needs a parent.
    RootRequired,
    /// No building carries the requested id.
    NotFound,
    /// The building is already built.
    AlreadyBuilt,
    /// The parent has not been built yet.
    ParentNotBuilt,
    /// The doubling cost no longer fits in 32 bits.
    CostOverflow,
}

/// One node of the construction tree.
#[derive(Debug)]
pub struct Building {
    pub id: String,
    pub name: String,
    pub description: String,
    pub base_cost: u32,
    /// None marks the root.
    pub parent_id: Option<String>,
    /// The rules granted to the organization while this stands.
    pub conditional_modifiers: Vec<ConditionalModifier>,
    pub is_built: bool,
}

impl Building {
    pub fn new(
        id: String,
        name: String,
        description: String,
        base_cost: u32,
        parent_id: Option<String>,
        conditional_modifiers: Vec<ConditionalModifier>,
    ) -> (b: Building)
        ensures
            b.id == id,
            b.name == name,
            b.description == description,
            b.base_cost == base_cost,
            b.parent_id == parent_id,
            b.conditional_modifiers == conditional_modifiers,
            !b.is_built,
    {
        Building { id, name, description, base_cost, parent_id, conditional_modifiers, is_built: false }
    }

    pub fn new_root(
        id: String,
        name: String,
        description: String,
        base_cost: u32,
        conditional_modifiers: Vec<ConditionalModifier>,
    ) -> (b: Building)
        ensures
            b.id == id,
            b.name == name,
            b.description == description,
            b.base_cost == base_cost,
            b.parent_id is None,
            b.conditional_modifiers == conditional_modifiers,
            !b.is_built,
    {
        Building::new(id, name, description, base_cost, None, conditional_modifiers)
    }

    pub fn new_child(
        id: String,
        name: String,
        description: String,
        base_cost: u32,
        parent_id: String,
        conditional_modifiers: Vec<ConditionalModifier>,
    ) -> (b: Building)
        ensures
            b.id == id,
            b.name == name,
            b.description == description,
            b.base_cost == base_cost,
            b.parent_id == Some(parent_id),
            b.conditional_modifiers == conditional_modifiers,
            !b.is_built,
    {
        Building::new(id, name, description, base_cost, Some(parent_id), conditional_modifiers)
    }
}

/// The first building with the given id, if any.
pub open spec fn find_building(s: Seq<Building>, id: Seq<char>) -> Option<Building>
    decreases s.len(),
{
    if s.len() == 0 {
        None
    } else if s[0].id@ == id {
        Some(s[0])
    } else {
        find_building(s.drop_first(), id)
    }
}

/// Two to the power `n`.
pub open spec fn pow2(n: nat) -> int
    decreases n,
{
    if n == 0 {
        1
    } else {
        2 * pow2((n - 1) as nat)
    }
}

/// Whether a building may be built now: present, not yet built, and with a
/// built parent (the root needs none).
pub open spec fn can_build_spec(s: Seq<Building>, id: Seq<char>) -> Result<(), BuildingError> {
    match find_building(s, id) {
        None => Err(BuildingError::NotFound),
        Some(b) => if b.is_built {
            Err(BuildingError::AlreadyBuilt)
        } else {
            match b.parent_id {
                Some(p) => match find_building(s, p@) {
                    None => Err(BuildingError::MissingParent),
                    Some(pb) => if pb.is_built {
                        Ok(())
                    } else {
                        Err(BuildingError::ParentNotBuilt)
                    },
                },
                None => Ok(()),
            }
        },
    }
}

/// The cost of building now: the base cost doubled once per completed build;
/// an error when that no longer fits in 32 bits.
pub open spec fn build_cost_spec(s: Seq<Building>, id: Seq<char>, built_count: nat) -> Result<
    u32,
    BuildingError,
> {
    match find_building(s, id) {
        None => Err(BuildingError::NotFound),
        Some(b) => if b.base_cost * pow2(built_count) > u32::MAX {
            Err(BuildingError::CostOverflow)
        } else {
            Ok((b.base_cost * pow2(built_count)) as u32)
        },
    }
}

/// The construction tree.
#[derive(Debug)]
pub struct BuildingTree {
    pub buildings: Vec<Building>,
    pub root_id: String,
    /// How many buildings have been completed (drives the cost doubling).
    pub buildings_built_count: u32,
}

impl BuildingTree {
    /// Ids are unique.
    pub open spec fn wf(&self) -> bool {
        forall|i: int, j: int|
            0 <= i < j < self.buildings@.len() ==> self.buildings@[i].id@
                != self.buildings@[j].id@
    }

    /// A tree holding just the root, nothing built yet.
    pub fn new(root_building: Building) -> (t: BuildingTree)
        ensures
            t.wf(),
            t.buildings@.len() == 1,
            t.buildings@[0] == root_building,
            t.root_id == root_building.id,
            t.buildings_built_count == 0,
    {
        let root_id = clone_string(&root_building.id);
        let mut buildings: Vec<Building> = Vec::new();
        buildings.push(root_building);
        BuildingTree { buildings, root_id, buildings_built_count: 0 }
    }

    /// Add a node: its id must be fresh, and it must either name an existing
    /// parent or be the root itself.
    pub fn add_building(&mut self, building: Building) -> (r: Result<(), BuildingError>)
        requires
            old(self).wf(),
        ensures
            final(self).wf(),
            r == (if find_building(old(self).buildings@, building.id@) is Some {
                Err::<(), BuildingError>(BuildingError::DuplicateId)
            } else if building.parent_id matches Some(p) && find_building(
                old(self).buildings@,
                p@,
            ) is None {
                Err::<(), BuildingError>(BuildingError::MissingParent)
            } else if building.parent_id is None && building.id@ != old(self).root_id@ {
                Err::<(), BuildingError>(BuildingError::RootRequired)
            } else {
                Ok::<(), BuildingError>(())
            }),
            r is Ok ==> final(self).buildings@ == old(self).buildings@.push(building),
            r is Err ==> final(self).buildings@ == old(self).buildings@,
            final(self).root_id == old(self).root_id,
            final(self).buildings_built_count == old(self).buildings_built_count,
    {
        if self.contains_id(&building.id) {
            return Err(BuildingError::DuplicateId);
        }
        match &building.parent_id {
            Some(parent_id) => {
                if !self.contains_id(parent_id) {
                    return Err(BuildingError::MissingParent);
                }
            },
            None => {
                if !(building.id == self.root_id) {
                    return Err(BuildingError::RootRequired);
                }
            },
        }
        proof {
            lemma_find_none_push(self.buildings@, building);
        }
        self.buildings.push(building);
        Ok(())
    }

    /// Whether any node carries the id.
    fn contains_id(&self, id: &String) -> (r: bool)
        ensures
            r == (find_building(self.buildings@, id@) is Some),
    {
        self.find_index(id).is_some()
    }

    /// The index of the node carrying the id.
    fn find_index(&self, id: &String) -> (r: Option<usize>)
        ensures
            match r {
                Some(i) => 0 <= i < self.buildings@.len() && self.buildings@[i as int].id@ == id@
                    && find_building(self.buildings@, id@) == Some(self.buildings@[i as int]),
                None => find_building(self.buildings@, id@) is None,
            },
    {
        let ghost s = self.buildings@;
        let n = self.buildings.len();
        proof {
            assert(s.subrange(0, n as int) =~= s);
        }
        let mut i: usize = 0;
        while i < n
            invariant
                0 <= i <= n,
                n == s.len(),
                self.buildings@ == s,
                find_building(s, id@) == find_building(s.subrange(i as int, n as int), id@),
            decreases n - i,
        {
            proof {
                lemma_find_building_split(s, id@, i as int);
            }
            if self.buildings[i].id == *id {
                return Some(i);
            }
            i = i + 1;
        }
        proof {
            assert(s.subrange(n as int, n as int) =~= Seq::<Building>::empty());
        }
        None
    }

    /// Whether the building may be built now, with the blocking reason.
    pub fn can_build(&self, building_id: &String) -> (r: Result<(), BuildingError>)
        ensures
            r == can_build_spec(self.buildings@, building_id@),
    {
        let idx = match self.find_index(building_id) {
            Some(i) => i,
            None => {
                return Err(BuildingError::NotFound);
            },
        };
        if self.buildings[idx].is_built {
            return Err(BuildingError::AlreadyBuilt);
        }
        let parent = match &self.buildings[idx].parent_id {
            Some(p) => p,
            None => {
                return Ok(());
            },
        };
        let pidx = match self.find_index(parent) {
            Some(i) => i,
            None => {
                return Err(BuildingError::MissingParent);
            },
        };
        if self.buildings[pidx].is_built {
            Ok(())
        } else {
            Err(BuildingError::ParentNotBuilt)
        }
    }

    /// The cost of building now: base cost times two per completed build.
    pub fn calculate_build_cost(&self, building_id: &String) -> (r: Result<u32, BuildingError>)
        ensures
            r == build_cost_spec(
                self.buildings@,
                building_id@,
                self.buildings_built_count as nat,
            ),
    {
        let idx = match self.find_index(building_id) {
            Some(i) => i,
            None => {
                return Err(BuildingError::NotFound);
            },
        };
        let base = self.buildings[idx].base_cost;
        let count = self.buildings_built_count;
        let ghost cnt = count as nat;
        let mut m: u64 = 1;
        let mut k: u32 = 0;
        while k < count && m <= (u32::MAX as u64)
            invariant
                0 <= k <= count,
                m == pow2(k as nat),
                1 <= m <= 0x2_0000_0000u64,
            decreases count - k,
        {
            m = m * 2;
            k = k + 1;
        }
        if k < count || m > (u32::MAX as u64) {
            // the multiplier alone exceeds 32 bits
            proof {
                lemma_pow2_mono(k as nat, cnt);
                if base > 0 {
                    assert(base * pow2(cnt) >= pow2(cnt)) by (nonlinear_arith)
                        requires
                            base >= 1,
                            pow2(cnt) >= 1,
                    ;
                }
                if base == 0 {
                    assert(base * pow2(cnt) == 0) by (nonlinear_arith)
                        requires
                            base == 0,
                    ;
                }
            }
            if base == 0 {
                return Ok(0);
            }
            return Err(BuildingError::CostOverflow);
        }
        proof {
            assert(base as int * m as int <= (u32::MAX as int) * (u32::MAX as int))
                by (nonlinear_arith)
                requires
                    0 <= base as int <= u32::MAX as int,
                    0 <= m as int <= u32::MAX as int,
            ;
        }
        let product: u64 = (base as u64) * m;
        proof {
            assert(product == base * pow2(cnt));
        }
        if product > u32::MAX as u64 {
            Err(BuildingError::CostOverflow)
        } else {
            Ok(product as u32)
        }
    }

    /// Build the node, when allowed: it is marked built and the completed
    /// count rises by one (capped). Reports how many conditional rules the
    /// building grants.
    pub fn build(&mut self, building_id: &String) -> (r: Result<usize, BuildingError>)
        requires
            old(self).wf(),
        ensures
            final(self).wf(),
            r matches Err(e) ==> can_build_spec(old(self).buildings@, building_id@) == Err::<
                (),
                BuildingError,
            >(e) && *final(self) == *old(self),
            r matches Ok(granted) ==> can_build_spec(old(self).buildings@, building_id@)
                is Ok && (exists|i: int|
                0 <= i < old(self).buildings@.len() && old(self).buildings@[i].id@ == building_id@
                    && final(self).buildings@ == old(self).buildings@.update(
                    i,
                    Building { is_built: true, ..old(self).buildings@[i] },
                ) && granted == old(self).buildings@[i].conditional_modifiers@.len())
                && final(self).buildings_built_count == (if old(self).buildings_built_count
                < u32::MAX {
                old(self).buildings_built_count + 1
            } else {
                u32::MAX as int
            }) && final(self).root_id == old(self).root_id,
    {
        match self.can_build(building_id) {
            Err(e) => Err(e),
            Ok(()) => {
                let idx = match self.find_index(building_id) {
                    Some(i) => i,
                    None => {
                        proof {
                            assert(false);
                        }
                        return Err(BuildingError::NotFound);
                    },
                };
                let granted = self.buildings[idx].conditional_modifiers.len();
                let mut b = self.buildings.remove(idx);
                b.is_built = true;
                self.buildings.insert(idx, b);
                proof {
                    assert(self.buildings@ =~= old(self).buildings@.update(
                        idx as int,
                        Building { is_built: true, ..old(self).buildings@[idx as int] },
                    ));
                }
                if self.buildings_built_count < u32::MAX {
                    self.buildings_built_count = self.buildings_built_count + 1;
                }
                Ok(granted)
            },
        }
    }

    /// How many nodes are built.
    pub fn get_built_count(&self) -> (r: usize)
        ensures
            r == built_count(self.buildings@),
    {
        let ghost s = self.buildings@;
        let n = self.buildings.len();
        proof {
            assert(s.subrange(n as int, n as int) =~= Seq::<Building>::empty());
            lemma_built_count_le(s);
        }
        let mut total: usize = 0;
        let mut i: usize = n;
        while i > 0
            invariant
                0 <= i <= n,
                n == s.len(),
                self.buildings@ == s,
                total == built_count(s.subrange(i as int, n as int)),
                total <= n - i,
            decreases i,
        {
            i = i - 1;
            proof {
                lemma_built_count_split(s, i as int);
                lemma_built_count_le(s.subrange(i as int + 1, n as int));
            }
            if self.buildings[i].is_built {
                total = total + 1;
            }
        }
        proof {
            assert(s.subrange(0, n as int) =~= s);
        }
        total
    }

    /// How many nodes the tree holds.
    pub fn get_total_count(&self) -> (r: usize)
        ensures
            r == self.buildings@.len(),
    {
        self.buildings.len()
    }
}

/// How many buildings of a sequence are built.
pub open spec fn built_count(s: Seq<Building>) -> int
    decreases s.len(),
{
    if s.len() == 0 {
        0
    } else {
        (if s[0].is_built {
            1int
        } else {
            0int
        }) + built_count(s.drop_first())
    }
}

proof fn lemma_built_count_split(s: Seq<Building>, i: int)
    requires
        0 <= i < s.len(),
    ensures
        built_count(s.subrange(i, s.len() as int)) == (if s[i].is_built {
            1int
        } else {
            0int
        }) + built_count(s.subrange(i + 1, s.len() as int)),
{
    assert(s.subrange(i, s.len() as int).drop_first() =~= s.subrange(i + 1, s.len() as int));
}

proof fn lemma_built_count_le(s: Seq<Building>)
    ensures
        0 <= built_count(s) <= s.len(),
    decreases s.len(),
{
    if s.len() > 0 {
        lemma_built_count_le(s.drop_first());
    }
}

proof fn lemma_find_building_split(s: Seq<Building>, id: Seq<char>, i: int)
    requires
        0 <= i < s.len(),
    ensures
        find_building(s.subrange(i, s.len() as int), id) == (if s[i].id@ == id {
            Some(s[i])
        } else {
            find_building(s.subrange(i + 1, s.len() as int), id)
        }),
{
    assert(s.subrange(i, s.len() as int).drop_first() =~= s.subrange(i + 1, s.len() as int));
}

/// Appending a node with a fresh id keeps ids unique.
proof fn lemma_find_none_push(s: Seq<Building>, b: Building)
    requires
        find_building(s, b.id@) is None,
        forall|i: int, j: int| 0 <= i < j < s.len() ==> s[i].id@ != s[j].id@,
    ensures
        forall|i: int, j: int|
            0 <= i < j < s.push(b).len() ==> s.push(b)[i].id@ != s.push(b)[j].id@,
    decreases s.len(),
{
    lemma_find_none_means_absent(s, b.id@);
    assert forall|i: int, j: int|
        0 <= i < j < s.push(b).len() implies s.push(b)[i].id@ != s.push(b)[j].id@ by {
        if j == s.len() {
            assert(s.push(b)[j] == b);
            assert(s.push(b)[i] == s[i]);
        } else {
            assert(s.push(b)[i] == s[i]);
            assert(s.push(b)[j] == s[j]);
        }
    }
}

/// A failed search means no node carries the id.
proof fn lemma_find_none_means_absent(s: Seq<Building>, id: Seq<char>)
    requires
        find_building(s, id) is None,
    ensures
        forall|i: int| 0 <= i < s.len() ==> (#[trigger] s[i]).id@ != id,
    decreases s.len(),
{
    if s.len() > 0 {
        lemma_find_none_means_absent(s.drop_first(), id);
        assert forall|i: int| 0 <= i < s.len() implies (#[trigger] s[i]).id@ != id by {
            if i > 0 {
                assert(s.drop_first()[i - 1] == s[i]);
            }
        }
    }
}

/// Powers of two grow with the exponent.
proof fn lemma_pow2_mono(a: nat, b: nat)
    requires
        a <= b,
    ensures
        pow2(a) <= pow2(b),
        pow2(a) >= 1,
    decreases b,
{
    if a < b {
        lemma_pow2_mono(a, (b - 1) as nat);
    } else if a > 0 {
        lemma_pow2_mono((a - 1) as nat, (b - 1) as nat);
    }
}

/// A copy of a string with the same characters.
fn clone_string(s: &String) -> (r: String)
    ensures
        r == *s,
{
    s.clone()
}


/// Every rule carried by any building has a representable magnitude.
pub open spec fn all_mods_wf(bs: Seq<Building>) -> bool {
    forall|a: int, b: int|
        0 <= a < bs.len() && 0 <= b < bs[a].conditional_modifiers@.len() ==> (
        #[trigger] bs[a].conditional_modifiers@[b]).modifier.wf()
}

/// The conditional rules granted by every built building, in tree order.
pub open spec fn built_mods(s: Seq<Building>) -> Seq<ConditionalModifier>
    decreases s.len(),
{
    if s.len() == 0 {
        Seq::empty()
    } else if s[0].is_built {
        s[0].conditional_modifiers@ + built_mods(s.drop_first())
    } else {
        built_mods(s.drop_first())
    }
}

/// Whether a building could be built right now.
pub open spec fn buildable_spec(all: Seq<Building>, b: Building) -> bool {
    !b.is_built && can_build_spec(all, b.id@) is Ok
}

/// The buildable buildings of a subsequence, in order.
pub open spec fn buildable_list(all: Seq<Building>, s: Seq<Building>) -> Seq<Building>
    decreases s.len(),
{
    if s.len() == 0 {
        Seq::empty()
    } else if buildable_spec(all, s[0]) {
        seq![s[0]] + buildable_list(all, s.drop_first())
    } else {
        buildable_list(all, s.drop_first())
    }
}

/// The children of a parent id, in order.
pub open spec fn children_list(s: Seq<Building>, parent: Seq<char>) -> Seq<Building>
    decreases s.len(),
{
    if s.len() == 0 {
        Seq::empty()
    } else if s[0].parent_id matches Some(p) && p@ == parent {
        seq![s[0]] + children_list(s.drop_first(), parent)
    } else {
        children_list(s.drop_first(), parent)
    }
}

impl BuildingTree {
    /// A borrow of every conditional rule granted by the built buildings, in
    /// tree order.
    pub fn get_all_modifiers<'a>(&'a self) -> (r: Vec<&'a ConditionalModifier>)
        ensures
            r@.len() == built_mods(self.buildings@).len(),
            forall|j: int|
                0 <= j < r@.len() ==> *(#[trigger] r@[j]) == built_mods(self.buildings@)[j],
    {
        let ghost s = self.buildings@;
        let n = self.buildings.len();
        let mut out: Vec<&ConditionalModifier> = Vec::new();
        let mut i: usize = 0;
        while i < n
            invariant
                0 <= i <= n,
                n == s.len(),
                self.buildings@ == s,
                out@.len() == built_mods(s.subrange(0, i as int)).len(),
                forall|j: int|
                    0 <= j < out@.len() ==> *(#[trigger] out@[j]) == built_mods(
                        s.subrange(0, i as int),
                    )[j],
            decreases n - i,
        {
            proof {
                lemma_built_mods_extend(s, i as int);
            }
            if self.buildings[i].is_built {
                let mods = &self.buildings[i].conditional_modifiers;
                let m = mods.len();
                let mut j: usize = 0;
                while j < m
                    invariant
                        0 <= j <= m,
                        0 <= i < n,
                        n == s.len(),
                        self.buildings@ == s,
                        m == s[i as int].conditional_modifiers@.len(),
                        mods == &self.buildings@[i as int].conditional_modifiers,
                        out@.len() == built_mods(s.subrange(0, i as int)).len() + j,
                        forall|k: int|
                            0 <= k < built_mods(s.subrange(0, i as int)).len() ==> *(
                            #[trigger] out@[k]) == built_mods(s.subrange(0, i as int))[k],
                        forall|k: int|
                            0 <= k < j ==> *(#[trigger] out@[built_mods(
                                s.subrange(0, i as int),
                            ).len() + k]) == s[i as int].conditional_modifiers@[k],
                    decreases m - j,
                {
                    out.push(&mods[j]);
                    j = j + 1;
                }
                proof {
                    let base = built_mods(s.subrange(0, i as int)).len() as int;
                    assert forall|jj: int|
                        0 <= jj < out@.len() implies *(#[trigger] out@[jj]) == built_mods(
                        s.subrange(0, i as int + 1),
                    )[jj] by {
                        if jj >= base {
                            assert(*out@[base + (jj - base)]
                                == s[i as int].conditional_modifiers@[jj - base]);
                        }
                    }
                }
            }
            i = i + 1;
        }
        proof {
            assert(s.subrange(0, n as int) =~= s);
        }
        out
    }

    /// A borrow of every building that could be built right now, in order.
    pub fn get_buildable_buildings<'a>(&'a self) -> (r: Vec<&'a Building>)
        ensures
            r@.len() == buildable_list(self.buildings@, self.buildings@).len(),
            forall|j: int|
                0 <= j < r@.len() ==> *(#[trigger] r@[j]) == buildable_list(
                    self.buildings@,
                    self.buildings@,
                )[j],
    {
        let ghost s = self.buildings@;
        let n = self.buildings.len();
        proof {
            assert(s.subrange(0, n as int) =~= s);
        }
        let mut out: Vec<&Building> = Vec::new();
        let mut i: usize = 0;
        while i < n
            invariant
                0 <= i <= n,
                n == s.len(),
                self.buildings@ == s,
                out@.len() == buildable_list(s, s.subrange(0, i as int)).len(),
                forall|j: int|
                    0 <= j < out@.len() ==> *(#[trigger] out@[j]) == buildable_list(
                        s,
                        s.subrange(0, i as int),
                    )[j],
            decreases n - i,
        {
            proof {
                lemma_buildable_extend(s, i as int);
            }
            let candidate = &self.buildings[i];
            if !candidate.is_built && self.can_build(&candidate.id).is_ok() {
                out.push(&self.buildings[i]);
            }
            i = i + 1;
        }
        out
    }

    /// A borrow of every child of the given parent, in order.
    pub fn get_children<'a>(&'a self, parent_id: &String) -> (r: Vec<&'a Building>)
        ensures
            r@.len() == children_list(self.buildings@, parent_id@).len(),
            forall|j: int|
                0 <= j < r@.len() ==> *(#[trigger] r@[j]) == children_list(
                    self.buildings@,
                    parent_id@,
                )[j],
    {
        let ghost s = self.buildings@;
        let n = self.buildings.len();
        proof {
            assert(s.subrange(0, n as int) =~= s);
        }
        let mut out: Vec<&Building> = Vec::new();
        let mut i: usize = 0;
        while i < n
            invariant
                0 <= i <= n,
                n == s.len(),
                self.buildings@ == s,
                out@.len() == children_list(s.subrange(0, i as int), parent_id@).len(),
                forall|j: int|
                    0 <= j < out@.len() ==> *(#[trigger] out@[j]) == children_list(
                        s.subrange(0, i as int),
                        parent_id@,
                    )[j],
            decreases n - i,
        {
            proof {
                lemma_children_extend(s, parent_id@, i as int);
            }
            let is_child = match &self.buildings[i].parent_id {
                Some(p) => *p == *parent_id,
                None => false,
            };
            if is_child {
                out.push(&self.buildings[i]);
            }
            i = i + 1;
        }
        out
    }
}

proof fn lemma_built_mods_extend(s: Seq<Building>, i: int)
    requires
        0 <= i < s.len(),
    ensures
        built_mods(s.subrange(0, i + 1)) == (if s[i].is_built {
            built_mods(s.subrange(0, i)) + s[i].conditional_modifiers@
        } else {
            built_mods(s.subrange(0, i))
        }),
    decreases i,
{
    if i == 0 {
        assert(s.subrange(0, 1).drop_first() =~= Seq::<Building>::empty());
        assert(s.subrange(0, 0) =~= Seq::<Building>::empty());
        if s[0].is_built {
            assert(built_mods(s.subrange(0, 1)) =~= built_mods(s.subrange(0, 0))
                + s[0].conditional_modifiers@);
        }
    } else {
        lemma_built_mods_extend(s.drop_first(), i - 1);
        assert(s.subrange(0, i + 1).drop_first() =~= s.drop_first().subrange(0, i));
        assert(s.subrange(0, i).drop_first() =~= s.drop_first().subrange(0, i - 1));
        assert(s.drop_first()[i - 1] == s[i]);
        if s[i].is_built {
            assert(built_mods(s.subrange(0, i + 1)) =~= built_mods(s.subrange(0, i))
                + s[i].conditional_modifiers@);
        }
    }
}

proof fn lemma_buildable_extend(s: Seq<Building>, i: int)
    requires
        0 <= i < s.len(),
    ensures
        buildable_list(s, s.subrange(0, i + 1)) == (if buildable_spec(s, s[i]) {
            buildable_list(s, s.subrange(0, i)) + seq![s[i]]
        } else {
            buildable_list(s, s.subrange(0, i))
        }),
{
    lemma_buildable_extend_gen(s, s.subrange(0, i + 1), i);
    assert(s.subrange(0, i + 1).subrange(0, i) =~= s.subrange(0, i));
}

proof fn lemma_buildable_extend_gen(all: Seq<Building>, s: Seq<Building>, i: int)
    requires
        i + 1 == s.len(),
        0 <= i,
    ensures
        buildable_list(all, s) == (if buildable_spec(all, s[i]) {
            buildable_list(all, s.subrange(0, i)) + seq![s[i]]
        } else {
            buildable_list(all, s.subrange(0, i))
        }),
    decreases s.len(),
{
    if i == 0 {
        assert(s.drop_first() =~= Seq::<Building>::empty());
        assert(s.subrange(0, 0) =~= Seq::<Building>::empty());
        if buildable_spec(all, s[0]) {
            assert(buildable_list(all, s) =~= buildable_list(all, s.subrange(0, 0)) + seq![s[0]]);
        }
    } else {
        lemma_buildable_extend_gen(all, s.drop_first(), i - 1);
        assert(s.drop_first().subrange(0, i - 1) =~= s.subrange(0, i).drop_first());
        assert(s.drop_first()[i - 1] == s[i]);
        if buildable_spec(all, s[i]) {
            assert(buildable_list(all, s) =~= buildable_list(all, s.subrange(0, i)) + seq![s[i]]);
        } else {
            assert(buildable_list(all, s) =~= buildable_list(all, s.subrange(0, i)));
        }
    }
}

proof fn lemma_children_extend(s: Seq<Building>, parent: Seq<char>, i: int)
    requires
        0 <= i < s.len(),
    ensures
        children_list(s.subrange(0, i + 1), parent) == (if s[i].parent_id matches Some(p) && p@
            == parent {
            children_list(s.subrange(0, i), parent) + seq![s[i]]
        } else {
            children_list(s.subrange(0, i), parent)
        }),
    decreases i,
{
    if i == 0 {
        assert(s.subrange(0, 1).drop_first() =~= Seq::<Building>::empty());
        assert(s.subrange(0, 0) =~= Seq::<Building>::empty());
        if s[0].parent_id matches Some(p) && p@ == parent {
            assert(children_list(s.subrange(0, 1), parent) =~= children_list(
                s.subrange(0, 0),
                parent,
            ) + seq![s[0]]);
        }
    } else {
        lemma_children_extend(s.drop_first(), parent, i - 1);
        assert(s.subrange(0, i + 1).drop_first() =~= s.drop_first().subrange(0, i));
        assert(s.subrange(0, i).drop_first() =~= s.drop_first().subrange(0, i - 1));
        assert(s.drop_first()[i - 1] == s[i]);
        if s[i].parent_id matches Some(p) && p@ == parent {
            assert(children_list(s.subrange(0, i + 1), parent) =~= children_list(
                s.subrange(0, i),
                parent,
            ) + seq![s[i]]);
        }
    }
}

/// A convenience builder for assembling a tree from a flat list.
pub struct BuildingTreeBuilder {
    pub buildings: Vec<Building>,
}

impl BuildingTreeBuilder {
    pub fn new() -> (r: BuildingTreeBuilder)
        ensures
            r.buildings@ =~= Seq::<Building>::empty(),
    {
        BuildingTreeBuilder { buildings: Vec::new() }
    }

    /// Stage the root building.
    pub fn root(self, building: Building) -> (r: BuildingTreeBuilder)
        requires
            building.parent_id is None,
        ensures
            r.buildings@ == self.buildings@.push(building),
    {
        let mut b = self;
        b.buildings.push(building);
        b
    }

    /// Stage a child building.
    pub fn child(self, building: Building) -> (r: BuildingTreeBuilder)
        requires
            building.parent_id is Some,
        ensures
            r.buildings@ == self.buildings@.push(building),
    {
        let mut b = self;
        b.buildings.push(building);
        b
    }

    /// Assemble the staged buildings into a tree: the first staged root
    /// becomes the tree's root, every other staged building is added under
    /// its parent. Fails when no root was staged or an addition is refused.
    pub fn build(self) -> (r: Result<BuildingTree, BuildingError>)
        ensures
            r matches Ok(t) ==> t.wf() && t.buildings_built_count == 0,
            self.buildings@.len() == 0 ==> r is Err,
    {
        let mut staged = self.buildings;
        let n = staged.len();
        let mut root_idx: usize = 0;
        let mut found = false;
        let mut i: usize = 0;
        while i < n
            invariant
                0 <= i <= n,
                n == staged.len(),
                found ==> root_idx < n && staged@[root_idx as int].parent_id is None,
            decreases n - i,
        {
            if !found && staged[i].parent_id.is_none() {
                root_idx = i;
                found = true;
            }
            i = i + 1;
        }
        if !found {
            return Err(BuildingError::RootRequired);
        }
        let root = staged.remove(root_idx);
        let mut tree = BuildingTree::new(root);
        while staged.len() > 0
            invariant
                tree.wf(),
                tree.buildings_built_count == 0,
            decreases staged.len(),
        {
            let b = staged.remove(0);
            if b.parent_id.is_some() {
                let outcome = tree.add_building(b);
                if outcome.is_err() {
                    return outcome_err(outcome);
                }
            }
        }
        Ok(tree)
    }
}

/// Re-wrap an error outcome with a different success type.
fn outcome_err(outcome: Result<(), BuildingError>) -> (r: Result<BuildingTree, BuildingError>)
    requires
        outcome is Err,
    ensures
        r is Err,
{
    match outcome {
        Err(e) => Err(e),
        Ok(()) => Err(BuildingError::RootRequired),
    }
}

/// The stock construction tree: a main hall opening into libraries, alchemy
/// and training facilities, each granting organization-wide rules.
pub fn create_default_sect_building_tree() -> (t: BuildingTree)
    ensures
        t.wf(),
        t.buildings_built_count == 0,
        t.root_id@ == "main_hall"@,
        t.buildings@.len() >= 1,
{
    let mut mods: Vec<ConditionalModifier> = Vec::new();
    mods.push(
        ConditionalModifier::new(
            ModifierCondition::Always,
            Modifier::new(
                lit("HallAuthority"),
                ModifierTarget::Income,
                ModifierApplication::Multiplicative(100),
                ModifierSource::System,
            ),
        ),
    );
    let root = Building::new_root(
        lit("main_hall"),
        lit("Grand Hall"),
        lit("The heart of the sect"),
        100,
        mods,
    );
    let mut tree = BuildingTree::new(root);
    add_child_with(
        &mut tree,
        "library",
        "Library",
        "Technique archives that speed up training",
        150,
        "main_hall",
        ModifierCondition::Always,
        "TechniqueBoost",
        ModifierTarget::CultivationSpeed,
        ModifierApplication::Multiplicative(150),
    );
    add_child_with(
        &mut tree,
        "alchemy_room",
        "Alchemy Room",
        "Pill craft that softens stamina costs",
        150,
        "main_hall",
        ModifierCondition::Always,
        "PillNourishment",
        ModifierTarget::EnergyConsumption,
        ModifierApplication::Multiplicative(-200),
    );
    add_child_with(
        &mut tree,
        "training_ground",
        "Training Ground",
        "Sparring that hardens the body",
        150,
        "main_hall",
        ModifierCondition::Always,
        "BodyTempering",
        ModifierTarget::ConstitutionConsumption,
        ModifierApplication::Multiplicative(-200),
    );
    add_child_with(
        &mut tree,
        "heavenly_pavilion",
        "Heavenly Pavilion",
        "Divination that raises inner members' task rewards",
        200,
        "library",
        ModifierCondition::DiscipleTypeEquals(DiscipleType::Inner),
        "HeavenlyInsight",
        ModifierTarget::TaskReward,
        ModifierApplication::Multiplicative(250),
    );
    add_child_with(
        &mut tree,
        "spirit_garden",
        "Spirit Garden",
        "Herb plots that raise income",
        200,
        "alchemy_room",
        ModifierCondition::Always,
        "SpiritHarvest",
        ModifierTarget::Income,
        ModifierApplication::Multiplicative(200),
    );
    add_child_with(
        &mut tree,
        "weapon_forge",
        "Weapon Forge",
        "Artifacts that raise task suitability",
        200,
        "training_ground",
        ModifierCondition::Always,
        "ArtifactEdge",
        ModifierTarget::TaskSuitability,
        ModifierApplication::Additive(5000),
    );
    add_child_with(
        &mut tree,
        "heritage_hall",
        "Heritage Hall",
        "Supreme legacies that hasten core members",
        300,
        "heavenly_pavilion",
        ModifierCondition::DiscipleTypeEquals(DiscipleType::Personal),
        "LegacyPower",
        ModifierTarget::CultivationSpeed,
        ModifierApplication::Multiplicative(500),
    );
    add_child_with(
        &mut tree,
        "spirit_array",
        "Spirit Array",
        "Gathered essence for members past the first tier",
        300,
        "spirit_garden",
        ModifierCondition::CultivationLevelGreaterThan(CultivationLevel::QiRefining),
        "EssenceFlow",
        ModifierTarget::CultivationSpeed,
        ModifierApplication::Multiplicative(300),
    );
    add_child_with(
        &mut tree,
        "protection_array",
        "Protection Array",
        "Wards that steady every member's morale",
        300,
        "weapon_forge",
        ModifierCondition::Always,
        "WardShelter",
        ModifierTarget::DaoHeart,
        ModifierApplication::Additive(10000),
    );
    tree
}

/// Stage one child of the stock tree; a refused addition leaves the tree as
/// it was.
fn add_child_with(
    tree: &mut BuildingTree,
    id: &str,
    name: &str,
    description: &str,
    base_cost: u32,
    parent: &str,
    condition: ModifierCondition,
    modifier_name: &str,
    target: ModifierTarget,
    application: ModifierApplication,
)
    requires
        old(tree).wf(),
        application.wf(),
    ensures
        final(tree).wf(),
        final(tree).buildings_built_count == old(tree).buildings_built_count,
        final(tree).root_id == old(tree).root_id,
        final(tree).buildings@.len() >= old(tree).buildings@.len(),
{
    let mut mods: Vec<ConditionalModifier> = Vec::new();
    mods.push(
        ConditionalModifier::new(
            condition,
            Modifier::new(lit(modifier_name), target, application, ModifierSource::System),
        ),
    );
    let child = Building::new_child(
        lit(id),
        lit(name),
        lit(description),
        base_cost,
        lit(parent),
        mods,
    );
    // the stock list has unique ids and existing parents, so nothing here
    // is refused; a refused node would simply be skipped
    let _ = tree.add_building(child);
}

/// A String holding the same characters as the given literal.
fn lit(s: &str) -> (r: String)
    ensures
        r@ == s@,
{
    <String as vstd::string::StringExecFns>::from_str(s)
}

} // verus!
