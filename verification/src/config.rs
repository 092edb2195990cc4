//! Configuration templates: the data shapes the world is generated from, and
//! their conversion into live rule objects. Reading and writing config files
//! is the caller's business; this module only holds and converts the data.

use vstd::prelude::*;
use crate::cultivation::CultivationLevel;
use crate::disciple::{DiscipleType, TalentType};
use crate::modifier::{
    Modifier, ModifierTarget, ModifierApplication, ModifierSource, ModifierCondition,
    ConditionalModifier,
};

verus! {

/// A map coordinate in a template.
#[derive(Debug, Clone, Copy, PartialEq, Eq, Structural)]
pub struct PositionConfig {
    pub x: i32,
    pub y: i32,
}

/// A footprint for larger structures.
#[derive(Debug, Clone, Copy, PartialEq, Eq, Structural)]
pub struct SizeConfig {
    pub width: u32,
    pub height: u32,
}

/// A task blueprint: `name_template` may carry a `{name}` placeholder filled
/// with the place's name.
#[derive(Debug, Clone)]
pub struct TaskTemplateConfig {
    pub name_template: String,
    /// One of the five category names.
    pub task_type: String,
    pub progress_reward: u32,
    pub resource_reward: u32,
    pub reputation_reward: i32,
    pub dao_heart_impact: i32,
    pub resource_type: Option<String>,
    pub difficulty: Option<u32>,
    pub danger_level: Option<u32>,
    pub skill_required: Option<String>,
}

/// A village blueprint.
#[derive(Debug, Clone)]
pub struct VillageTemplate {
    pub name: String,
    pub population: u32,
    pub prosperity: u32,
    pub position: PositionConfig,
    pub size: Option<SizeConfig>,
    pub task_templates: Vec<TaskTemplateConfig>,
}

/// A faction blueprint.
#[derive(Debug, Clone)]
pub struct FactionTemplate {
    pub name: String,
    pub power_level: u32,
    pub relationship: i32,
    pub position: PositionConfig,
    pub size: Option<SizeConfig>,
    pub friendly_task_templates: Vec<TaskTemplateConfig>,
    pub hostile_task_templates: Vec<TaskTemplateConfig>,
}

/// A dangerous-place blueprint.
#[derive(Debug, Clone)]
pub struct DangerousLocationTemplate {
    pub name: String,
    pub danger_level: u32,
    pub position: PositionConfig,
    pub size: Option<SizeConfig>,
    pub task_templates: Vec<TaskTemplateConfig>,
}

/// A hidden-realm blueprint.
#[derive(Debug, Clone)]
pub struct SecretRealmTemplate {
    pub name: String,
    pub realm_type: String,
    pub difficulty: u32,
    pub position: PositionConfig,
    pub size: Option<SizeConfig>,
    pub task_templates: Vec<TaskTemplateConfig>,
}

/// A monster blueprint; the growth rate is a per-turn probability in fixed
/// point (thousandths).
#[derive(Debug, Clone)]
pub struct MonsterTemplate {
    pub name: String,
    pub level: u32,
    pub is_demon: bool,
    pub growth_rate: u32,
    pub position: Option<PositionConfig>,
    pub task_templates: Vec<TaskTemplateConfig>,
}

/// How new monsters appear: a per-turn chance in fixed point (thousandths),
/// a level range, and a name pool.
#[derive(Debug, Clone)]
pub struct SpawnRules {
    pub spawn_chance: u32,
    pub min_level: u32,
    pub max_level: u32,
    pub random_names: Vec<String>,
}

/// The static map content.
#[derive(Debug, Clone)]
pub struct MapElementsConfig {
    pub villages: Vec<VillageTemplate>,
    pub factions: Vec<FactionTemplate>,
    pub dangerous_locations: Vec<DangerousLocationTemplate>,
    pub secret_realms: Vec<SecretRealmTemplate>,
}

/// The monster roster and spawning rules.
#[derive(Debug, Clone)]
pub struct MonstersConfig {
    pub monster_templates: Vec<MonsterTemplate>,
    pub spawn_rules: SpawnRules,
}

/// All loaded configuration.
#[derive(Debug, Clone)]
pub struct ConfigManager {
    pub map_elements: MapElementsConfig,
    pub monsters: MonstersConfig,
}

/// Parse a tier name; unknown names fall back to the lowest tier.
pub open spec fn parse_level_spec(s: Seq<char>) -> CultivationLevel {
    if s == "Foundation"@ {
        CultivationLevel::Foundation
    } else if s == "GoldenCore"@ {
        CultivationLevel::GoldenCore
    } else if s == "NascentSoul"@ {
        CultivationLevel::NascentSoul
    } else if s == "SpiritSevering"@ {
        CultivationLevel::SpiritSevering
    } else if s == "VoidRefinement"@ {
        CultivationLevel::VoidRefinement
    } else if s == "Ascension"@ {
        CultivationLevel::Ascension
    } else {
        CultivationLevel::QiRefining
    }
}

/// Parse a standing name; unknown names fall back to the outer standing.
pub open spec fn parse_type_spec(s: Seq<char>) -> DiscipleType {
    if s == "Inner"@ {
        DiscipleType::Inner
    } else if s == "Personal"@ || s == "Core"@ {
        DiscipleType::Personal
    } else {
        DiscipleType::Outer
    }
}

/// Parse a provenance name; unknown names fall back to System.
pub open spec fn parse_source_spec(s: Seq<char>) -> ModifierSource {
    if s == "Talent"@ {
        ModifierSource::Talent
    } else if s == "Equipment"@ {
        ModifierSource::Equipment
    } else if s == "Buff"@ {
        ModifierSource::Buff
    } else if s == "Debuff"@ {
        ModifierSource::Debuff
    } else if s == "Pill"@ {
        ModifierSource::Pill
    } else if s == "Heritage"@ {
        ModifierSource::Heritage
    } else if s == "Environment"@ {
        ModifierSource::Environment
    } else if s == "Relationship"@ {
        ModifierSource::Relationship
    } else {
        ModifierSource::System
    }
}

/// Parse a talent name; unknown names fall back to Fire.
pub open spec fn parse_talent_spec(s: Seq<char>) -> TalentType {
    match parse_talent_option_spec(s) {
        Some(t) => t,
        None => TalentType::Fire,
    }
}

/// Parse a talent name, rejecting unknown ones.
pub open spec fn parse_talent_option_spec(s: Seq<char>) -> Option<TalentType> {
    if s == "Fire"@ {
        Some(TalentType::Fire)
    } else if s == "Water"@ {
        Some(TalentType::Water)
    } else if s == "Wood"@ {
        Some(TalentType::Wood)
    } else if s == "Metal"@ {
        Some(TalentType::Metal)
    } else if s == "Earth"@ {
        Some(TalentType::Earth)
    } else if s == "Sword"@ {
        Some(TalentType::Sword)
    } else if s == "Alchemy"@ {
        Some(TalentType::Alchemy)
    } else if s == "Formation"@ {
        Some(TalentType::Formation)
    } else if s == "Medical"@ {
        Some(TalentType::Medical)
    } else {
        None
    }
}

/// A String holding the same characters as the given literal.
fn lit(s: &str) -> (r: String)
    ensures
        r@ == s@,
{
    <String as vstd::string::StringExecFns>::from_str(s)
}

/// Parse a talent name, rejecting unknown ones.
pub fn parse_talent_type_option(s: &String) -> (r: Option<TalentType>)
    ensures
        r == parse_talent_option_spec(s@),
{
    if *s == lit("Fire") {
        Some(TalentType::Fire)
    } else if *s == lit("Water") {
        Some(TalentType::Water)
    } else if *s == lit("Wood") {
        Some(TalentType::Wood)
    } else if *s == lit("Metal") {
        Some(TalentType::Metal)
    } else if *s == lit("Earth") {
        Some(TalentType::Earth)
    } else if *s == lit("Sword") {
        Some(TalentType::Sword)
    } else if *s == lit("Alchemy") {
        Some(TalentType::Alchemy)
    } else if *s == lit("Formation") {
        Some(TalentType::Formation)
    } else if *s == lit("Medical") {
        Some(TalentType::Medical)
    } else {
        None
    }
}

/// Parse a talent name; unknown names fall back to Fire.
pub fn parse_talent_type(s: &String) -> (r: TalentType)
    ensures
        r == parse_talent_spec(s@),
{
    match parse_talent_type_option(s) {
        Some(t) => t,
        None => TalentType::Fire,
    }
}

/// The rule target named in a config entry.
#[derive(Debug, Clone)]
pub enum ModifierTargetConfig {
    DaoHeart,
    Energy,
    Constitution,
    TalentBonus { talent_type: String },
    TribulationSuccessRate,
    TaskReward,
    TaskSuitability,
    TaskDifficulty,
    Income,
    EnergyConsumption,
    ConstitutionConsumption,
    CultivationSpeed,
}

impl ModifierTargetConfig {
    /// The live target this entry names.
    pub open spec fn to_target_spec(self) -> ModifierTarget {
        match self {
            ModifierTargetConfig::DaoHeart => ModifierTarget::DaoHeart,
            ModifierTargetConfig::Energy => ModifierTarget::Energy,
            ModifierTargetConfig::Constitution => ModifierTarget::Constitution,
            ModifierTargetConfig::TalentBonus { talent_type } => ModifierTarget::TalentBonus(
                parse_talent_spec(talent_type@),
            ),
            ModifierTargetConfig::TribulationSuccessRate => ModifierTarget::TribulationSuccessRate,
            ModifierTargetConfig::TaskReward => ModifierTarget::TaskReward,
            ModifierTargetConfig::TaskSuitability => ModifierTarget::TaskSuitability,
            ModifierTargetConfig::TaskDifficulty => ModifierTarget::TaskDifficulty,
            ModifierTargetConfig::Income => ModifierTarget::Income,
            ModifierTargetConfig::EnergyConsumption => ModifierTarget::EnergyConsumption,
            ModifierTargetConfig::ConstitutionConsumption => ModifierTarget::ConstitutionConsumption,
            ModifierTargetConfig::CultivationSpeed => ModifierTarget::CultivationSpeed,
        }
    }

    pub fn to_modifier_target(&self) -> (r: ModifierTarget)
        ensures
            r == self.to_target_spec(),
    {
        match self {
            ModifierTargetConfig::DaoHeart => ModifierTarget::DaoHeart,
            ModifierTargetConfig::Energy => ModifierTarget::Energy,
            ModifierTargetConfig::Constitution => ModifierTarget::Constitution,
            ModifierTargetConfig::TalentBonus { talent_type } => ModifierTarget::TalentBonus(
                parse_talent_type(talent_type),
            ),
            ModifierTargetConfig::TribulationSuccessRate => ModifierTarget::TribulationSuccessRate,
            ModifierTargetConfig::TaskReward => ModifierTarget::TaskReward,
            ModifierTargetConfig::TaskSuitability => ModifierTarget::TaskSuitability,
            ModifierTargetConfig::TaskDifficulty => ModifierTarget::TaskDifficulty,
            ModifierTargetConfig::Income => ModifierTarget::Income,
            ModifierTargetConfig::EnergyConsumption => ModifierTarget::EnergyConsumption,
            ModifierTargetConfig::ConstitutionConsumption => ModifierTarget::ConstitutionConsumption,
            ModifierTargetConfig::CultivationSpeed => ModifierTarget::CultivationSpeed,
        }
    }
}

/// The application mode named in a config entry, with a fixed-point value.
#[derive(Debug, Clone, Copy, PartialEq, Eq, Structural)]
pub enum ModifierApplicationConfig {
    Additive { value: i64 },
    Multiplicative { value: i64 },
    Override { value: i64 },
}

impl ModifierApplicationConfig {
    /// The live application mode this entry names.
    pub open spec fn to_application_spec(self) -> ModifierApplication {
        match self {
            ModifierApplicationConfig::Additive { value } => ModifierApplication::Additive(value),
            ModifierApplicationConfig::Multiplicative { value } => ModifierApplication::Multiplicative(
                value,
            ),
            ModifierApplicationConfig::Override { value } => ModifierApplication::Override(value),
        }
    }

    pub fn to_modifier_application(&self) -> (r: ModifierApplication)
        ensures
            r == self.to_application_spec(),
    {
        match self {
            ModifierApplicationConfig::Additive { value } => ModifierApplication::Additive(*value),
            ModifierApplicationConfig::Multiplicative { value } => ModifierApplication::Multiplicative(
                *value,
            ),
            ModifierApplicationConfig::Override { value } => ModifierApplication::Override(*value),
        }
    }
}

/// The condition named in a config entry.
#[derive(Debug)]
pub enum ModifierConditionConfig {
    Always,
    CultivationLevelEquals { level: String },
    CultivationLevelGreaterThan { level: String },
    CultivationLevelLessThan { level: String },
    CultivationLevelGreaterOrEqual { level: String },
    CultivationLevelLessOrEqual { level: String },
    DiscipleTypeEquals { disciple_type: String },
    DaoHeartGreaterThan { value: u32 },
    DaoHeartLessThan { value: u32 },
    EnergyGreaterThan { value: u32 },
    EnergyLessThan { value: u32 },
    ConstitutionGreaterThan { value: u32 },
    ConstitutionLessThan { value: u32 },
    AgeGreaterThan { value: u32 },
    AgeLessThan { value: u32 },
    AgeEquals { value: u32 },
    And { conditions: Vec<ModifierConditionConfig> },
    Or { conditions: Vec<ModifierConditionConfig> },
    Not { condition: Box<ModifierConditionConfig> },
}

/// The conversion relation between a config condition and a live condition:
/// leaves parse their names, And/Or/Not convert child for child.
pub open spec fn converts_to(c: ModifierConditionConfig, m: ModifierCondition) -> bool
    decreases c,
{
    match c {
        ModifierConditionConfig::Always => m == ModifierCondition::Always,
        ModifierConditionConfig::CultivationLevelEquals { level } => m
            == ModifierCondition::CultivationLevelEquals(parse_level_spec(level@)),
        ModifierConditionConfig::CultivationLevelGreaterThan { level } => m
            == ModifierCondition::CultivationLevelGreaterThan(parse_level_spec(level@)),
        ModifierConditionConfig::CultivationLevelLessThan { level } => m
            == ModifierCondition::CultivationLevelLessThan(parse_level_spec(level@)),
        ModifierConditionConfig::CultivationLevelGreaterOrEqual { level } => m
            == ModifierCondition::CultivationLevelGreaterOrEqual(parse_level_spec(level@)),
        ModifierConditionConfig::CultivationLevelLessOrEqual { level } => m
            == ModifierCondition::CultivationLevelLessOrEqual(parse_level_spec(level@)),
        ModifierConditionConfig::DiscipleTypeEquals { disciple_type } => m
            == ModifierCondition::DiscipleTypeEquals(parse_type_spec(disciple_type@)),
        ModifierConditionConfig::DaoHeartGreaterThan { value } => m
            == ModifierCondition::DaoHeartGreaterThan(value),
        ModifierConditionConfig::DaoHeartLessThan { value } => m
            == ModifierCondition::DaoHeartLessThan(value),
        ModifierConditionConfig::EnergyGreaterThan { value } => m
            == ModifierCondition::EnergyGreaterThan(value),
        ModifierConditionConfig::EnergyLessThan { value } => m == ModifierCondition::EnergyLessThan(
            value,
        ),
        ModifierConditionConfig::ConstitutionGreaterThan { value } => m
            == ModifierCondition::ConstitutionGreaterThan(value),
        ModifierConditionConfig::ConstitutionLessThan { value } => m
            == ModifierCondition::ConstitutionLessThan(value),
        ModifierConditionConfig::AgeGreaterThan { value } => m == ModifierCondition::AgeGreaterThan(
            value,
        ),
        ModifierConditionConfig::AgeLessThan { value } => m == ModifierCondition::AgeLessThan(value),
        ModifierConditionConfig::AgeEquals { value } => m == ModifierCondition::AgeEquals(value),
        ModifierConditionConfig::And { conditions } => (m matches ModifierCondition::And(cs)
            && cs@.len() == conditions@.len() && (forall|i: int|
            0 <= i < conditions@.len() ==> converts_to(#[trigger] conditions@[i], cs@[i]))),
        ModifierConditionConfig::Or { conditions } => (m matches ModifierCondition::Or(cs)
            && cs@.len() == conditions@.len() && (forall|i: int|
            0 <= i < conditions@.len() ==> converts_to(#[trigger] conditions@[i], cs@[i]))),
        ModifierConditionConfig::Not { condition } => (m matches ModifierCondition::Not(b)
            && converts_to(*condition, *b)),
    }
}

impl ModifierConditionConfig {
    /// The live condition this entry names.
    pub fn to_modifier_condition(&self) -> (r: ModifierCondition)
        ensures
            converts_to(*self, r),
        decreases *self,
    {
        match self {
            ModifierConditionConfig::Always => ModifierCondition::Always,
            ModifierConditionConfig::CultivationLevelEquals { level } => ModifierCondition::CultivationLevelEquals(
                parse_cultivation_level(level),
            ),
            ModifierConditionConfig::CultivationLevelGreaterThan { level } => ModifierCondition::CultivationLevelGreaterThan(
                parse_cultivation_level(level),
            ),
            ModifierConditionConfig::CultivationLevelLessThan { level } => ModifierCondition::CultivationLevelLessThan(
                parse_cultivation_level(level),
            ),
            ModifierConditionConfig::CultivationLevelGreaterOrEqual { level } => ModifierCondition::CultivationLevelGreaterOrEqual(
                parse_cultivation_level(level),
            ),
            ModifierConditionConfig::CultivationLevelLessOrEqual { level } => ModifierCondition::CultivationLevelLessOrEqual(
                parse_cultivation_level(level),
            ),
            ModifierConditionConfig::DiscipleTypeEquals { disciple_type } => ModifierCondition::DiscipleTypeEquals(
                parse_disciple_type(disciple_type),
            ),
            ModifierConditionConfig::DaoHeartGreaterThan { value } => ModifierCondition::DaoHeartGreaterThan(
                *value,
            ),
            ModifierConditionConfig::DaoHeartLessThan { value } => ModifierCondition::DaoHeartLessThan(
                *value,
            ),
            ModifierConditionConfig::EnergyGreaterThan { value } => ModifierCondition::EnergyGreaterThan(
                *value,
            ),
            ModifierConditionConfig::EnergyLessThan { value } => ModifierCondition::EnergyLessThan(
                *value,
            ),
            ModifierConditionConfig::ConstitutionGreaterThan { value } => ModifierCondition::ConstitutionGreaterThan(
                *value,
            ),
            ModifierConditionConfig::ConstitutionLessThan { value } => ModifierCondition::ConstitutionLessThan(
                *value,
            ),
            ModifierConditionConfig::AgeGreaterThan { value } => ModifierCondition::AgeGreaterThan(
                *value,
            ),
            ModifierConditionConfig::AgeLessThan { value } => ModifierCondition::AgeLessThan(*value),
            ModifierConditionConfig::AgeEquals { value } => ModifierCondition::AgeEquals(*value),
            ModifierConditionConfig::And { conditions } => {
                let n = conditions.len();
                let mut out: Vec<ModifierCondition> = Vec::new();
                let mut i: usize = 0;
                while i < n
                    invariant
                        0 <= i <= n,
                        n == conditions@.len(),
                        *self == (ModifierConditionConfig::And { conditions: *conditions }),
                        out@.len() == i,
                        forall|k: int|
                            0 <= k < i ==> converts_to(#[trigger] conditions@[k], out@[k]),
                    decreases n - i,
                {
                    proof {
                        vstd::std_specs::vec::axiom_vec_index_decreases(*conditions, i as int);
                        assert(decreases_to!(*self => (*self)->And_conditions));
                    }
                    out.push(conditions[i].to_modifier_condition());
                    i = i + 1;
                }
                ModifierCondition::And(out)
            },
            ModifierConditionConfig::Or { conditions } => {
                let n = conditions.len();
                let mut out: Vec<ModifierCondition> = Vec::new();
                let mut i: usize = 0;
                while i < n
                    invariant
                        0 <= i <= n,
                        n == conditions@.len(),
                        *self == (ModifierConditionConfig::Or { conditions: *conditions }),
                        out@.len() == i,
                        forall|k: int|
                            0 <= k < i ==> converts_to(#[trigger] conditions@[k], out@[k]),
                    decreases n - i,
                {
                    proof {
                        vstd::std_specs::vec::axiom_vec_index_decreases(*conditions, i as int);
                        assert(decreases_to!(*self => (*self)->Or_conditions));
                    }
                    out.push(conditions[i].to_modifier_condition());
                    i = i + 1;
                }
                ModifierCondition::Or(out)
            },
            ModifierConditionConfig::Not { condition } => ModifierCondition::Not(
                Box::new(condition.to_modifier_condition()),
            ),
        }
    }
}

/// One organization-wide rule as configured.
#[derive(Debug)]
pub struct ModifierConfig {
    pub name: String,
    pub target: ModifierTargetConfig,
    pub application: ModifierApplicationConfig,
    pub source: String,
    pub condition: ModifierConditionConfig,
    pub priority: i32,
    pub duration: Option<u32>,
}

impl ModifierConfig {
    /// The live conditional rule this entry names.
    pub fn to_conditional_modifier(&self) -> (r: ConditionalModifier)
        requires
            self.application.to_application_spec().wf(),
        ensures
            converts_to(self.condition, r.condition),
            r.modifier.wf(),
            r.modifier.name == self.name,
            r.modifier.target == self.target.to_target_spec(),
            r.modifier.application == self.application.to_application_spec(),
            r.modifier.source == parse_source_spec(self.source@),
            r.modifier.duration == self.duration,
            r.modifier.priority == self.priority,
    {
        let mut modifier = Modifier::new(
            clone_string(&self.name),
            self.target.to_modifier_target(),
            self.application.to_modifier_application(),
            parse_modifier_source(&self.source),
        );
        modifier.priority = self.priority;
        modifier.duration = self.duration;
        ConditionalModifier::new(self.condition.to_modifier_condition(), modifier)
    }
}

/// A copy of a string with the same characters.
fn clone_string(s: &String) -> (r: String)
    ensures
        r == *s,
{
    s.clone()
}

/// Parse a tier name; unknown names fall back to the lowest tier.
pub fn parse_cultivation_level(level: &String) -> (r: CultivationLevel)
    ensures
        r == parse_level_spec(level@),
{
    if *level == lit("Foundation") {
        CultivationLevel::Foundation
    } else if *level == lit("GoldenCore") {
        CultivationLevel::GoldenCore
    } else if *level == lit("NascentSoul") {
        CultivationLevel::NascentSoul
    } else if *level == lit("SpiritSevering") {
        CultivationLevel::SpiritSevering
    } else if *level == lit("VoidRefinement") {
        CultivationLevel::VoidRefinement
    } else if *level == lit("Ascension") {
        CultivationLevel::Ascension
    } else {
        CultivationLevel::QiRefining
    }
}

/// Parse a standing name; unknown names fall back to the outer standing.
pub fn parse_disciple_type(dtype: &String) -> (r: DiscipleType)
    ensures
        r == parse_type_spec(dtype@),
{
    if *dtype == lit("Inner") {
        DiscipleType::Inner
    } else if *dtype == lit("Personal") || *dtype == lit("Core") {
        DiscipleType::Personal
    } else {
        DiscipleType::Outer
    }
}

/// Parse a provenance name; unknown names fall back to System.
pub fn parse_modifier_source(source: &String) -> (r: ModifierSource)
    ensures
        r == parse_source_spec(source@),
{
    if *source == lit("Talent") {
        ModifierSource::Talent
    } else if *source == lit("Equipment") {
        ModifierSource::Equipment
    } else if *source == lit("Buff") {
        ModifierSource::Buff
    } else if *source == lit("Debuff") {
        ModifierSource::Debuff
    } else if *source == lit("Pill") {
        ModifierSource::Pill
    } else if *source == lit("Heritage") {
        ModifierSource::Heritage
    } else if *source == lit("Environment") {
        ModifierSource::Environment
    } else if *source == lit("Relationship") {
        ModifierSource::Relationship
    } else {
        ModifierSource::System
    }
}


impl MapElementsConfig {
    /// The stock world: two villages, one faction, one dangerous place and
    /// one hidden realm, each with its task blueprints.
    pub fn default_config() -> (r: MapElementsConfig)
        ensures
            r.villages@.len() == 2,
            r.factions@.len() == 1,
            r.dangerous_locations@.len() == 1,
            r.secret_realms@.len() == 1,
    {
        let mut villages: Vec<VillageTemplate> = Vec::new();
        let mut v1_tasks: Vec<TaskTemplateConfig> = Vec::new();
        v1_tasks.push(
            TaskTemplateConfig {
                name_template: lit("Gather spirit herbs at {name}"),
                task_type: lit("Gathering"),
                progress_reward: 5,
                resource_reward: 10,
                reputation_reward: 5,
                dao_heart_impact: 0,
                resource_type: Some(lit("Spirit Herb")),
                difficulty: Some(1),
                danger_level: None,
                skill_required: None,
            },
        );
        v1_tasks.push(
            TaskTemplateConfig {
                name_template: lit("Practice medicine at {name}"),
                task_type: lit("Auxiliary"),
                progress_reward: 5,
                resource_reward: 8,
                reputation_reward: 15,
                dao_heart_impact: 5,
                resource_type: None,
                difficulty: None,
                danger_level: None,
                skill_required: Some(lit("Medical")),
            },
        );
        villages.push(
            VillageTemplate {
                name: lit("Clearwind Town"),
                population: 1000,
                prosperity: 50,
                position: PositionConfig { x: 5, y: 5 },
                size: None,
                task_templates: v1_tasks,
            },
        );
        let mut v2_tasks: Vec<TaskTemplateConfig> = Vec::new();
        v2_tasks.push(
            TaskTemplateConfig {
                name_template: lit("Draw spring water at {name}"),
                task_type: lit("Gathering"),
                progress_reward: 8,
                resource_reward: 15,
                reputation_reward: 10,
                dao_heart_impact: 0,
                resource_type: Some(lit("Spirit Spring")),
                difficulty: Some(2),
                danger_level: None,
                skill_required: None,
            },
        );
        villages.push(
            VillageTemplate {
                name: lit("Springwell Village"),
                population: 500,
                prosperity: 30,
                position: PositionConfig { x: 15, y: 8 },
                size: None,
                task_templates: v2_tasks,
            },
        );
        let mut factions: Vec<FactionTemplate> = Vec::new();
        let mut friendly: Vec<TaskTemplateConfig> = Vec::new();
        friendly.push(
            TaskTemplateConfig {
                name_template: lit("Exchange insights with {name}"),
                task_type: lit("Auxiliary"),
                progress_reward: 8,
                resource_reward: 15,
                reputation_reward: 20,
                dao_heart_impact: 0,
                resource_type: None,
                difficulty: None,
                danger_level: None,
                skill_required: None,
            },
        );
        let mut hostile: Vec<TaskTemplateConfig> = Vec::new();
        hostile.push(
            TaskTemplateConfig {
                name_template: lit("Suppress {name}"),
                task_type: lit("Combat"),
                progress_reward: 15,
                resource_reward: 30,
                reputation_reward: 30,
                dao_heart_impact: -5,
                resource_type: None,
                difficulty: Some(3),
                danger_level: None,
                skill_required: None,
            },
        );
        factions.push(
            FactionTemplate {
                name: lit("Azure Cloud School"),
                power_level: 3,
                relationship: 20,
                position: PositionConfig { x: 10, y: 10 },
                size: Some(SizeConfig { width: 2, height: 2 }),
                friendly_task_templates: friendly,
                hostile_task_templates: hostile,
            },
        );
        let mut dangerous_locations: Vec<DangerousLocationTemplate> = Vec::new();
        let mut d_tasks: Vec<TaskTemplateConfig> = Vec::new();
        d_tasks.push(
            TaskTemplateConfig {
                name_template: lit("Roam {name}"),
                task_type: lit("Exploration"),
                progress_reward: 10,
                resource_reward: 20,
                reputation_reward: 0,
                dao_heart_impact: 0,
                resource_type: None,
                difficulty: None,
                danger_level: Some(20),
                skill_required: None,
            },
        );
        dangerous_locations.push(
            DangerousLocationTemplate {
                name: lit("Mistwood Forest"),
                danger_level: 20,
                position: PositionConfig { x: 3, y: 15 },
                size: None,
                task_templates: d_tasks,
            },
        );
        let mut secret_realms: Vec<SecretRealmTemplate> = Vec::new();
        let mut r_tasks: Vec<TaskTemplateConfig> = Vec::new();
        r_tasks.push(
            TaskTemplateConfig {
                name_template: lit("Explore the realm: {name}"),
                task_type: lit("Exploration"),
                progress_reward: 20,
                resource_reward: 50,
                reputation_reward: 0,
                dao_heart_impact: 0,
                resource_type: None,
                difficulty: None,
                danger_level: Some(30),
                skill_required: None,
            },
        );
        secret_realms.push(
            SecretRealmTemplate {
                name: lit("Flame Cavern"),
                realm_type: lit("Fire"),
                difficulty: 30,
                position: PositionConfig { x: 17, y: 3 },
                size: Some(SizeConfig { width: 2, height: 2 }),
                task_templates: r_tasks,
            },
        );
        MapElementsConfig { villages, factions, dangerous_locations, secret_realms }
    }
}

impl MonstersConfig {
    /// The stock monster roster and spawning rules.
    pub fn default_config() -> (r: MonstersConfig)
        ensures
            r.monster_templates@.len() == 2,
            r.spawn_rules.spawn_chance == 200,
            r.spawn_rules.min_level == 1,
            r.spawn_rules.max_level == 5,
    {
        let mut monster_templates: Vec<MonsterTemplate> = Vec::new();
        let mut m1_tasks: Vec<TaskTemplateConfig> = Vec::new();
        m1_tasks.push(
            TaskTemplateConfig {
                name_template: lit("Hunt down {name}"),
                task_type: lit("Combat"),
                progress_reward: 15,
                resource_reward: 40,
                reputation_reward: 25,
                dao_heart_impact: 3,
                resource_type: None,
                difficulty: Some(2),
                danger_level: None,
                skill_required: None,
            },
        );
        monster_templates.push(
            MonsterTemplate {
                name: lit("Soulbite Tiger"),
                level: 2,
                is_demon: false,
                growth_rate: 100,
                position: Some(PositionConfig { x: 8, y: 12 }),
                task_templates: m1_tasks,
            },
        );
        let mut m2_tasks: Vec<TaskTemplateConfig> = Vec::new();
        m2_tasks.push(
            TaskTemplateConfig {
                name_template: lit("Hunt down {name}"),
                task_type: lit("Combat"),
                progress_reward: 20,
                resource_reward: 50,
                reputation_reward: 30,
                dao_heart_impact: 3,
                resource_type: None,
                difficulty: Some(3),
                danger_level: None,
                skill_required: None,
            },
        );
        monster_templates.push(
            MonsterTemplate {
                name: lit("Bloodshadow Wolf"),
                level: 3,
                is_demon: false,
                growth_rate: 150,
                position: Some(PositionConfig { x: 12, y: 16 }),
                task_templates: m2_tasks,
            },
        );
        let mut random_names: Vec<String> = Vec::new();
        random_names.push(lit("Wild Beast"));
        random_names.push(lit("Shadow Wolf"));
        random_names.push(lit("Stray Wraith"));
        random_names.push(lit("Fell Beast"));
        random_names.push(lit("Ghost Tiger"));
        random_names.push(lit("Rogue Ape"));
        MonstersConfig {
            monster_templates,
            spawn_rules: SpawnRules {
                spawn_chance: 200,
                min_level: 1,
                max_level: 5,
                random_names,
            },
        }
    }
}

impl ConfigManager {
    /// The stock world and monster configuration.
    pub fn create_default() -> (r: ConfigManager)
        ensures
            r.map_elements.villages@.len() == 2,
            r.monsters.monster_templates@.len() == 2,
    {
        ConfigManager {
            map_elements: MapElementsConfig::default_config(),
            monsters: MonstersConfig::default_config(),
        }
    }
}

} // verus!
