//! The typed property records the resolver consumes.
//!
//! Upstream exports a flat, order-sensitive array of dynamically typed
//! records.  The caller decodes each one into a `PropRecord` at the boundary:
//! a set of fields shared by every record, plus one tagged variant per record
//! type.  Fractional upstream values (proficiency, damage multipliers) are
//! carried in hundredths so that the model stays integral.

use vstd::prelude::*;

verus! {

/// The secondary discriminator of an `attribute` record.
#[derive(Clone, Copy, Debug, PartialEq, Eq, Structural)]
pub enum AttributeKind {
    Ability,
    HitDice,
    SpellSlot,
    Resource,
    Other,
}

/// The secondary discriminator of a `skill` record.
#[derive(Clone, Copy, Debug, PartialEq, Eq, Structural)]
pub enum SkillKind {
    Save,
    Skill,
    Armor,
    Weapon,
    Language,
    Tool,
    Other,
}

/// The secondary discriminator of an `action` record.
#[derive(Clone, Copy, Debug, PartialEq, Eq, Structural)]
pub enum ActionKind {
    Attack,
    Free,
    Bonus,
    Reaction,
    Action,
    Event,
    Long,
    Other,
}

#[verifier::ext_equal]
pub ghost enum SpecRecordData {
    Attribute {
        kind: AttributeKind,
        total: int,
        value: int,
        spell_slot_level: int,
        hit_dice_size: Seq<char>,
    },
    Skill { kind: SkillKind, value: int, proficiency: Option<int>, passive_bonus: int },
    Feature { summary: Seq<char> },
    Note { summary_text: Seq<char> },
    Action { kind: ActionKind, attack_roll: int, uses: Option<int> },
    Damage { calculation: Seq<char>, bonus: int, damage_type: Seq<char> },
    Class { level: int },
    Item { quantity: int, plural: Option<Seq<char>>, requires_attunement: bool },
    SpellList { max_prepared: int, dc: int, attack_bonus: int },
    Spell {
        level: int,
        action_kind_text: Seq<char>,
        casting_time: Option<Seq<char>>,
        duration: Seq<char>,
        school: Seq<char>,
        range: Seq<char>,
        verbal: bool,
        somatic: bool,
        concentration: bool,
        ritual: bool,
        material: Seq<char>,
        always_prepared: bool,
        prepared: bool,
    },
    DamageMultiplier { value_hundredths: int, damage_types: Seq<Seq<char>> },
    Constant { variable_name: Seq<char>, calculation: Seq<char> },
    Other,
}

/// The record-specific fields, tagged by the record's `type` discriminator.
///
/// Numeric fields default to zero and booleans to false when the upstream
/// document omits them; fields whose absence the resolver itself
/// distinguishes are `Option`s.  The `proficiency` and `value_hundredths`
/// fields carry the upstream fractional value times one hundred.
#[derive(Clone, Debug, PartialEq, Eq)]
pub enum RecordData {
    Attribute {
        kind: AttributeKind,
        total: i64,
        value: i64,
        spell_slot_level: i64,
        hit_dice_size: String,
    },
    Skill { kind: SkillKind, value: i64, proficiency: Option<i64>, passive_bonus: i64 },
    Feature { summary: String },
    Note { summary_text: String },
    Action { kind: ActionKind, attack_roll: i64, uses: Option<i64> },
    Damage { calculation: String, bonus: i64, damage_type: String },
    Class { level: i64 },
    Item { quantity: i64, plural: Option<String>, requires_attunement: bool },
    SpellList { max_prepared: i64, dc: i64, attack_bonus: i64 },
    Spell {
        level: i64,
        action_kind_text: String,
        casting_time: Option<String>,
        duration: String,
        school: String,
        range: String,
        verbal: bool,
        somatic: bool,
        concentration: bool,
        ritual: bool,
        material: String,
        always_prepared: bool,
        prepared: bool,
    },
    DamageMultiplier { value_hundredths: i64, damage_types: Vec<String> },
    Constant { variable_name: String, calculation: String },
    Other,
}

impl View for RecordData {
    type V = SpecRecordData;

    open spec fn view(&self) -> SpecRecordData {
        match self {
            RecordData::Attribute { kind, total, value, spell_slot_level, hit_dice_size } => SpecRecordData::Attribute {
                kind: *kind,
                total: *total as int,
                value: *value as int,
                spell_slot_level: *spell_slot_level as int,
                hit_dice_size: hit_dice_size@,
            },
            RecordData::Skill { kind, value, proficiency, passive_bonus } => SpecRecordData::Skill {
                kind: *kind,
                value: *value as int,
                proficiency: match proficiency {
                    Some(p) => Some(*p as int),
                    None => None,
                },
                passive_bonus: *passive_bonus as int,
            },
            RecordData::Feature { summary } => SpecRecordData::Feature { summary: summary@ },
            RecordData::Note { summary_text } => SpecRecordData::Note {
                summary_text: summary_text@,
            },
            RecordData::Action { kind, attack_roll, uses } => SpecRecordData::Action {
                kind: *kind,
                attack_roll: *attack_roll as int,
                uses: match uses {
                    Some(u) => Some(*u as int),
                    None => None,
                },
            },
            RecordData::Damage { calculation, bonus, damage_type } => SpecRecordData::Damage {
                calculation: calculation@,
                bonus: *bonus as int,
                damage_type: damage_type@,
            },
            RecordData::Class { level } => SpecRecordData::Class { level: *level as int },
            RecordData::Item { quantity, plural, requires_attunement } => SpecRecordData::Item {
                quantity: *quantity as int,
                plural: match plural {
                    Some(p) => Some(p@),
                    None => None,
                },
                requires_attunement: *requires_attunement,
            },
            RecordData::SpellList { max_prepared, dc, attack_bonus } => SpecRecordData::SpellList {
                max_prepared: *max_prepared as int,
                dc: *dc as int,
                attack_bonus: *attack_bonus as int,
            },
            RecordData::Spell {
                level,
                action_kind_text,
                casting_time,
                duration,
                school,
                range,
                verbal,
                somatic,
                concentration,
                ritual,
                material,
                always_prepared,
                prepared,
            } => SpecRecordData::Spell {
                level: *level as int,
                action_kind_text: action_kind_text@,
                casting_time: match casting_time {
                    Some(c) => Some(c@),
                    None => None,
                },
                duration: duration@,
                school: school@,
                range: range@,
                verbal: *verbal,
                somatic: *somatic,
                concentration: *concentration,
                ritual: *ritual,
                material: material@,
                always_prepared: *always_prepared,
                prepared: *prepared,
            },
            RecordData::DamageMultiplier { value_hundredths, damage_types } => SpecRecordData::DamageMultiplier {
                value_hundredths: *value_hundredths as int,
                damage_types: damage_types@.map_values(|s: String| s@),
            },
            RecordData::Constant { variable_name, calculation } => SpecRecordData::Constant {
                variable_name: variable_name@,
                calculation: calculation@,
            },
            RecordData::Other => SpecRecordData::Other,
        }
    }
}

#[verifier::ext_equal]
pub ghost struct SpecRecord {
    pub id: Seq<char>,
    pub order: int,
    pub removed: bool,
    pub inactive: bool,
    pub deactivated_by_toggle: bool,
    pub name: Seq<char>,
    pub tags: Seq<Seq<char>>,
    pub parent_id: Option<Seq<char>>,
    pub ancestors: Seq<Seq<char>>,
    pub data: SpecRecordData,
}

/// One property record.
///
/// `ancestors` lists the ids of the enclosing records, nearest first.
/// `order` is the upstream presentation order the resolver sorts by.
#[derive(Clone, Debug, PartialEq, Eq)]
pub struct PropRecord {
    pub id: String,
    pub order: i64,
    pub removed: bool,
    pub inactive: bool,
    pub deactivated_by_toggle: bool,
    pub name: String,
    pub tags: Vec<String>,
    pub parent_id: Option<String>,
    pub ancestors: Vec<String>,
    pub data: RecordData,
}

impl View for PropRecord {
    type V = SpecRecord;

    open spec fn view(&self) -> SpecRecord {
        SpecRecord {
            id: self.id@,
            order: self.order as int,
            removed: self.removed,
            inactive: self.inactive,
            deactivated_by_toggle: self.deactivated_by_toggle,
            name: self.name@,
            tags: self.tags@.map_values(|s: String| s@),
            parent_id: match &self.parent_id {
                Some(p) => Some(p@),
                None => None,
            },
            ancestors: self.ancestors@.map_values(|s: String| s@),
            data: self.data@,
        }
    }
}

pub open spec fn recs_view(v: Seq<PropRecord>) -> Seq<SpecRecord> {
    v.map_values(|r: PropRecord| r@)
}

/// The identity fields of the creature document, read beside the property
/// array.  Fields are `None` where the document omits them.
#[derive(Clone, Debug, PartialEq, Eq)]
pub struct CreatureHeader {
    pub name: Option<String>,
    pub alignment: Option<String>,
    pub xp: Option<i64>,
    pub avatar_picture: Option<String>,
    pub picture: Option<String>,
}

#[verifier::ext_equal]
pub ghost struct SpecHeader {
    pub name: Option<Seq<char>>,
    pub alignment: Option<Seq<char>>,
    pub xp: Option<int>,
    pub avatar_picture: Option<Seq<char>>,
    pub picture: Option<Seq<char>>,
}

impl View for CreatureHeader {
    type V = SpecHeader;

    open spec fn view(&self) -> SpecHeader {
        SpecHeader {
            name: match &self.name {
                Some(s) => Some(s@),
                None => None,
            },
            alignment: match &self.alignment {
                Some(s) => Some(s@),
                None => None,
            },
            xp: match self.xp {
                Some(x) => Some(x as int),
                None => None,
            },
            avatar_picture: match &self.avatar_picture {
                Some(s) => Some(s@),
                None => None,
            },
            picture: match &self.picture {
                Some(s) => Some(s@),
                None => None,
            },
        }
    }
}

/// Why a resolve was abandoned: a mandatory identity field is missing from
/// the upstream document.
#[derive(Clone, Copy, Debug, PartialEq, Eq, Structural)]
pub enum ResolveError {
    MissingName,
    MissingAlignment,
    MissingXp,
}

} // verus!
