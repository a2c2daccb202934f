//! The typed entities of the character sheet model.
//!
//! Each executable type has a ghost mirror (`Spec*`) over `Seq<char>` and
//! `int`, reached through `View`; the resolver's contracts are stated over
//! those mirrors.

use vstd::prelude::*;
use vstd::string::StrSliceExecFns;
use vstd::string::StringExecFns;
use crate::strutil::{i64_to_string, push_char, spec_i64_dec, spec_lex_le, str_eq, str_lex_le};

verus! {

pub open spec fn strs_view(v: Seq<String>) -> Seq<Seq<char>> {
    v.map_values(|s: String| s@)
}

// ---------------------------------------------------------------------------
// Ability scores.
// ---------------------------------------------------------------------------

#[verifier::ext_equal]
pub ghost struct SpecAbilityScore {
    pub score: int,
    pub name: Seq<char>,
}

/// An ability score: a name and a raw score value.
#[derive(Clone, Debug, PartialEq, Eq)]
pub struct AbilityScore {
    pub score: i64,
    pub name: String,
}

impl View for AbilityScore {
    type V = SpecAbilityScore;

    open spec fn view(&self) -> SpecAbilityScore {
        SpecAbilityScore { score: self.score as int, name: self.name@ }
    }
}

impl AbilityScore {
    pub fn score(&self) -> (r: i64)
        ensures
            r == self.score,
    {
        self.score
    }

    pub fn name(&self) -> (r: &String)
        ensures
            r@ == self.name@,
    {
        &self.name
    }

    /// The derived modifier of an ability score: the score halved
    /// (rounded down) minus five.
    pub fn modifier(&self) -> (r: i64)
        ensures
            r == self.score as int / 2 - 5,
    {
        if self.score >= 0 || self.score % 2 == 0 {
            self.score / 2 - 5
        } else {
            self.score / 2 - 6
        }
    }

    pub fn new(name: String, score: i64) -> (r: AbilityScore)
        ensures
            r.name@ == name@,
            r.score == score,
    {
        AbilityScore { score, name }
    }
}

// ---------------------------------------------------------------------------
// Proficiency ranks and skills.
// ---------------------------------------------------------------------------

/// The proficiency ranks a skill can have, in increasing order.
#[derive(Clone, Copy, Debug, PartialEq, Eq, Structural)]
pub enum Proficiency {
    NotProficient,
    Half,
    Proficient,
    Expert,
}

/// The position of a rank in the increasing order of ranks.
pub open spec fn spec_prof_index(p: Proficiency) -> int {
    match p {
        Proficiency::NotProficient => 0,
        Proficiency::Half => 1,
        Proficiency::Proficient => 2,
        Proficiency::Expert => 3,
    }
}

pub fn prof_index(p: &Proficiency) -> (r: u8)
    ensures
        r as int == spec_prof_index(*p),
{
    match p {
        Proficiency::NotProficient => 0,
        Proficiency::Half => 1,
        Proficiency::Proficient => 2,
        Proficiency::Expert => 3,
    }
}

#[verifier::ext_equal]
pub ghost struct SpecSkill {
    pub bonus: int,
    pub name: Seq<char>,
    pub prof_rank: Proficiency,
}

/// A skill: a signed bonus, a name, and a proficiency rank.
#[derive(Clone, Debug, PartialEq, Eq)]
pub struct Skill {
    pub bonus: i64,
    pub name: String,
    pub prof_rank: Proficiency,
}

impl View for Skill {
    type V = SpecSkill;

    open spec fn view(&self) -> SpecSkill {
        SpecSkill { bonus: self.bonus as int, name: self.name@, prof_rank: self.prof_rank }
    }
}

impl Skill {
    pub fn prof(&self) -> (r: &Proficiency)
        ensures
            *r == self.prof_rank,
    {
        &self.prof_rank
    }

    pub fn modifier(&self) -> (r: i64)
        ensures
            r == self.bonus,
    {
        self.bonus
    }

    pub fn name(&self) -> (r: &String)
        ensures
            r@ == self.name@,
    {
        &self.name
    }

    pub fn new(name: String, bonus: i64, prof_rank: Proficiency) -> (r: Skill)
        ensures
            r.name@ == name@,
            r.bonus == bonus,
            r.prof_rank == prof_rank,
    {
        Skill { bonus, name, prof_rank }
    }
}

/// The presentation order of skills: by name, then rank, then bonus.
pub open spec fn spec_skill_le(a: SpecSkill, b: SpecSkill) -> bool {
    if a.name != b.name {
        spec_lex_le(a.name, b.name)
    } else if a.prof_rank != b.prof_rank {
        spec_prof_index(a.prof_rank) <= spec_prof_index(b.prof_rank)
    } else {
        a.bonus <= b.bonus
    }
}

pub fn skill_le(a: &Skill, b: &Skill) -> (r: bool)
    ensures
        r == spec_skill_le(a@, b@),
{
    if !str_eq(a.name.as_str(), b.name.as_str()) {
        str_lex_le(a.name.as_str(), b.name.as_str())
    } else if a.prof_rank != b.prof_rank {
        prof_index(&a.prof_rank) <= prof_index(&b.prof_rank)
    } else {
        a.bonus <= b.bonus
    }
}

// ---------------------------------------------------------------------------
// Classes.
// ---------------------------------------------------------------------------

#[verifier::ext_equal]
pub ghost struct SpecClass {
    pub name: Seq<char>,
    pub level: int,
    pub start_class: bool,
}

/// A character class: a name, a level, and whether it is the starting class.
#[derive(Clone, Debug, PartialEq, Eq)]
pub struct Class {
    pub name: String,
    pub level: i64,
    pub start_class: bool,
}

impl View for Class {
    type V = SpecClass;

    open spec fn view(&self) -> SpecClass {
        SpecClass { name: self.name@, level: self.level as int, start_class: self.start_class }
    }
}

impl Class {
    pub fn name(&self) -> (r: &String)
        ensures
            r@ == self.name@,
    {
        &self.name
    }

    pub fn level(&self) -> (r: i64)
        ensures
            r == self.level,
    {
        self.level
    }

    pub fn new(name: String, level: i64) -> (r: Class)
        ensures
            r.name@ == name@,
            r.level == level,
            r.start_class == false,
    {
        Class { name, level, start_class: false }
    }
}

/// The presentation order of classes: the starting class first, then by
/// descending level, then by name.
pub open spec fn spec_class_le(a: SpecClass, b: SpecClass) -> bool {
    if a.start_class != b.start_class {
        a.start_class
    } else if a.level != b.level {
        b.level <= a.level
    } else {
        spec_lex_le(a.name, b.name)
    }
}

pub fn class_le(a: &Class, b: &Class) -> (r: bool)
    ensures
        r == spec_class_le(a@, b@),
{
    if a.start_class != b.start_class {
        a.start_class
    } else if a.level != b.level {
        b.level <= a.level
    } else {
        str_lex_le(a.name.as_str(), b.name.as_str())
    }
}

// ---------------------------------------------------------------------------
// Features and backgrounds.
// ---------------------------------------------------------------------------

#[verifier::ext_equal]
pub ghost struct SpecFeature {
    pub name: Seq<char>,
    pub description: Seq<char>,
}

/// A named feature with a description.
#[derive(Clone, Debug, PartialEq, Eq)]
pub struct Feature {
    pub name: String,
    pub description: String,
}

impl View for Feature {
    type V = SpecFeature;

    open spec fn view(&self) -> SpecFeature {
        SpecFeature { name: self.name@, description: self.description@ }
    }
}

impl Feature {
    pub fn name(&self) -> (r: &String)
        ensures
            r@ == self.name@,
    {
        &self.name
    }

    pub fn description(&self) -> (r: &String)
        ensures
            r@ == self.description@,
    {
        &self.description
    }

    pub fn new(name: String, description: String) -> (r: Feature)
        ensures
            r.name@ == name@,
            r.description@ == description@,
    {
        Feature { name, description }
    }
}

#[verifier::ext_equal]
pub ghost struct SpecBackground {
    pub name: Seq<char>,
    pub background_feature: SpecFeature,
}

/// A background: a name and its feature.
#[derive(Clone, Debug, PartialEq, Eq)]
pub struct Background {
    pub name: String,
    pub background_feature: Feature,
}

impl View for Background {
    type V = SpecBackground;

    open spec fn view(&self) -> SpecBackground {
        SpecBackground { name: self.name@, background_feature: self.background_feature@ }
    }
}

impl Background {
    pub fn name(&self) -> (r: &String)
        ensures
            r@ == self.name@,
    {
        &self.name
    }

    pub fn background_feature(&self) -> (r: &Feature)
        ensures
            r@ == self.background_feature@,
    {
        &self.background_feature
    }

    pub fn set_background_feature(&mut self, feat: Feature)
        ensures
            final(self).name@ == old(self).name@,
            final(self).background_feature == feat,
    {
        self.background_feature = feat;
    }

    pub fn new(name: String) -> (r: Background)
        ensures
            r.name@ == name@,
            r.background_feature@.name.len() == 0,
            r.background_feature@.description.len() == 0,
    {
        Background { name, background_feature: Feature { name: String::new(), description: String::new() } }
    }
}

// ---------------------------------------------------------------------------
// Dice.
// ---------------------------------------------------------------------------

#[verifier::ext_equal]
pub ghost struct SpecDie {
    pub size: int,
    pub num: int,
}

/// A kind of die together with how many of it are rolled.
#[derive(Clone, Copy, Debug, PartialEq, Eq)]
pub struct Die {
    pub size: i64,
    pub num: i64,
}

impl View for Die {
    type V = SpecDie;

    open spec fn view(&self) -> SpecDie {
        SpecDie { size: self.size as int, num: self.num as int }
    }
}

impl Die {
    pub fn size(&self) -> (r: i64)
        ensures
            r == self.size,
    {
        self.size
    }

    pub fn num(&self) -> (r: i64)
        ensures
            r == self.num,
    {
        self.num
    }

    pub fn new(size: i64, num: i64) -> (r: Die)
        ensures
            r.size == size,
            r.num == num,
    {
        Die { size, num }
    }
}

// ---------------------------------------------------------------------------
// Attacks.
// ---------------------------------------------------------------------------

#[verifier::ext_equal]
pub ghost enum SpecAtkBonus {
    Bonus(int),
    DC(int),
}

/// An attack's to-hit statistic: either a roll bonus or a save DC.
#[derive(Clone, Copy, Debug, PartialEq, Eq)]
pub enum AtkBonus {
    Bonus(i64),
    DC(i64),
}

impl View for AtkBonus {
    type V = SpecAtkBonus;

    open spec fn view(&self) -> SpecAtkBonus {
        match *self {
            AtkBonus::Bonus(k) => SpecAtkBonus::Bonus(k as int),
            AtkBonus::DC(k) => SpecAtkBonus::DC(k as int),
        }
    }
}

/// How an attack bonus is rendered: a positive roll bonus gets a leading
/// `+`, a DC is prefixed with `DC `.
pub open spec fn spec_atk_bonus_string(b: SpecAtkBonus) -> Seq<char> {
    match b {
        SpecAtkBonus::Bonus(k) => if k > 0 {
            seq!['+'] + spec_i64_dec(k)
        } else {
            spec_i64_dec(k)
        },
        SpecAtkBonus::DC(k) => seq!['D', 'C', ' '] + spec_i64_dec(k),
    }
}

/// Appends one damage term to a damage string: terms are separated by one
/// space, and the first term stands alone.
pub open spec fn spec_join_dmg(cur: Seq<char>, term: Seq<char>) -> Seq<char> {
    if cur.len() > 0 {
        cur + seq![' '] + term
    } else {
        term
    }
}

#[verifier::ext_equal]
pub ghost struct SpecAttack {
    pub name: Seq<char>,
    pub bonus: SpecAtkBonus,
    pub damage: Seq<char>,
}

/// An attack: a name, a bonus or DC, and an accumulated damage string.
#[derive(Clone, Debug, PartialEq, Eq)]
pub struct Attack {
    pub name: String,
    pub bonus: AtkBonus,
    pub damage: String,
}

impl View for Attack {
    type V = SpecAttack;

    open spec fn view(&self) -> SpecAttack {
        SpecAttack { name: self.name@, bonus: self.bonus@, damage: self.damage@ }
    }
}

impl Attack {
    /// returns the name of the attack
    pub fn name(&self) -> (r: &String)
        ensures
            r@ == self.name@,
    {
        &self.name
    }

    /// returns the attack's bonus
    pub fn bonus(&self) -> (r: &AtkBonus)
        ensures
            *r == self.bonus,
    {
        &self.bonus
    }

    /// returns the bonus rendered as text
    pub fn bonus_as_string(&self) -> (r: String)
        ensures
            r@ == spec_atk_bonus_string(self.bonus@),
    {
        match self.bonus {
            AtkBonus::Bonus(k) => {
                if k > 0 {
                    let mut out = "+".to_owned();
                    proof {
                        reveal_strlit("+");
                    }
                    assert(out@ =~= seq!['+']);
                    let digits = i64_to_string(k);
                    out.append(digits.as_str());
                    out
                } else {
                    i64_to_string(k)
                }
            },
            AtkBonus::DC(k) => {
                let mut out = "DC ".to_owned();
                proof {
                    reveal_strlit("DC ");
                }
                assert(out@ =~= seq!['D', 'C', ' ']);
                let digits = i64_to_string(k);
                out.append(digits.as_str());
                out
            },
        }
    }

    /// returns the damage
    pub fn damage(&self) -> (r: &String)
        ensures
            r@ == self.damage@,
    {
        &self.damage
    }

    pub fn new(name: String, bonus: AtkBonus, damage: String) -> (r: Attack)
        ensures
            r.name@ == name@,
            r.bonus == bonus,
            r.damage@ == damage@,
    {
        Attack { name, bonus, damage }
    }

    /// Appends one damage term, separating terms with a single space.
    pub fn add_dmg(&mut self, dmg: String)
        ensures
            final(self).name@ == old(self).name@,
            final(self).bonus == old(self).bonus,
            final(self).damage@ == spec_join_dmg(old(self).damage@, dmg@),
    {
        if self.damage.as_str().unicode_len() != 0 {
            let mut out = self.damage.clone();
            out.append(" ");
            proof {
                reveal_strlit(" ");
            }
            assert(out@ =~= self.damage@ + seq![' ']);
            out.append(dmg.as_str());
            self.damage = out;
        } else {
            self.damage = dmg;
        }
    }
}

// ---------------------------------------------------------------------------
// Items.
// ---------------------------------------------------------------------------

#[verifier::ext_equal]
pub ghost struct SpecItem {
    pub quantity: int,
    pub name: Seq<char>,
    pub plural_name: Seq<char>,
    pub requires_attunement: bool,
}

/// A carried item: a quantity, singular and plural names, and whether it
/// requires attunement.
#[derive(Clone, Debug, PartialEq, Eq)]
pub struct Item {
    pub quantity: i64,
    pub name: String,
    pub plural_name: String,
    pub requires_attunement: bool,
}

impl View for Item {
    type V = SpecItem;

    open spec fn view(&self) -> SpecItem {
        SpecItem {
            quantity: self.quantity as int,
            name: self.name@,
            plural_name: self.plural_name@,
            requires_attunement: self.requires_attunement,
        }
    }
}

impl Item {
    pub fn quantity(&self) -> (r: i64)
        ensures
            r == self.quantity,
    {
        self.quantity
    }

    pub fn name(&self) -> (r: &String)
        ensures
            r@ == self.name@,
    {
        &self.name
    }

    pub fn plural_name(&self) -> (r: &String)
        ensures
            r@ == self.plural_name@,
    {
        &self.plural_name
    }

    pub fn requires_attunement(&self) -> (r: bool)
        ensures
            r == self.requires_attunement,
    {
        self.requires_attunement
    }

    pub fn new(quantity: i64, name: String, plural_name: String) -> (r: Item)
        ensures
            r.quantity == quantity,
            r.name@ == name@,
            r.plural_name@ == plural_name@,
            r.requires_attunement == false,
    {
        Item { quantity, name, plural_name, requires_attunement: false }
    }

    pub fn needs_attuned(&mut self)
        ensures
            final(self).quantity == old(self).quantity,
            final(self).name@ == old(self).name@,
            final(self).plural_name@ == old(self).plural_name@,
            final(self).requires_attunement == true,
    {
        self.requires_attunement = true;
    }
}

/// The presentation order of items: by name, then quantity.
pub open spec fn spec_item_le(a: SpecItem, b: SpecItem) -> bool {
    if a.name != b.name {
        spec_lex_le(a.name, b.name)
    } else {
        a.quantity <= b.quantity
    }
}

pub fn item_le(a: &Item, b: &Item) -> (r: bool)
    ensures
        r == spec_item_le(a@, b@),
{
    if !str_eq(a.name.as_str(), b.name.as_str()) {
        str_lex_le(a.name.as_str(), b.name.as_str())
    } else {
        a.quantity <= b.quantity
    }
}

// ---------------------------------------------------------------------------
// Spells.
// ---------------------------------------------------------------------------

/// Whether a spell is prepared.
#[derive(Clone, Copy, Debug, PartialEq, Eq, Structural)]
pub enum SpellPrep {
    AlwaysPrepared,
    Prepared,
    NotPrepared,
}

#[verifier::ext_equal]
pub ghost enum SpecActionType {
    Free,
    Reaction,
    Bonus,
    Action,
    Long(Seq<char>),
}

/// The action economy cost of an action or a spell.
#[derive(Clone, Debug, PartialEq, Eq)]
pub enum ActionType {
    Free,
    Reaction,
    Bonus,
    Action,
    Long(String),
}

impl View for ActionType {
    type V = SpecActionType;

    open spec fn view(&self) -> SpecActionType {
        match self {
            ActionType::Free => SpecActionType::Free,
            ActionType::Reaction => SpecActionType::Reaction,
            ActionType::Bonus => SpecActionType::Bonus,
            ActionType::Action => SpecActionType::Action,
            ActionType::Long(s) => SpecActionType::Long(s@),
        }
    }
}

#[verifier::ext_equal]
pub ghost struct SpecSpell {
    pub name: Seq<char>,
    pub level: int,
    pub casting_time: SpecActionType,
    pub duration: Seq<char>,
    pub school: Seq<char>,
    pub range: Seq<char>,
    pub vscr: (bool, bool, bool, bool),
    pub material: Seq<char>,
    pub prepd: SpellPrep,
}

/// A spell entry of a spell list.
#[derive(Clone, Debug, PartialEq, Eq)]
pub struct Spell {
    pub name: String,
    pub level: i64,
    pub casting_time: ActionType,
    pub duration: String,
    pub school: String,
    pub range: String,
    pub verbal: bool,
    pub somatic: bool,
    pub concentration: bool,
    pub ritual: bool,
    pub material: String,
    pub prepd: SpellPrep,
}

impl View for Spell {
    type V = SpecSpell;

    open spec fn view(&self) -> SpecSpell {
        SpecSpell {
            name: self.name@,
            level: self.level as int,
            casting_time: self.casting_time@,
            duration: self.duration@,
            school: self.school@,
            range: self.range@,
            vscr: (self.verbal, self.somatic, self.concentration, self.ritual),
            material: self.material@,
            prepd: self.prepd,
        }
    }
}

/// The verbal/somatic/concentration/ritual flags rendered as the letters
/// `v`, `s`, `c`, `r`, in that order, keeping only the set flags.
pub open spec fn spec_vscr_string(v: (bool, bool, bool, bool)) -> Seq<char> {
    (if v.0 {
        seq!['v']
    } else {
        Seq::<char>::empty()
    }) + (if v.1 {
        seq!['s']
    } else {
        Seq::<char>::empty()
    }) + (if v.2 {
        seq!['c']
    } else {
        Seq::<char>::empty()
    }) + (if v.3 {
        seq!['r']
    } else {
        Seq::<char>::empty()
    })
}

impl Spell {
    pub fn name(&self) -> (r: &String)
        ensures
            r@ == self.name@,
    {
        &self.name
    }

    pub fn level(&self) -> (r: i64)
        ensures
            r == self.level,
    {
        self.level
    }

    pub fn casting_time(&self) -> (r: &ActionType)
        ensures
            r@ == self.casting_time@,
    {
        &self.casting_time
    }

    pub fn duration(&self) -> (r: &String)
        ensures
            r@ == self.duration@,
    {
        &self.duration
    }

    pub fn school(&self) -> (r: &String)
        ensures
            r@ == self.school@,
    {
        &self.school
    }

    pub fn range(&self) -> (r: &String)
        ensures
            r@ == self.range@,
    {
        &self.range
    }

    pub fn vscr(&self) -> (r: (bool, bool, bool, bool))
        ensures
            r == (self.verbal, self.somatic, self.concentration, self.ritual),
    {
        (self.verbal, self.somatic, self.concentration, self.ritual)
    }

    pub fn vscr_to_string(&self) -> (r: String)
        ensures
            r@ == spec_vscr_string((self.verbal, self.somatic, self.concentration, self.ritual)),
    {
        let mut out = String::new();
        if self.verbal {
            push_char(&mut out, 'v');
        }
        if self.somatic {
            push_char(&mut out, 's');
        }
        if self.concentration {
            push_char(&mut out, 'c');
        }
        if self.ritual {
            push_char(&mut out, 'r');
        }
        assert(out@ =~= spec_vscr_string(
            (self.verbal, self.somatic, self.concentration, self.ritual)));
        out
    }

    pub fn material(&self) -> (r: &String)
        ensures
            r@ == self.material@,
    {
        &self.material
    }

    pub fn prepd(&self) -> (r: SpellPrep)
        ensures
            r == self.prepd,
    {
        self.prepd
    }

    pub fn new(
        name: String,
        level: i64,
        casting_time: ActionType,
        duration: String,
        school: String,
        range: String,
        vscr: (bool, bool, bool, bool),
        material: String,
    ) -> (r: Spell)
        ensures
            r.name@ == name@,
            r.level == level,
            r.casting_time@ == casting_time@,
            r.duration@ == duration@,
            r.school@ == school@,
            r.range@ == range@,
            (r.verbal, r.somatic, r.concentration, r.ritual) == vscr,
            r.material@ == material@,
            r.prepd == SpellPrep::NotPrepared,
    {
        Spell {
            name,
            level,
            casting_time,
            duration,
            school,
            range,
            verbal: vscr.0,
            somatic: vscr.1,
            concentration: vscr.2,
            ritual: vscr.3,
            material,
            prepd: SpellPrep::NotPrepared,
        }
    }

    pub fn prepare(&mut self)
        ensures
            *final(self) == (Spell { prepd: SpellPrep::Prepared, ..*old(self) }),
    {
        self.prepd = SpellPrep::Prepared;
    }

    pub fn always_prepare(&mut self)
        ensures
            *final(self) == (Spell { prepd: SpellPrep::AlwaysPrepared, ..*old(self) }),
    {
        self.prepd = SpellPrep::AlwaysPrepared;
    }

    pub fn unprepare(&mut self)
        ensures
            *final(self) == (Spell { prepd: SpellPrep::NotPrepared, ..*old(self) }),
    {
        self.prepd = SpellPrep::NotPrepared;
    }
}

// ---------------------------------------------------------------------------
// Spell levels and spell lists.
// ---------------------------------------------------------------------------

#[verifier::ext_equal]
pub ghost struct SpecSpellLevel {
    pub level: int,
    pub spells: Seq<SpecSpell>,
}

/// All spells of one level, kept in insertion order.
#[derive(Clone, Debug, PartialEq, Eq)]
pub struct SpellLevel {
    pub level: i64,
    pub spells: Vec<Spell>,
}

impl View for SpellLevel {
    type V = SpecSpellLevel;

    open spec fn view(&self) -> SpecSpellLevel {
        SpecSpellLevel {
            level: self.level as int,
            spells: self.spells@.map_values(|s: Spell| s@),
        }
    }
}

impl SpellLevel {
    pub fn lvl(&self) -> (r: i64)
        ensures
            r == self.level,
    {
        self.level
    }

    pub fn spells(&self) -> (r: &Vec<Spell>)
        ensures
            r@ == self.spells@,
    {
        &self.spells
    }

    pub fn new(level: i64, spells: Vec<Spell>) -> (r: SpellLevel)
        ensures
            r.level == level,
            r.spells@ == spells@,
    {
        SpellLevel { level, spells }
    }

    pub fn add_spell(&mut self, spell: Spell)
        ensures
            final(self).level == old(self).level,
            final(self).spells@ == old(self).spells@.push(spell),
    {
        self.spells.push(spell);
    }
}

#[verifier::ext_equal]
pub ghost struct SpecSpellList {
    pub levels: Seq<SpecSpellLevel>,
    pub name: Seq<char>,
    pub save_dc: int,
    pub atk_bonus: int,
    pub max_prepared: int,
}

/// A named grouping of spells sharing a save DC, an attack bonus, and a
/// preparation cap.  Levels are kept in insertion order, one entry per
/// distinct spell level.
#[derive(Clone, Debug, PartialEq, Eq)]
pub struct SpellList {
    pub levels: Vec<SpellLevel>,
    pub name: String,
    pub save_dc: i64,
    pub atk_bonus: i64,
    pub max_prepared: i64,
}

impl View for SpellList {
    type V = SpecSpellList;

    open spec fn view(&self) -> SpecSpellList {
        SpecSpellList {
            levels: self.levels@.map_values(|l: SpellLevel| l@),
            name: self.name@,
            save_dc: self.save_dc as int,
            atk_bonus: self.atk_bonus as int,
            max_prepared: self.max_prepared as int,
        }
    }
}

/// The highest spell level present, or zero for an empty list.
pub open spec fn spec_max_lvl(levels: Seq<SpecSpellLevel>) -> int
    decreases levels.len(),
{
    if levels.len() == 0 {
        0
    } else {
        let rest = spec_max_lvl(levels.drop_last());
        if levels.last().level > rest {
            levels.last().level
        } else {
            rest
        }
    }
}

impl SpellList {
    pub fn new(
        levels: Vec<SpellLevel>,
        name: String,
        save_dc: i64,
        atk_bonus: i64,
        max_prepared: i64,
    ) -> (r: SpellList)
        ensures
            r.levels@ == levels@,
            r.name@ == name@,
            r.save_dc == save_dc,
            r.atk_bonus == atk_bonus,
            r.max_prepared == max_prepared,
    {
        SpellList { levels, name, save_dc, atk_bonus, max_prepared }
    }

    pub fn max_lvl(&self) -> (r: i64)
        ensures
            r as int == spec_max_lvl(self@.levels),
    {
        let mut mx: i64 = 0;
        let mut i: usize = 0;
        while i < self.levels.len()
            invariant
                0 <= i <= self.levels.len(),
                mx as int == spec_max_lvl(self@.levels.take(i as int)),
            decreases self.levels.len() - i,
        {
            let ghost prefix = self@.levels.take(i as int + 1);
            assert(prefix.drop_last() =~= self@.levels.take(i as int));
            assert(prefix.last() == self@.levels[i as int]);
            if self.levels[i].level > mx {
                mx = self.levels[i].level;
            }
            i += 1;
        }
        assert(self@.levels.take(self.levels.len() as int) =~= self@.levels);
        mx
    }
}

/// The presentation order of spell lists: by descending preparation cap,
/// then descending highest spell level, then name, save DC, attack bonus.
pub open spec fn spec_spell_list_le(a: SpecSpellList, b: SpecSpellList) -> bool {
    if a.max_prepared != b.max_prepared {
        b.max_prepared <= a.max_prepared
    } else if spec_max_lvl(a.levels) != spec_max_lvl(b.levels) {
        spec_max_lvl(b.levels) <= spec_max_lvl(a.levels)
    } else if a.name != b.name {
        spec_lex_le(a.name, b.name)
    } else if a.save_dc != b.save_dc {
        a.save_dc <= b.save_dc
    } else {
        a.atk_bonus <= b.atk_bonus
    }
}

pub fn spell_list_le(a: &SpellList, b: &SpellList) -> (r: bool)
    ensures
        r == spec_spell_list_le(a@, b@),
{
    let own_lvl = a.max_lvl();
    let other_lvl = b.max_lvl();
    if a.max_prepared != b.max_prepared {
        b.max_prepared <= a.max_prepared
    } else if own_lvl != other_lvl {
        other_lvl <= own_lvl
    } else if !str_eq(a.name.as_str(), b.name.as_str()) {
        str_lex_le(a.name.as_str(), b.name.as_str())
    } else if a.save_dc != b.save_dc {
        a.save_dc <= b.save_dc
    } else {
        a.atk_bonus <= b.atk_bonus
    }
}

// ---------------------------------------------------------------------------
// Damage multipliers, actions, resources.
// ---------------------------------------------------------------------------

#[verifier::ext_equal]
pub ghost enum SpecDamageMult {
    Immune(Seq<char>),
    Resist(Seq<char>),
    Vuln(Seq<char>),
}

/// An immunity, resistance, or vulnerability to one damage type.
#[derive(Clone, Debug, PartialEq, Eq)]
pub enum DamageMult {
    Immune(String),
    Resist(String),
    Vuln(String),
}

impl View for DamageMult {
    type V = SpecDamageMult;

    open spec fn view(&self) -> SpecDamageMult {
        match self {
            DamageMult::Immune(s) => SpecDamageMult::Immune(s@),
            DamageMult::Resist(s) => SpecDamageMult::Resist(s@),
            DamageMult::Vuln(s) => SpecDamageMult::Vuln(s@),
        }
    }
}

#[verifier::ext_equal]
pub ghost struct SpecAction {
    pub name: Seq<char>,
    pub typ: SpecActionType,
    pub uses: int,
}

/// An action: a name, its action type, and its remaining uses
/// (`-1` meaning unlimited).
#[derive(Clone, Debug, PartialEq, Eq)]
pub struct Action {
    pub name: String,
    pub typ: ActionType,
    pub uses: i64,
}

impl View for Action {
    type V = SpecAction;

    open spec fn view(&self) -> SpecAction {
        SpecAction { name: self.name@, typ: self.typ@, uses: self.uses as int }
    }
}

impl Action {
    pub fn name(&self) -> (r: &String)
        ensures
            r@ == self.name@,
    {
        &self.name
    }

    pub fn uses(&self) -> (r: i64)
        ensures
            r == self.uses,
    {
        self.uses
    }

    pub fn typ(&self) -> (r: &ActionType)
        ensures
            r@ == self.typ@,
    {
        &self.typ
    }

    pub fn new(name: String, uses: i64, typ: ActionType) -> (r: Action)
        ensures
            r.name@ == name@,
            r.uses == uses,
            r.typ@ == typ@,
    {
        Action { name, uses, typ }
    }
}

#[verifier::ext_equal]
pub ghost struct SpecResource {
    pub name: Seq<char>,
    pub total: int,
}

/// A named resource pool with its total.
#[derive(Clone, Debug, PartialEq, Eq)]
pub struct Resource {
    pub name: String,
    pub total: i64,
}

impl View for Resource {
    type V = SpecResource;

    open spec fn view(&self) -> SpecResource {
        SpecResource { name: self.name@, total: self.total as int }
    }
}

impl Resource {
    pub fn name(&self) -> (r: &String)
        ensures
            r@ == self.name@,
    {
        &self.name
    }

    pub fn total(&self) -> (r: i64)
        ensures
            r == self.total,
    {
        self.total
    }

    pub fn new(name: String, total: i64) -> (r: Resource)
        ensures
            r.name@ == name@,
            r.total == total,
    {
        Resource { name, total }
    }
}

// ---------------------------------------------------------------------------
// The character sheet model.
// ---------------------------------------------------------------------------

#[verifier::ext_equal]
pub ghost struct SpecCharacter {
    pub char_name: Seq<char>,
    pub classes: Seq<SpecClass>,
    pub background: SpecBackground,
    pub damage_mults: Seq<SpecDamageMult>,
    pub race: Seq<char>,
    pub alignment: Seq<char>,
    pub xp: int,
    pub ability_scores: Seq<SpecAbilityScore>,
    pub prof_bonus: int,
    pub saving_throws: Seq<SpecSkill>,
    pub skills: Seq<SpecSkill>,
    pub ac: int,
    pub passive_bonus: int,
    pub initiative: int,
    pub speed: int,
    pub hit_points: int,
    pub hit_dice: Seq<SpecDie>,
    pub attacks: Seq<SpecAttack>,
    pub actions: Seq<SpecAction>,
    pub resources: Seq<SpecResource>,
    pub equipment: Seq<SpecItem>,
    pub traits: (Seq<char>, Seq<char>, Seq<char>, Seq<char>),
    pub features: Seq<Seq<char>>,
    pub other_profs: (Seq<Seq<char>>, Seq<Seq<char>>, Seq<Seq<char>>, Seq<Seq<char>>),
    pub coins: (int, int, int, int, int),
    pub spell_lists: Seq<SpecSpellList>,
    pub spell_slots: Seq<int>,
    pub char_img: Seq<char>,
}

/// The resolved character sheet model.
///
/// The role-play traits are, in order: personality, ideals, bonds, flaws.
/// The other-proficiency lists are, in order: armor, weapon, language, tool.
/// The coins are, in order: copper, silver, electrum, gold, platinum.
/// The spell slot array holds the slot counts for levels one through nine.
#[derive(Debug)]
pub struct Character {
    pub char_name: String,
    pub classes: Vec<Class>,
    pub background: Background,
    pub damage_mults: Vec<DamageMult>,
    pub race: String,
    pub alignment: String,
    pub xp: i64,
    pub ability_scores: Vec<AbilityScore>,
    pub prof_bonus: i64,
    pub saving_throws: Vec<Skill>,
    pub skills: Vec<Skill>,
    pub ac: i64,
    pub passive_bonus: i64,
    pub initiative: i64,
    pub speed: i64,
    pub hit_points: i64,
    pub hit_dice: Vec<Die>,
    pub attacks: Vec<Attack>,
    pub actions: Vec<Action>,
    pub resources: Vec<Resource>,
    pub equipment: Vec<Item>,
    pub traits: (String, String, String, String),
    pub features: Vec<String>,
    pub other_profs: (Vec<String>, Vec<String>, Vec<String>, Vec<String>),
    pub coins: (i64, i64, i64, i64, i64),
    pub spell_lists: Vec<SpellList>,
    pub spell_slots: [i64; 9],
    pub char_img: String,
}

impl View for Character {
    type V = SpecCharacter;

    open spec fn view(&self) -> SpecCharacter {
        SpecCharacter {
            char_name: self.char_name@,
            classes: self.classes@.map_values(|c: Class| c@),
            background: self.background@,
            damage_mults: self.damage_mults@.map_values(|d: DamageMult| d@),
            race: self.race@,
            alignment: self.alignment@,
            xp: self.xp as int,
            ability_scores: self.ability_scores@.map_values(|a: AbilityScore| a@),
            prof_bonus: self.prof_bonus as int,
            saving_throws: self.saving_throws@.map_values(|s: Skill| s@),
            skills: self.skills@.map_values(|s: Skill| s@),
            ac: self.ac as int,
            passive_bonus: self.passive_bonus as int,
            initiative: self.initiative as int,
            speed: self.speed as int,
            hit_points: self.hit_points as int,
            hit_dice: self.hit_dice@.map_values(|d: Die| d@),
            attacks: self.attacks@.map_values(|a: Attack| a@),
            actions: self.actions@.map_values(|a: Action| a@),
            resources: self.resources@.map_values(|r: Resource| r@),
            equipment: self.equipment@.map_values(|i: Item| i@),
            traits: (self.traits.0@, self.traits.1@, self.traits.2@, self.traits.3@),
            features: strs_view(self.features@),
            other_profs: (
                strs_view(self.other_profs.0@),
                strs_view(self.other_profs.1@),
                strs_view(self.other_profs.2@),
                strs_view(self.other_profs.3@),
            ),
            coins: (
                self.coins.0 as int,
                self.coins.1 as int,
                self.coins.2 as int,
                self.coins.3 as int,
                self.coins.4 as int,
            ),
            spell_lists: self.spell_lists@.map_values(|l: SpellList| l@),
            spell_slots: self.spell_slots@.map_values(|n: i64| n as int),
            char_img: self.char_img@,
        }
    }
}

/// A horizontal rule for the rendered sheet; it carries no data, and the
/// renderer draws it.
#[derive(Clone, Copy, Debug, PartialEq, Eq, Structural)]
pub struct Hline {}

impl Hline {
    pub fn new() -> (r: Hline)
        ensures
            r == (Hline {}),
    {
        Hline {}
    }
}

// ---------------------------------------------------------------------------
// The damage type abbreviator.
// ---------------------------------------------------------------------------

/// How a damage type is abbreviated: anything under five characters is
/// already short and stays; `piercing` becomes `pir.`; anything else is cut
/// to its first three characters with a trailing dot.
pub open spec fn spec_abbrev(t: Seq<char>) -> Seq<char> {
    if t.len() < 5 {
        t
    } else if t == seq!['p', 'i', 'e', 'r', 'c', 'i', 'n', 'g'] {
        seq!['p', 'i', 'r', '.']
    } else {
        t.take(3) + seq!['.']
    }
}

/// Abbreviates a damage type for compact display.
pub fn damage_type_abreviator(typ: String) -> (r: String)
    ensures
        r@ == spec_abbrev(typ@),
{
    let n = typ.as_str().unicode_len();
    if n < 5 {
        return typ;
    }
    proof {
        reveal_strlit("piercing");
    }
    if str_eq(typ.as_str(), "piercing") {
        assert(typ@ =~= seq!['p', 'i', 'e', 'r', 'c', 'i', 'n', 'g']);
        proof {
            reveal_strlit("pir.");
        }
        let out = "pir.".to_owned();
        assert(out@ =~= seq!['p', 'i', 'r', '.']);
        return out;
    }
    assert(typ@ != seq!['p', 'i', 'e', 'r', 'c', 'i', 'n', 'g']) by {
        assert("piercing"@ =~= seq!['p', 'i', 'e', 'r', 'c', 'i', 'n', 'g']);
    }
    let mut out = typ.as_str().substring_char(0, 3).to_owned();
    proof {
        reveal_strlit(".");
    }
    out.append(".");
    assert(out@ =~= typ@.take(3) + seq!['.']);
    out
}

} // verus!
