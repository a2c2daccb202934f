//! The property graph resolver.
//!
//! `Character::new` sorts the records by their `order` field, runs one linear
//! scan that dispatches each record into the accumulating state, and then
//! finalizes the state into a `Character`.  The whole pass is specified by
//! the fold `spec_scan` of the transition `spec_step` over the sorted record
//! sequence, and the executable code is proved to compute exactly that fold.

use vstd::prelude::*;
use vstd::array::ArrayAdditionalExecFns;
use vstd::pervasive::unreached;
use vstd::string::StrSliceExecFns;
use vstd::string::StringExecFns;
use crate::holding_structs::{
    AbilityScore, Action, ActionType, AtkBonus, Attack, Background, Character, Class, DamageMult,
    Die, Feature, Item, Proficiency, Resource, Skill, Spell, SpellLevel, SpellList,
    SpecAbilityScore, SpecAction, SpecActionType, SpecAtkBonus, SpecAttack, SpecBackground,
    SpecCharacter, SpecClass, SpecDamageMult, SpecDie, SpecFeature, SpecItem, SpecResource,
    SpecSkill, SpecSpell, SpecSpellLevel, SpecSpellList, SpellPrep, damage_type_abreviator,
    spec_abbrev, spec_join_dmg, strs_view,
};
use crate::records::{
    ActionKind, AttributeKind, CreatureHeader, PropRecord, RecordData, ResolveError, SkillKind,
    SpecHeader, SpecRecord, SpecRecordData, recs_view,
};
use crate::strutil::{
    char_is_lowercase, char_is_uppercase, char_to_uppercase, hit_die_size, i64_to_string,
    is_lower_char, is_upper_char, lower_of, push_char, replace_all, spec_contains, spec_die_size,
    spec_i64_dec, spec_replace, spec_trim, str_contains, str_eq, to_lowercase, trim,
    upper_chars_of,
};

verus! {

// ---------------------------------------------------------------------------
// Association lists keyed by the upstream id string.
// ---------------------------------------------------------------------------

/// The first position holding key `k`, or `m.len()` when `k` is absent.
pub open spec fn al_idx<V>(m: Seq<(Seq<char>, V)>, k: Seq<char>) -> int
    decreases m.len(),
{
    if m.len() == 0 {
        0
    } else if m[0].0 == k {
        0
    } else {
        1 + al_idx(m.drop_first(), k)
    }
}

pub open spec fn al_has<V>(m: Seq<(Seq<char>, V)>, k: Seq<char>) -> bool {
    al_idx(m, k) < m.len()
}

pub open spec fn al_get<V>(m: Seq<(Seq<char>, V)>, k: Seq<char>) -> V
    recommends
        al_has(m, k),
{
    m[al_idx(m, k)].1
}

/// Updates the first entry with key `k`, or appends a new entry at the end.
pub open spec fn al_set<V>(m: Seq<(Seq<char>, V)>, k: Seq<char>, v: V) -> Seq<(Seq<char>, V)> {
    if al_has(m, k) {
        m.update(al_idx(m, k), (k, v))
    } else {
        m.push((k, v))
    }
}

pub proof fn lemma_al_idx<V>(m: Seq<(Seq<char>, V)>, k: Seq<char>)
    ensures
        0 <= al_idx(m, k) <= m.len(),
        al_idx(m, k) < m.len() ==> m[al_idx(m, k)].0 == k,
        forall|j: int| 0 <= j < al_idx(m, k) ==> (#[trigger] m[j]).0 != k,
    decreases m.len(),
{
    if m.len() > 0 && m[0].0 != k {
        lemma_al_idx(m.drop_first(), k);
        assert forall|j: int| 0 <= j < al_idx(m, k) implies (#[trigger] m[j]).0 != k by {
            if j > 0 {
                assert(m.drop_first()[j - 1] == m[j]);
            }
        }
    }
}

// ---------------------------------------------------------------------------
// Saturating addition for the spell slot counters.
// ---------------------------------------------------------------------------

pub open spec fn spec_sat_add(a: int, b: int) -> int {
    if a + b > i64::MAX {
        i64::MAX as int
    } else if a + b < i64::MIN {
        i64::MIN as int
    } else {
        a + b
    }
}

/// Adds two counters, saturating at the representable bounds.
pub fn sat_add(a: i64, b: i64) -> (r: i64)
    ensures
        r as int == spec_sat_add(a as int, b as int),
{
    let s: i128 = a as i128 + b as i128;
    if s > i64::MAX as i128 {
        i64::MAX
    } else if s < i64::MIN as i128 {
        i64::MIN
    } else {
        s as i64
    }
}

// ---------------------------------------------------------------------------
// Proficiency classification.
// ---------------------------------------------------------------------------

/// The rank of a saving throw's proficiency value, given in hundredths:
/// exactly one half (or the jittered 0.49) is Half, exactly one is
/// Proficient, exactly two is Expert, anything else (or no value) is none.
pub open spec fn spec_save_prof(p: Option<int>) -> Proficiency {
    if p == Some(49int) || p == Some(50int) {
        Proficiency::Half
    } else if p == Some(100int) {
        Proficiency::Proficient
    } else if p == Some(200int) {
        Proficiency::Expert
    } else {
        Proficiency::NotProficient
    }
}

pub fn save_proficiency(p: Option<i64>) -> (r: Proficiency)
    ensures
        r == spec_save_prof(match p {
            Some(v) => Some(v as int),
            None => None,
        }),
{
    match p {
        Some(v) => {
            if v == 49 || v == 50 {
                Proficiency::Half
            } else if v == 100 {
                Proficiency::Proficient
            } else if v == 200 {
                Proficiency::Expert
            } else {
                Proficiency::NotProficient
            }
        },
        None => Proficiency::NotProficient,
    }
}

/// The rank of a skill's proficiency value, given in hundredths: anything
/// in the tolerance band from 0.48 to 0.52 is Half, exactly one is
/// Proficient, exactly two is Expert, anything else (or no value) is none.
pub open spec fn spec_skill_prof(p: Option<int>) -> Proficiency {
    match p {
        Some(v) => if 48 <= v <= 52 {
            Proficiency::Half
        } else if v == 100 {
            Proficiency::Proficient
        } else if v == 200 {
            Proficiency::Expert
        } else {
            Proficiency::NotProficient
        },
        None => Proficiency::NotProficient,
    }
}

pub fn skill_proficiency(p: Option<i64>) -> (r: Proficiency)
    ensures
        r == spec_skill_prof(match p {
            Some(v) => Some(v as int),
            None => None,
        }),
{
    match p {
        Some(v) => {
            if 48 <= v && v <= 52 {
                Proficiency::Half
            } else if v == 100 {
                Proficiency::Proficient
            } else if v == 200 {
                Proficiency::Expert
            } else {
                Proficiency::NotProficient
            }
        },
        None => Proficiency::NotProficient,
    }
}

// ---------------------------------------------------------------------------
// Tag lookups.
// ---------------------------------------------------------------------------

/// Some tag has `p` as a substring.
pub open spec fn tags_have_sub(tags: Seq<Seq<char>>, p: Seq<char>) -> bool {
    exists|i: int| 0 <= i < tags.len() && spec_contains(#[trigger] tags[i], p)
}

/// Some tag is exactly `t`.
pub open spec fn tags_have(tags: Seq<Seq<char>>, t: Seq<char>) -> bool {
    exists|i: int| 0 <= i < tags.len() && #[trigger] tags[i] == t
}

// ---------------------------------------------------------------------------
// Pieces of the spell arm.
// ---------------------------------------------------------------------------

/// The id of the nearest ancestor present in the spell list index, or the
/// empty string when none is.
pub open spec fn find_list_id(
    dict: Seq<(Seq<char>, SpecSpellList)>,
    ancestors: Seq<Seq<char>>,
) -> Seq<char>
    decreases ancestors.len(),
{
    if ancestors.len() == 0 {
        Seq::empty()
    } else if al_has(dict, ancestors[0]) {
        ancestors[0]
    } else {
        find_list_id(dict, ancestors.drop_first())
    }
}

/// How a spell's casting time is classified from its action type text, with
/// the long form shortened.
pub open spec fn spec_casting_time(akt: Seq<char>, ct: Option<Seq<char>>) -> SpecActionType {
    if akt == "action"@ {
        SpecActionType::Action
    } else if akt == "bonus"@ {
        SpecActionType::Bonus
    } else if spec_contains(akt, "reaction"@) {
        SpecActionType::Reaction
    } else if akt == "free"@ {
        SpecActionType::Free
    } else {
        SpecActionType::Long(
            spec_replace(
                spec_replace(
                    spec_replace(
                        match ct {
                            Some(c) => c,
                            None => "long"@,
                        },
                        "round"@,
                        "rnd"@,
                    ),
                    "minute"@,
                    "min"@,
                ),
                "hour"@,
                "hr"@,
            ),
        )
    }
}

/// How a spell's duration text is normalized for display.
pub open spec fn spec_duration(d: Seq<char>) -> Seq<char> {
    spec_replace(
        spec_replace(
            spec_replace(spec_replace(lower_of(d), "up to "@, ""@), "round"@, "rnd"@),
            "minute"@,
            "min"@,
        ),
        "hour"@,
        "hr"@,
    )
}

/// How a spell's range text is normalized for display.
pub open spec fn spec_range(r: Seq<char>) -> Seq<char> {
    spec_replace(
        spec_replace(
            spec_replace(
                spec_replace(
                    spec_replace(
                        spec_replace(spec_replace(r, "feet"@, "ft"@), "miles"@, "mi"@),
                        "mile"@,
                        "mi"@,
                    ),
                    "slotLevel"@,
                    "sl"@,
                ),
                "foot"@,
                "ft"@,
            ),
            "radius"@,
            "rad"@,
        ),
        " * (1 + spellSniper)"@,
        ""@,
    )
}

/// The first position in a list's level buckets holding `lvl`, or the
/// number of buckets when absent.
pub open spec fn lvl_idx(levels: Seq<SpecSpellLevel>, lvl: int) -> int
    decreases levels.len(),
{
    if levels.len() == 0 {
        0
    } else if levels[0].level == lvl {
        0
    } else {
        1 + lvl_idx(levels.drop_first(), lvl)
    }
}

pub proof fn lemma_lvl_idx(levels: Seq<SpecSpellLevel>, lvl: int)
    ensures
        0 <= lvl_idx(levels, lvl) <= levels.len(),
        lvl_idx(levels, lvl) < levels.len() ==> levels[lvl_idx(levels, lvl)].level == lvl,
        forall|j: int| 0 <= j < lvl_idx(levels, lvl) ==> (#[trigger] levels[j]).level != lvl,
    decreases levels.len(),
{
    if levels.len() > 0 && levels[0].level != lvl {
        lemma_lvl_idx(levels.drop_first(), lvl);
        assert forall|j: int| 0 <= j < lvl_idx(levels, lvl) implies (#[trigger] levels[j]).level
            != lvl by {
            if j > 0 {
                assert(levels.drop_first()[j - 1] == levels[j]);
            }
        }
    }
}

/// Adds a spell to the bucket of its level, creating the bucket at the end
/// when absent.
pub open spec fn add_spell_at(
    levels: Seq<SpecSpellLevel>,
    lvl: int,
    sp: SpecSpell,
) -> Seq<SpecSpellLevel> {
    let i = lvl_idx(levels, lvl);
    if i < levels.len() {
        levels.update(i, SpecSpellLevel { level: lvl, spells: levels[i].spells.push(sp) })
    } else {
        levels.push(SpecSpellLevel { level: lvl, spells: seq![sp] })
    }
}

// ---------------------------------------------------------------------------
// The damage arm's formatted term.
// ---------------------------------------------------------------------------

/// One damage term: the dice text, the signed bonus (a non-negative bonus
/// gets an explicit plus), and the abbreviated damage type in brackets.
pub open spec fn spec_damage_term(calc: Seq<char>, bonus: int, dtype: Seq<char>) -> Seq<char> {
    calc + (if bonus >= 0 {
        seq!['+']
    } else {
        Seq::<char>::empty()
    }) + spec_i64_dec(bonus) + seq!['['] + spec_abbrev(dtype) + seq![']']
}

// ---------------------------------------------------------------------------
// The resolver state.
// ---------------------------------------------------------------------------

#[verifier::ext_equal]
pub ghost struct SpecState {
    pub ability_scores: Seq<SpecAbilityScore>,
    pub skills: Seq<SpecSkill>,
    pub saving_throws: Seq<SpecSkill>,
    pub initiative: int,
    pub prof_bonus: int,
    pub passive_bonus: int,
    pub speed: int,
    pub hit_points: int,
    pub ac: int,
    pub damage_mults: Seq<SpecDamageMult>,
    pub traits: (Seq<char>, Seq<char>, Seq<char>, Seq<char>),
    pub attacks_dict: Seq<(Seq<char>, SpecAttack)>,
    pub actions: Seq<SpecAction>,
    pub classes: Seq<SpecClass>,
    pub features: Seq<Seq<char>>,
    pub starting_class: Seq<char>,
    pub resources: Seq<SpecResource>,
    pub equipment: Seq<SpecItem>,
    pub hit_dice: Seq<SpecDie>,
    pub background: SpecBackground,
    pub race: Seq<char>,
    pub coins: (int, int, int, int, int),
    pub other_profs: (Seq<Seq<char>>, Seq<Seq<char>>, Seq<Seq<char>>, Seq<Seq<char>>),
    pub spell_dict: Seq<(Seq<char>, SpecSpellList)>,
    pub spell_slots: Seq<int>,
}

pub open spec fn spec_init() -> SpecState {
    SpecState {
        ability_scores: Seq::empty(),
        skills: Seq::empty(),
        saving_throws: Seq::empty(),
        initiative: 0,
        prof_bonus: 0,
        passive_bonus: 0,
        speed: 0,
        hit_points: 0,
        ac: 0,
        damage_mults: Seq::empty(),
        traits: (Seq::empty(), Seq::empty(), Seq::empty(), Seq::empty()),
        attacks_dict: Seq::empty(),
        actions: Seq::empty(),
        classes: Seq::empty(),
        features: Seq::empty(),
        starting_class: Seq::empty(),
        resources: Seq::empty(),
        equipment: Seq::empty(),
        hit_dice: Seq::empty(),
        background: SpecBackground {
            name: Seq::empty(),
            background_feature: SpecFeature { name: Seq::empty(), description: Seq::empty() },
        },
        race: Seq::empty(),
        coins: (0, 0, 0, 0, 0),
        other_profs: (Seq::empty(), Seq::empty(), Seq::empty(), Seq::empty()),
        spell_dict: Seq::empty(),
        spell_slots: seq![0, 0, 0, 0, 0, 0, 0, 0, 0],
    }
}

// ---------------------------------------------------------------------------
// The per-arm transitions.
// ---------------------------------------------------------------------------

pub open spec fn step_attr_ability(s: SpecState, name: Seq<char>, total: int) -> SpecState {
    SpecState { ability_scores: s.ability_scores.push(SpecAbilityScore { score: total, name }), ..s }
}

pub open spec fn step_attr_hitdice(s: SpecState, total: int, hds: Seq<char>) -> SpecState {
    if total > 0 {
        match spec_die_size(hds) {
            Some(size) => SpecState {
                hit_dice: s.hit_dice.push(SpecDie { size: size, num: total }),
                ..s
            },
            None => s,
        }
    } else {
        s
    }
}

pub open spec fn step_attr_spellslot(
    s: SpecState,
    inactive: bool,
    lvl: int,
    value: int,
) -> SpecState {
    if !inactive && 1 <= lvl <= 9 {
        SpecState {
            spell_slots: s.spell_slots.update(lvl - 1, spec_sat_add(s.spell_slots[lvl - 1], value)),
            ..s
        }
    } else {
        s
    }
}

pub open spec fn step_attr_resource(
    s: SpecState,
    inactive: bool,
    name: Seq<char>,
    total: int,
) -> SpecState {
    if !inactive {
        SpecState { resources: s.resources.push(SpecResource { name, total }), ..s }
    } else {
        s
    }
}

/// The arms any record can fall through to when no typed arm consumed it:
/// the scalar stats matched by name, the background tag, the constants, and
/// the race tags.  `attr_total` is the record's total where the record is an
/// attribute; `konst` carries a constant's variable name and formula.
pub open spec fn step_generic(
    s: SpecState,
    name: Seq<char>,
    tags: Seq<Seq<char>>,
    attr_total: Option<int>,
    konst: Option<(Seq<char>, Seq<char>)>,
) -> SpecState {
    if name == "Proficiency Bonus"@ {
        match attr_total {
            Some(t) => SpecState { prof_bonus: t, ..s },
            None => s,
        }
    } else if name == "Speed"@ && attr_total is Some {
        SpecState { speed: attr_total->0, ..s }
    } else if name == "Hit Points"@ && attr_total is Some {
        SpecState { hit_points: attr_total->0, ..s }
    } else if name == "Armor Class"@ && attr_total is Some {
        SpecState { ac: attr_total->0, ..s }
    } else if tags_have(tags, "background"@) {
        SpecState {
            background: SpecBackground {
                name,
                background_feature: SpecFeature {
                    name: Seq::empty(),
                    description: Seq::empty(),
                },
            },
            ..s
        }
    } else {
        match konst {
            Some(k) => {
                let vn = k.0;
                let calc = k.1;
                if vn == "race"@ {
                    if s.race.len() == 0 {
                        SpecState { race: spec_replace(calc, seq!['"'], Seq::empty()), ..s }
                    } else {
                        s
                    }
                } else if vn == "subRace"@ {
                    SpecState { race: spec_replace(calc, seq!['"'], Seq::empty()), ..s }
                } else if vn == "startingClass"@ {
                    SpecState { starting_class: spec_trim(calc), ..s }
                } else {
                    s
                }
            },
            None => {
                if tags_have(tags, "race"@) {
                    if s.race.len() == 0 {
                        SpecState { race: name, ..s }
                    } else {
                        s
                    }
                } else if tags_have(tags, "subrace"@) {
                    SpecState {
                        race: if spec_contains(name, s.race) {
                            name
                        } else {
                            name + s.race
                        },
                        ..s
                    }
                } else {
                    s
                }
            },
        }
    }
}

pub open spec fn step_skill(
    s: SpecState,
    name: Seq<char>,
    kind: SkillKind,
    value: int,
    prof: Option<int>,
    passive: int,
) -> SpecState {
    if name == "Initiative"@ {
        SpecState { initiative: value, ..s }
    } else {
        match kind {
            SkillKind::Save => SpecState {
                saving_throws: s.saving_throws.push(
                    SpecSkill { bonus: value, name, prof_rank: spec_save_prof(prof) },
                ),
                ..s
            },
            SkillKind::Skill => {
                let s2 = SpecState {
                    skills: s.skills.push(
                        SpecSkill { bonus: value, name, prof_rank: spec_skill_prof(prof) },
                    ),
                    ..s
                };
                if name == "Perception"@ {
                    SpecState { passive_bonus: passive, ..s2 }
                } else {
                    s2
                }
            },
            SkillKind::Armor => SpecState {
                other_profs: (s.other_profs.0.push(name), s.other_profs.1, s.other_profs.2, s.other_profs.3),
                ..s
            },
            SkillKind::Weapon => SpecState {
                other_profs: (s.other_profs.0, s.other_profs.1.push(name), s.other_profs.2, s.other_profs.3),
                ..s
            },
            SkillKind::Language => SpecState {
                other_profs: (s.other_profs.0, s.other_profs.1, s.other_profs.2.push(name), s.other_profs.3),
                ..s
            },
            SkillKind::Tool => SpecState {
                other_profs: (s.other_profs.0, s.other_profs.1, s.other_profs.2, s.other_profs.3.push(name)),
                ..s
            },
            SkillKind::Other => s,
        }
    }
}

pub open spec fn step_feature(
    s: SpecState,
    name: Seq<char>,
    tags: Seq<Seq<char>>,
    summary: Seq<char>,
) -> SpecState {
    if tags_have_sub(tags, "background"@) {
        SpecState {
            background: SpecBackground {
                name: s.background.name,
                background_feature: SpecFeature { name, description: summary },
            },
            ..s
        }
    } else {
        SpecState { features: s.features.push(name), ..s }
    }
}

pub open spec fn step_note(s: SpecState, name: Seq<char>, text: Seq<char>) -> SpecState {
    if name == "Flaws"@ {
        SpecState { traits: (s.traits.0, s.traits.1, s.traits.2, text), ..s }
    } else if name == "Ideals"@ {
        SpecState { traits: (s.traits.0, text, s.traits.2, s.traits.3), ..s }
    } else if name == "Personality Traits"@ {
        SpecState { traits: (text, s.traits.1, s.traits.2, s.traits.3), ..s }
    } else if name == "Bonds"@ {
        SpecState { traits: (s.traits.0, s.traits.1, text, s.traits.3), ..s }
    } else {
        s
    }
}

pub open spec fn step_spell_list(
    s: SpecState,
    id: Seq<char>,
    name: Seq<char>,
    max_prepared: int,
    dc: int,
    attack_bonus: int,
) -> SpecState {
    if !al_has(s.spell_dict, id) {
        SpecState {
            spell_dict: al_set(
                s.spell_dict,
                id,
                SpecSpellList {
                    levels: Seq::empty(),
                    name,
                    save_dc: dc,
                    atk_bonus: attack_bonus,
                    max_prepared,
                },
            ),
            ..s
        }
    } else {
        s
    }
}

pub open spec fn spec_spell_of(name: Seq<char>, d: SpecRecordData) -> SpecSpell
    recommends
        d is Spell,
{
    SpecSpell {
        name,
        level: d->Spell_level,
        casting_time: spec_casting_time(d->Spell_action_kind_text, d->Spell_casting_time),
        duration: spec_duration(d->Spell_duration),
        school: d->Spell_school,
        range: spec_range(d->Spell_range),
        vscr: (d->Spell_verbal, d->Spell_somatic, d->Spell_concentration, d->Spell_ritual),
        material: d->Spell_material,
        prepd: if d->Spell_always_prepared {
            SpellPrep::AlwaysPrepared
        } else if d->Spell_prepared {
            SpellPrep::Prepared
        } else {
            SpellPrep::NotPrepared
        },
    }
}

pub open spec fn step_spell(
    s: SpecState,
    name: Seq<char>,
    ancestors: Seq<Seq<char>>,
    d: SpecRecordData,
) -> SpecState
    recommends
        d is Spell,
{
    let lid = find_list_id(s.spell_dict, ancestors);
    if al_has(s.spell_dict, lid) {
        let sp = spec_spell_of(name, d);
        let ls = al_get(s.spell_dict, lid);
        let ls2 = SpecSpellList { levels: add_spell_at(ls.levels, d->Spell_level, sp), ..ls };
        SpecState { spell_dict: al_set(s.spell_dict, lid, ls2), ..s }
    } else {
        s
    }
}

pub open spec fn spec_action_type_of(kind: ActionKind) -> SpecActionType {
    match kind {
        ActionKind::Free => SpecActionType::Free,
        ActionKind::Bonus => SpecActionType::Bonus,
        ActionKind::Reaction => SpecActionType::Reaction,
        ActionKind::Action => SpecActionType::Action,
        ActionKind::Long => SpecActionType::Long("lng"@),
        _ => SpecActionType::Action,
    }
}

pub open spec fn step_action(
    s: SpecState,
    id: Seq<char>,
    name: Seq<char>,
    inactive: bool,
    kind: ActionKind,
    attack_roll: int,
    uses: Option<int>,
) -> SpecState {
    if kind == ActionKind::Attack {
        if !inactive {
            let dmg = if al_has(s.attacks_dict, id) {
                al_get(s.attacks_dict, id).damage
            } else {
                Seq::empty()
            };
            SpecState {
                attacks_dict: al_set(
                    s.attacks_dict,
                    id,
                    SpecAttack { name, bonus: SpecAtkBonus::Bonus(attack_roll), damage: dmg },
                ),
                ..s
            }
        } else {
            s
        }
    } else if !inactive {
        if kind == ActionKind::Event {
            s
        } else {
            SpecState {
                actions: s.actions.push(
                    SpecAction {
                        name,
                        typ: spec_action_type_of(kind),
                        uses: match uses {
                            Some(u) => u,
                            None => -1,
                        },
                    },
                ),
                ..s
            }
        }
    } else {
        s
    }
}

pub open spec fn step_damage(
    s: SpecState,
    parent: Option<Seq<char>>,
    calc: Seq<char>,
    bonus: int,
    dtype: Seq<char>,
) -> SpecState {
    match parent {
        None => s,
        Some(pid) => {
            let term = spec_damage_term(calc, bonus, dtype);
            if al_has(s.attacks_dict, pid) {
                let atk = al_get(s.attacks_dict, pid);
                SpecState {
                    attacks_dict: al_set(
                        s.attacks_dict,
                        pid,
                        SpecAttack { damage: spec_join_dmg(atk.damage, term), ..atk },
                    ),
                    ..s
                }
            } else {
                SpecState {
                    attacks_dict: al_set(
                        s.attacks_dict,
                        pid,
                        SpecAttack {
                            name: Seq::empty(),
                            bonus: SpecAtkBonus::Bonus(0),
                            damage: term,
                        },
                    ),
                    ..s
                }
            }
        },
    }
}

pub open spec fn step_class(s: SpecState, name: Seq<char>, level: int) -> SpecState {
    SpecState { classes: s.classes.push(SpecClass { name, level, start_class: false }), ..s }
}

pub open spec fn step_item(
    s: SpecState,
    name: Seq<char>,
    quantity: int,
    plural: Option<Seq<char>>,
    attune: bool,
) -> SpecState {
    let low = lower_of(name);
    if spec_contains(low, "piece"@) {
        if spec_contains(low, "platinum"@) {
            SpecState { coins: (s.coins.0, s.coins.1, s.coins.2, s.coins.3, quantity), ..s }
        } else if spec_contains(low, "gold"@) {
            SpecState { coins: (s.coins.0, s.coins.1, s.coins.2, quantity, s.coins.4), ..s }
        } else if spec_contains(low, "electrum"@) {
            SpecState { coins: (s.coins.0, s.coins.1, quantity, s.coins.3, s.coins.4), ..s }
        } else if spec_contains(low, "silver"@) {
            SpecState { coins: (s.coins.0, quantity, s.coins.2, s.coins.3, s.coins.4), ..s }
        } else if spec_contains(low, "copper"@) {
            SpecState { coins: (quantity, s.coins.1, s.coins.2, s.coins.3, s.coins.4), ..s }
        } else {
            s
        }
    } else {
        SpecState {
            equipment: s.equipment.push(
                SpecItem {
                    quantity,
                    name,
                    plural_name: match plural {
                        Some(p) => p,
                        None => name,
                    },
                    requires_attunement: attune,
                },
            ),
            ..s
        }
    }
}

pub open spec fn mults_of(dtypes: Seq<Seq<char>>, value_h: int) -> Seq<SpecDamageMult> {
    dtypes.map_values(
        |t: Seq<char>|
            if value_h == 0 {
                SpecDamageMult::Immune(t)
            } else if value_h == 50 {
                SpecDamageMult::Resist(t)
            } else {
                SpecDamageMult::Vuln(t)
            },
    )
}

pub open spec fn step_mult(s: SpecState, value_h: int, dtypes: Seq<Seq<char>>) -> SpecState {
    if value_h == 0 || value_h == 50 || value_h == 200 {
        SpecState { damage_mults: s.damage_mults + mults_of(dtypes, value_h), ..s }
    } else {
        s
    }
}

// ---------------------------------------------------------------------------
// The record dispatch, the scan, and the finalization.
// ---------------------------------------------------------------------------

/// One step of the scan.  A removed record changes nothing.  The typed arms
/// mirror the upstream dispatch precedence; records of a kind without an arm
/// of their own, inactive damage multipliers, and toggled-off spells fall
/// through to the generic arms.
pub open spec fn spec_step(s: SpecState, r: SpecRecord) -> SpecState {
    if r.removed {
        s
    } else {
        match r.data {
            SpecRecordData::Attribute { kind, total, value, spell_slot_level, hit_dice_size } => {
                match kind {
                    AttributeKind::Ability => step_attr_ability(s, r.name, total),
                    AttributeKind::HitDice => step_attr_hitdice(s, total, hit_dice_size),
                    AttributeKind::SpellSlot => step_attr_spellslot(
                        s,
                        r.inactive,
                        spell_slot_level,
                        value,
                    ),
                    AttributeKind::Resource => step_attr_resource(s, r.inactive, r.name, total),
                    AttributeKind::Other => step_generic(s, r.name, r.tags, Some(total), None),
                }
            },
            SpecRecordData::Skill { kind, value, proficiency, passive_bonus } => step_skill(
                s,
                r.name,
                kind,
                value,
                proficiency,
                passive_bonus,
            ),
            SpecRecordData::Feature { summary } => step_feature(s, r.name, r.tags, summary),
            SpecRecordData::Note { summary_text } => step_note(s, r.name, summary_text),
            SpecRecordData::Action { kind, attack_roll, uses } => step_action(
                s,
                r.id,
                r.name,
                r.inactive,
                kind,
                attack_roll,
                uses,
            ),
            SpecRecordData::Damage { calculation, bonus, damage_type } => step_damage(
                s,
                r.parent_id,
                calculation,
                bonus,
                damage_type,
            ),
            SpecRecordData::Class { level } => step_class(s, r.name, level),
            SpecRecordData::Item { quantity, plural, requires_attunement } => step_item(
                s,
                r.name,
                quantity,
                plural,
                requires_attunement,
            ),
            SpecRecordData::SpellList { max_prepared, dc, attack_bonus } => step_spell_list(
                s,
                r.id,
                r.name,
                max_prepared,
                dc,
                attack_bonus,
            ),
            SpecRecordData::Spell { .. } => {
                if !r.deactivated_by_toggle {
                    step_spell(s, r.name, r.ancestors, r.data)
                } else {
                    step_generic(s, r.name, r.tags, None, None)
                }
            },
            SpecRecordData::DamageMultiplier { value_hundredths, damage_types } => {
                if !r.inactive {
                    step_mult(s, value_hundredths, damage_types)
                } else {
                    step_generic(s, r.name, r.tags, None, None)
                }
            },
            SpecRecordData::Constant { variable_name, calculation } => step_generic(
                s,
                r.name,
                r.tags,
                None,
                Some((variable_name, calculation)),
            ),
            SpecRecordData::Other => step_generic(s, r.name, r.tags, None, None),
        }
    }
}

/// The scan: the left fold of `spec_step` over a record sequence.
pub open spec fn spec_scan(s: SpecState, recs: Seq<SpecRecord>) -> SpecState
    decreases recs.len(),
{
    if recs.len() == 0 {
        s
    } else {
        spec_scan(spec_step(s, recs[0]), recs.drop_first())
    }
}

pub proof fn lemma_scan_snoc(s: SpecState, recs: Seq<SpecRecord>, r: SpecRecord)
    ensures
        spec_scan(s, recs.push(r)) == spec_step(spec_scan(s, recs), r),
    decreases recs.len(),
{
    if recs.len() == 0 {
        assert(recs.push(r)[0] == r);
        assert(recs.push(r).drop_first() =~= Seq::<SpecRecord>::empty());
        assert(spec_scan(spec_step(s, r), Seq::<SpecRecord>::empty()) == spec_step(s, r));
    } else {
        assert(recs.push(r)[0] == recs[0]);
        assert(recs.push(r).drop_first() =~= recs.drop_first().push(r));
        lemma_scan_snoc(spec_step(s, recs[0]), recs.drop_first(), r);
        assert(spec_scan(s, recs.push(r)) == spec_scan(
            spec_step(s, recs[0]),
            recs.drop_first().push(r),
        ));
        assert(spec_scan(s, recs) == spec_scan(spec_step(s, recs[0]), recs.drop_first()));
    }
}

/// Marks the first class whose name matches the starting class constant,
/// compared case-insensitively with quotation characters stripped.
pub open spec fn mark_start(classes: Seq<SpecClass>, key: Seq<char>) -> Seq<SpecClass>
    decreases classes.len(),
{
    if classes.len() == 0 {
        classes
    } else if lower_of(classes[0].name) == key {
        seq![SpecClass { start_class: true, ..classes[0] }] + classes.drop_first()
    } else {
        seq![classes[0]] + mark_start(classes.drop_first(), key)
    }
}

/// The key the starting class constant yields: quotes stripped, lowered.
pub open spec fn spec_start_key(sc: Seq<char>) -> Seq<char> {
    lower_of(spec_replace(spec_replace(sc, seq!['"'], Seq::empty()), seq!['\''], Seq::empty()))
}

/// Drains the attack index in insertion order, dropping the placeholders
/// that never got a name.
pub open spec fn drain_attacks(d: Seq<(Seq<char>, SpecAttack)>) -> Seq<SpecAttack>
    decreases d.len(),
{
    if d.len() == 0 {
        Seq::empty()
    } else {
        drain_attacks(d.drop_last()) + (if d.last().1.name.len() > 0 {
            seq![d.last().1]
        } else {
            Seq::<SpecAttack>::empty()
        })
    }
}

/// Drains the spell list index in insertion order, dropping placeholders
/// without a name.
pub open spec fn drain_spell_lists(d: Seq<(Seq<char>, SpecSpellList)>) -> Seq<SpecSpellList>
    decreases d.len(),
{
    if d.len() == 0 {
        Seq::empty()
    } else {
        drain_spell_lists(d.drop_last()) + (if d.last().1.name.len() > 0 {
            seq![d.last().1]
        } else {
            Seq::<SpecSpellList>::empty()
        })
    }
}

/// Builds the character from the final state: the starting class pass, the
/// race normalization, and the draining of the two indices.
pub open spec fn spec_finalize(
    h: SpecHeader,
    st: SpecState,
    lookup: Seq<(Seq<char>, Seq<char>)>,
) -> SpecCharacter
    recommends
        h.name is Some,
        h.alignment is Some,
        h.xp is Some,
{
    SpecCharacter {
        char_name: h.name->0,
        classes: mark_start(st.classes, spec_start_key(st.starting_class)),
        background: st.background,
        damage_mults: st.damage_mults,
        race: spec_race_translate(st.race, lookup),
        alignment: h.alignment->0,
        xp: h.xp->0,
        ability_scores: st.ability_scores,
        prof_bonus: st.prof_bonus,
        saving_throws: st.saving_throws,
        skills: st.skills,
        ac: st.ac,
        passive_bonus: st.passive_bonus,
        initiative: st.initiative,
        speed: st.speed,
        hit_points: st.hit_points,
        hit_dice: st.hit_dice,
        attacks: drain_attacks(st.attacks_dict),
        actions: st.actions,
        resources: st.resources,
        equipment: st.equipment,
        traits: st.traits,
        features: st.features,
        other_profs: st.other_profs,
        coins: st.coins,
        spell_lists: drain_spell_lists(st.spell_dict),
        spell_slots: st.spell_slots,
        char_img: match h.avatar_picture {
            Some(u) => u,
            None => match h.picture {
                Some(u) => u,
                None => Seq::empty(),
            },
        },
    }
}

// ---------------------------------------------------------------------------
// The stable sort by the order field.
// ---------------------------------------------------------------------------

/// Inserts a record behind every record whose order does not exceed its own:
/// the insertion step of a stable insertion sort.
pub open spec fn spec_insert_rec(s: Seq<SpecRecord>, r: SpecRecord) -> Seq<SpecRecord>
    decreases s.len(),
{
    if s.len() == 0 {
        seq![r]
    } else if s.last().order <= r.order {
        s.push(r)
    } else {
        spec_insert_rec(s.drop_last(), r).push(s.last())
    }
}

/// The stable sort of the records by their order field.
pub open spec fn spec_sort_recs(recs: Seq<SpecRecord>) -> Seq<SpecRecord>
    decreases recs.len(),
{
    if recs.len() == 0 {
        recs
    } else {
        spec_insert_rec(spec_sort_recs(recs.drop_last()), recs.last())
    }
}

/// Non-decreasing in the order field.
pub open spec fn sorted_by_order(s: Seq<SpecRecord>) -> bool {
    forall|i: int, j: int| 0 <= i <= j < s.len() ==> (#[trigger] s[i]).order <= (#[trigger] s[j]).order
}

// ---------------------------------------------------------------------------
// The race normalizer.
// ---------------------------------------------------------------------------

/// Expands the tail of a concatenated-capitalized name: a space is inserted
/// before every character that is uppercase and not lowercase.
pub open spec fn expand_tail(s: Seq<char>) -> Seq<char>
    decreases s.len(),
{
    if s.len() == 0 {
        Seq::empty()
    } else {
        (if is_upper_char(s[0]) && !is_lower_char(s[0]) {
            seq![' ', s[0]]
        } else {
            seq![s[0]]
        }) + expand_tail(s.drop_first())
    }
}

/// Expands a concatenated-capitalized name: the first character is
/// uppercased, and a space goes before every later uppercase character.
pub open spec fn spec_expand_race(s: Seq<char>) -> Seq<char>
    recommends
        s.len() > 0,
{
    upper_chars_of(s[0]) + expand_tail(s.skip(1))
}

/// How a raw race name is normalized: the empty name stays empty; a name the
/// lookup table knows is mapped; a name already holding a space stays; any
/// other name is expanded as concatenated capitalized words.
pub open spec fn spec_race_translate(
    race: Seq<char>,
    lookup: Seq<(Seq<char>, Seq<char>)>,
) -> Seq<char> {
    if race.len() == 0 {
        race
    } else if al_has(lookup, race) {
        al_get(lookup, race)
    } else if spec_contains(race, seq![' ']) {
        race
    } else {
        spec_expand_race(race)
    }
}

proof fn lemma_expand_tail_snoc(t: Seq<char>, x: char)
    ensures
        expand_tail(t.push(x)) == expand_tail(t) + (if is_upper_char(x) && !is_lower_char(x) {
            seq![' ', x]
        } else {
            seq![x]
        }),
    decreases t.len(),
{
    if t.len() == 0 {
        assert(t.push(x)[0] == x);
        assert(t.push(x).drop_first() =~= Seq::<char>::empty());
        assert(expand_tail(Seq::<char>::empty()) == Seq::<char>::empty());
        assert(expand_tail(t) + (if is_upper_char(x) && !is_lower_char(x) {
            seq![' ', x]
        } else {
            seq![x]
        }) =~= expand_tail(t.push(x)));
    } else {
        assert(t.push(x)[0] == t[0]);
        assert(t.push(x).drop_first() =~= t.drop_first().push(x));
        lemma_expand_tail_snoc(t.drop_first(), x);
        assert(expand_tail(t.push(x)) =~= expand_tail(t) + (if is_upper_char(x)
            && !is_lower_char(x) {
            seq![' ', x]
        } else {
            seq![x]
        }));
    }
}

/// The view of a vector dictionary keyed by strings.
pub open spec fn dict_view<V: View>(d: Seq<(String, V)>) -> Seq<(Seq<char>, <V as View>::V)> {
    d.map_values(|p: (String, V)| (p.0@, p.1@))
}

/// Finds the first entry with the given key, yielding the dictionary's
/// length when the key is absent.
pub fn dict_find<V: View>(d: &Vec<(String, V)>, key: &str) -> (r: usize)
    ensures
        r as int == al_idx(dict_view(d@), key@),
        r <= d.len(),
{
    let ghost m = dict_view(d@);
    let mut i: usize = 0;
    while i < d.len()
        invariant
            0 <= i <= d.len(),
            m == dict_view(d@),
            m.len() == d@.len(),
            forall|j: int| 0 <= j < i ==> (#[trigger] m[j]).0 != key@,
        decreases d.len() - i,
    {
        assert(m[i as int].0 == d@[i as int].0@);
        if str_eq(d[i].0.as_str(), key) {
            proof {
                let r = al_idx(m, key@);
                lemma_al_idx(m, key@);
                if r < i as int {
                    assert(m[r].0 == key@);
                } else if r > i as int {
                    assert(m[i as int].0 != key@);
                }
            }
            return i;
        }
        i += 1;
    }
    proof {
        let r = al_idx(m, key@);
        lemma_al_idx(m, key@);
        if r < m.len() {
            assert(m[r].0 == key@);
        }
    }
    d.len()
}

/// Normalizes a raw race name against the lookup table.
pub fn race_translator(race: String, race_decoder: &Vec<(String, String)>) -> (r: String)
    ensures
        r@ == spec_race_translate(race@, dict_view(race_decoder@)),
{
    let n = race.as_str().unicode_len();
    if n == 0 {
        return race;
    }
    let idx = dict_find(race_decoder, race.as_str());
    proof {
        lemma_al_idx(dict_view(race_decoder@), race@);
    }
    if idx < race_decoder.len() {
        assert(dict_view(race_decoder@)[idx as int].1 == race_decoder@[idx as int].1@);
        return race_decoder[idx].1.clone();
    }
    proof {
        reveal_strlit(" ");
    }
    assert(" "@ =~= seq![' ']);
    if str_contains(race.as_str(), " ") {
        return race;
    }
    let first = race.as_str().get_char(0);
    let ups = char_to_uppercase(first);
    let mut out = String::new();
    let mut k: usize = 0;
    while k < ups.len()
        invariant
            0 <= k <= ups.len(),
            ups@ == upper_chars_of(first),
            out@ == upper_chars_of(first).take(k as int),
        decreases ups.len() - k,
    {
        push_char(&mut out, ups[k]);
        assert(out@ =~= upper_chars_of(first).take(k as int + 1));
        k += 1;
    }
    assert(out@ =~= upper_chars_of(first));
    let ghost tail = race@.skip(1);
    let mut i: usize = 1;
    assert(tail.take(0) =~= Seq::<char>::empty());
    while i < n
        invariant
            1 <= i <= n,
            n == race@.len(),
            tail == race@.skip(1),
            first == race@[0],
            out@ == upper_chars_of(first) + expand_tail(tail.take(i as int - 1)),
        decreases n - i,
    {
        let c = race.as_str().get_char(i);
        assert(tail[i as int - 1] == race@[i as int]);
        let ghost before = tail.take(i as int - 1);
        if char_is_uppercase(c) && !char_is_lowercase(c) {
            push_char(&mut out, ' ');
            push_char(&mut out, c);
        } else {
            push_char(&mut out, c);
        }
        proof {
            lemma_expand_tail_snoc(before, c);
            assert(before.push(c) =~= tail.take(i as int));
        }
        assert(out@ =~= upper_chars_of(first) + expand_tail(tail.take(i as int)));
        i += 1;
    }
    assert(tail.take(n as int - 1) =~= tail);
    out
}

// ---------------------------------------------------------------------------
// The whole resolve.
// ---------------------------------------------------------------------------

/// What resolving yields: an error naming the missing mandatory field, or
/// the character built by scanning the records in order-sorted sequence.
pub open spec fn spec_resolve(
    h: SpecHeader,
    recs: Seq<SpecRecord>,
    lookup: Seq<(Seq<char>, Seq<char>)>,
) -> Result<SpecCharacter, ResolveError> {
    if h.name is None {
        Err(ResolveError::MissingName)
    } else if h.alignment is None {
        Err(ResolveError::MissingAlignment)
    } else if h.xp is None {
        Err(ResolveError::MissingXp)
    } else {
        Ok(spec_finalize(h, spec_scan(spec_init(), spec_sort_recs(recs)), lookup))
    }
}

} // verus!

// The executable resolver below computes exactly the fold specified above.

verus! {

// ---------------------------------------------------------------------------
// Tag lookups, executable.
// ---------------------------------------------------------------------------

fn tags_contain_exact(tags: &Vec<String>, t: &str) -> (r: bool)
    ensures
        r == tags_have(strs_view(tags@), t@),
{
    let ghost tv = strs_view(tags@);
    let mut i: usize = 0;
    while i < tags.len()
        invariant
            0 <= i <= tags.len(),
            tv == strs_view(tags@),
            tv.len() == tags@.len(),
            forall|j: int| 0 <= j < i ==> #[trigger] tv[j] != t@,
        decreases tags.len() - i,
    {
        assert(tv[i as int] == tags@[i as int]@);
        if str_eq(tags[i].as_str(), t) {
            return true;
        }
        i += 1;
    }
    false
}

fn tags_contain_substr(tags: &Vec<String>, p: &str) -> (r: bool)
    ensures
        r == tags_have_sub(strs_view(tags@), p@),
{
    let ghost tv = strs_view(tags@);
    let mut i: usize = 0;
    while i < tags.len()
        invariant
            0 <= i <= tags.len(),
            tv == strs_view(tags@),
            tv.len() == tags@.len(),
            forall|j: int| 0 <= j < i ==> !spec_contains(#[trigger] tv[j], p@),
        decreases tags.len() - i,
    {
        assert(tv[i as int] == tags@[i as int]@);
        if str_contains(tags[i].as_str(), p) {
            return true;
        }
        i += 1;
    }
    false
}

// ---------------------------------------------------------------------------
// The accumulating state.
// ---------------------------------------------------------------------------

struct ResolveState {
    ability_scores: Vec<AbilityScore>,
    skills: Vec<Skill>,
    saving_throws: Vec<Skill>,
    initiative: i64,
    prof_bonus: i64,
    passive_bonus: i64,
    speed: i64,
    hit_points: i64,
    ac: i64,
    damage_mults: Vec<DamageMult>,
    traits: (String, String, String, String),
    attacks_dict: Vec<(String, Attack)>,
    actions: Vec<Action>,
    classes: Vec<Class>,
    features: Vec<String>,
    starting_class: String,
    resources: Vec<Resource>,
    equipment: Vec<Item>,
    hit_dice: Vec<Die>,
    background: Background,
    race: String,
    coins: (i64, i64, i64, i64, i64),
    other_profs: (Vec<String>, Vec<String>, Vec<String>, Vec<String>),
    spell_dict: Vec<(String, SpellList)>,
    spell_slots: [i64; 9],
}

impl View for ResolveState {
    type V = SpecState;

    closed spec fn view(&self) -> SpecState {
        SpecState {
            ability_scores: self.ability_scores@.map_values(|a: AbilityScore| a@),
            skills: self.skills@.map_values(|s: Skill| s@),
            saving_throws: self.saving_throws@.map_values(|s: Skill| s@),
            initiative: self.initiative as int,
            prof_bonus: self.prof_bonus as int,
            passive_bonus: self.passive_bonus as int,
            speed: self.speed as int,
            hit_points: self.hit_points as int,
            ac: self.ac as int,
            damage_mults: self.damage_mults@.map_values(|d: DamageMult| d@),
            traits: (self.traits.0@, self.traits.1@, self.traits.2@, self.traits.3@),
            attacks_dict: dict_view(self.attacks_dict@),
            actions: self.actions@.map_values(|a: Action| a@),
            classes: self.classes@.map_values(|c: Class| c@),
            features: strs_view(self.features@),
            starting_class: self.starting_class@,
            resources: self.resources@.map_values(|r: Resource| r@),
            equipment: self.equipment@.map_values(|i: Item| i@),
            hit_dice: self.hit_dice@.map_values(|d: Die| d@),
            background: self.background@,
            race: self.race@,
            coins: (
                self.coins.0 as int,
                self.coins.1 as int,
                self.coins.2 as int,
                self.coins.3 as int,
                self.coins.4 as int,
            ),
            other_profs: (
                strs_view(self.other_profs.0@),
                strs_view(self.other_profs.1@),
                strs_view(self.other_profs.2@),
                strs_view(self.other_profs.3@),
            ),
            spell_dict: dict_view(self.spell_dict@),
            spell_slots: self.spell_slots@.map_values(|n: i64| n as int),
        }
    }
}

impl ResolveState {
    fn init() -> (r: ResolveState)
        ensures
            r@ == spec_init(),
    {
        let r = ResolveState {
            ability_scores: Vec::new(),
            skills: Vec::new(),
            saving_throws: Vec::new(),
            initiative: 0,
            prof_bonus: 0,
            passive_bonus: 0,
            speed: 0,
            hit_points: 0,
            ac: 0,
            damage_mults: Vec::new(),
            traits: (String::new(), String::new(), String::new(), String::new()),
            attacks_dict: Vec::new(),
            actions: Vec::new(),
            classes: Vec::new(),
            features: Vec::new(),
            starting_class: String::new(),
            resources: Vec::new(),
            equipment: Vec::new(),
            hit_dice: Vec::new(),
            background: Background {
                name: String::new(),
                background_feature: Feature { name: String::new(), description: String::new() },
            },
            race: String::new(),
            coins: (0, 0, 0, 0, 0),
            other_profs: (Vec::new(), Vec::new(), Vec::new(), Vec::new()),
            spell_dict: Vec::new(),
            spell_slots: [0, 0, 0, 0, 0, 0, 0, 0, 0],
        };
        assert(r@ =~~= spec_init());
        r
    }
}

// ---------------------------------------------------------------------------
// The simple arms.
// ---------------------------------------------------------------------------

fn apply_attr_ability(st: &mut ResolveState, name: &String, total: i64)
    ensures
        final(st)@ == step_attr_ability(old(st)@, name@, total as int),
{
    let a = AbilityScore::new(name.clone(), total);
    st.ability_scores.push(a);
    assert(st@ =~~= step_attr_ability(old(st)@, name@, total as int));
}

fn apply_attr_hitdice(st: &mut ResolveState, total: i64, hds: &String)
    ensures
        final(st)@ == step_attr_hitdice(old(st)@, total as int, hds@),
{
    if total > 0 {
        match hit_die_size(hds.as_str()) {
            Some(size) => {
                st.hit_dice.push(Die::new(size, total));
                assert(st@ =~~= step_attr_hitdice(old(st)@, total as int, hds@));
            },
            None => {
                assert(st@ =~~= step_attr_hitdice(old(st)@, total as int, hds@));
            },
        }
    } else {
        assert(st@ =~~= step_attr_hitdice(old(st)@, total as int, hds@));
    }
}

fn apply_attr_spellslot(st: &mut ResolveState, inactive: bool, lvl: i64, value: i64)
    ensures
        final(st)@ == step_attr_spellslot(old(st)@, inactive, lvl as int, value as int),
{
    if !inactive && 1 <= lvl && lvl <= 9 {
        let idx = (lvl - 1) as usize;
        let cur = st.spell_slots[idx];
        st.spell_slots.set(idx, sat_add(cur, value));
        assert(st@ =~~= step_attr_spellslot(old(st)@, inactive, lvl as int, value as int));
    } else {
        assert(st@ =~~= step_attr_spellslot(old(st)@, inactive, lvl as int, value as int));
    }
}

fn apply_attr_resource(st: &mut ResolveState, inactive: bool, name: &String, total: i64)
    ensures
        final(st)@ == step_attr_resource(old(st)@, inactive, name@, total as int),
{
    if !inactive {
        st.resources.push(Resource::new(name.clone(), total));
        assert(st@ =~~= step_attr_resource(old(st)@, inactive, name@, total as int));
    } else {
        assert(st@ =~~= step_attr_resource(old(st)@, inactive, name@, total as int));
    }
}

fn apply_skill(
    st: &mut ResolveState,
    name: &String,
    kind: SkillKind,
    value: i64,
    proficiency: &Option<i64>,
    passive_bonus: i64,
)
    ensures
        final(st)@ == step_skill(
            old(st)@,
            name@,
            kind,
            value as int,
            match proficiency {
                Some(p) => Some(*p as int),
                None => None,
            },
            passive_bonus as int,
        ),
{
    let ghost target = step_skill(
        old(st)@,
        name@,
        kind,
        value as int,
        match proficiency {
            Some(p) => Some(*p as int),
            None => None,
        },
        passive_bonus as int,
    );
    if str_eq(name.as_str(), "Initiative") {
        st.initiative = value;
        assert(st@ =~~= target);
    } else {
        match kind {
            SkillKind::Save => {
                let prof = save_proficiency(*proficiency);
                st.saving_throws.push(Skill::new(name.clone(), value, prof));
                assert(st@ =~~= target);
            },
            SkillKind::Skill => {
                let prof = skill_proficiency(*proficiency);
                st.skills.push(Skill::new(name.clone(), value, prof));
                if str_eq(name.as_str(), "Perception") {
                    st.passive_bonus = passive_bonus;
                }
                assert(st@ =~~= target);
            },
            SkillKind::Armor => {
                st.other_profs.0.push(name.clone());
                assert(st@ =~~= target);
            },
            SkillKind::Weapon => {
                st.other_profs.1.push(name.clone());
                assert(st@ =~~= target);
            },
            SkillKind::Language => {
                st.other_profs.2.push(name.clone());
                assert(st@ =~~= target);
            },
            SkillKind::Tool => {
                st.other_profs.3.push(name.clone());
                assert(st@ =~~= target);
            },
            SkillKind::Other => {
                assert(st@ =~~= target);
            },
        }
    }
}

fn apply_feature(st: &mut ResolveState, name: &String, tags: &Vec<String>, summary: &String)
    ensures
        final(st)@ == step_feature(old(st)@, name@, strs_view(tags@), summary@),
{
    if tags_contain_substr(tags, "background") {
        st.background.set_background_feature(Feature::new(name.clone(), summary.clone()));
        assert(st@ =~~= step_feature(old(st)@, name@, strs_view(tags@), summary@));
    } else {
        st.features.push(name.clone());
        assert(st@ =~~= step_feature(old(st)@, name@, strs_view(tags@), summary@));
    }
}

fn apply_note(st: &mut ResolveState, name: &String, text: &String)
    ensures
        final(st)@ == step_note(old(st)@, name@, text@),
{
    if str_eq(name.as_str(), "Flaws") {
        st.traits.3 = text.clone();
    } else if str_eq(name.as_str(), "Ideals") {
        st.traits.1 = text.clone();
    } else if str_eq(name.as_str(), "Personality Traits") {
        st.traits.0 = text.clone();
    } else if str_eq(name.as_str(), "Bonds") {
        st.traits.2 = text.clone();
    }
    assert(st@ =~~= step_note(old(st)@, name@, text@));
}

fn apply_class(st: &mut ResolveState, name: &String, level: i64)
    ensures
        final(st)@ == step_class(old(st)@, name@, level as int),
{
    st.classes.push(Class::new(name.clone(), level));
    assert(st@ =~~= step_class(old(st)@, name@, level as int));
}

fn apply_spell_list(
    st: &mut ResolveState,
    id: &String,
    name: &String,
    max_prepared: i64,
    dc: i64,
    attack_bonus: i64,
)
    ensures
        final(st)@ == step_spell_list(
            old(st)@,
            id@,
            name@,
            max_prepared as int,
            dc as int,
            attack_bonus as int,
        ),
{
    let ghost m = dict_view(st.spell_dict@);
    let idx = dict_find(&st.spell_dict, id.as_str());
    proof {
        lemma_al_idx(m, id@);
    }
    if idx == st.spell_dict.len() {
        let ls = SpellList::new(Vec::new(), name.clone(), dc, attack_bonus, max_prepared);
        st.spell_dict.push((id.clone(), ls));
        assert(dict_view(st.spell_dict@) =~~= al_set(
            m,
            id@,
            SpecSpellList {
                levels: Seq::empty(),
                name: name@,
                save_dc: dc as int,
                atk_bonus: attack_bonus as int,
                max_prepared: max_prepared as int,
            },
        ));
        assert(st@ =~~= step_spell_list(
            old(st)@,
            id@,
            name@,
            max_prepared as int,
            dc as int,
            attack_bonus as int,
        ));
    } else {
        assert(al_has(m, id@));
        assert(st@ =~~= step_spell_list(
            old(st)@,
            id@,
            name@,
            max_prepared as int,
            dc as int,
            attack_bonus as int,
        ));
    }
}

fn apply_mult(st: &mut ResolveState, inactive: bool, value_h: i64, dtypes: &Vec<String>)
    requires
        !inactive,
    ensures
        final(st)@ == step_mult(old(st)@, value_h as int, strs_view(dtypes@)),
{
    let ghost target = step_mult(old(st)@, value_h as int, strs_view(dtypes@));
    if value_h == 0 || value_h == 50 || value_h == 200 {
        let mut i: usize = 0;
        while i < dtypes.len()
            invariant
                0 <= i <= dtypes.len(),
                value_h == 0 || value_h == 50 || value_h == 200,
                st.damage_mults@.map_values(|d: DamageMult| d@) == old(st)@.damage_mults + mults_of(
                    strs_view(dtypes@).take(i as int),
                    value_h as int,
                ),
                st.ability_scores == old(st).ability_scores,
                st.skills == old(st).skills,
                st.saving_throws == old(st).saving_throws,
                st.initiative == old(st).initiative,
                st.prof_bonus == old(st).prof_bonus,
                st.passive_bonus == old(st).passive_bonus,
                st.speed == old(st).speed,
                st.hit_points == old(st).hit_points,
                st.ac == old(st).ac,
                st.traits == old(st).traits,
                st.attacks_dict == old(st).attacks_dict,
                st.actions == old(st).actions,
                st.classes == old(st).classes,
                st.features == old(st).features,
                st.starting_class == old(st).starting_class,
                st.resources == old(st).resources,
                st.equipment == old(st).equipment,
                st.hit_dice == old(st).hit_dice,
                st.background == old(st).background,
                st.race == old(st).race,
                st.coins == old(st).coins,
                st.other_profs == old(st).other_profs,
                st.spell_dict == old(st).spell_dict,
                st.spell_slots == old(st).spell_slots,
            decreases dtypes.len() - i,
    {
            let t = dtypes[i].clone();
            let dm = if value_h == 0 {
                DamageMult::Immune(t)
            } else if value_h == 50 {
                DamageMult::Resist(t)
            } else {
                DamageMult::Vuln(t)
            };
            let ghost prev = st.damage_mults@;
            let ghost dmv = dm@;
            st.damage_mults.push(dm);
            proof {
                let tv = strs_view(dtypes@);
                assert(tv[i as int] == dtypes@[i as int]@);
                assert(tv.take(i as int + 1) =~= tv.take(i as int).push(tv[i as int]));
                let m1 = mults_of(tv.take(i as int + 1), value_h as int);
                let m0 = mults_of(tv.take(i as int), value_h as int);
                assert(m1 =~= m0.push(dmv));
                assert(st.damage_mults@.map_values(|d: DamageMult| d@) =~= prev.map_values(
                    |d: DamageMult| d@,
                ).push(dmv));
                assert(st.damage_mults@.map_values(|d: DamageMult| d@) =~= old(
                    st,
                )@.damage_mults + m1);
            }
            i += 1;
        }
        proof {
            assert(strs_view(dtypes@).take(dtypes@.len() as int) =~= strs_view(dtypes@));
        }
        assert(st@ =~~= target);
    } else {
        assert(st@ =~~= target);
    }
}

} // verus!

// The dictionary-updating arms, the sort, and the final assembly.

verus! {

proof fn lemma_remove_insert<T>(s: Seq<T>, i: int, x: T)
    requires
        0 <= i < s.len(),
    ensures
        s.remove(i).insert(i, x) =~= s.update(i, x),
{
}

// ---------------------------------------------------------------------------
// The action and damage arms.
// ---------------------------------------------------------------------------

fn apply_action(
    st: &mut ResolveState,
    id: &String,
    name: &String,
    inactive: bool,
    kind: ActionKind,
    attack_roll: i64,
    uses: &Option<i64>,
)
    ensures
        final(st)@ == step_action(
            old(st)@,
            id@,
            name@,
            inactive,
            kind,
            attack_roll as int,
            match uses {
                Some(u) => Some(*u as int),
                None => None,
            },
        ),
{
    let ghost target = step_action(
        old(st)@,
        id@,
        name@,
        inactive,
        kind,
        attack_roll as int,
        match uses {
            Some(u) => Some(*u as int),
            None => None,
        },
    );
    match kind {
        ActionKind::Attack => {
            if !inactive {
                let ghost m = dict_view(st.attacks_dict@);
                let i = dict_find(&st.attacks_dict, id.as_str());
                proof {
                    lemma_al_idx(m, id@);
                }
                if i < st.attacks_dict.len() {
                    let pair = st.attacks_dict.remove(i);
                    let atk = Attack::new(name.clone(), AtkBonus::Bonus(attack_roll), pair.1.damage);
                    st.attacks_dict.insert(i, (pair.0, atk));
                    proof {
                        lemma_remove_insert(old(st).attacks_dict@, i as int, st.attacks_dict@[i as int]);
                        assert(dict_view(st.attacks_dict@) =~~= al_set(
                            m,
                            id@,
                            SpecAttack {
                                name: name@,
                                bonus: SpecAtkBonus::Bonus(attack_roll as int),
                                damage: al_get(m, id@).damage,
                            },
                        ));
                    }
                    assert(st@ =~~= target);
                } else {
                    st.attacks_dict.push(
                        (id.clone(), Attack::new(name.clone(), AtkBonus::Bonus(attack_roll), String::new())),
                    );
                    proof {
                        assert(dict_view(st.attacks_dict@) =~~= al_set(
                            m,
                            id@,
                            SpecAttack {
                                name: name@,
                                bonus: SpecAtkBonus::Bonus(attack_roll as int),
                                damage: Seq::empty(),
                            },
                        ));
                    }
                    assert(st@ =~~= target);
                }
            } else {
                assert(st@ =~~= target);
            }
        },
        ActionKind::Event => {
            assert(st@ =~~= target);
        },
        ActionKind::Free => {
            if !inactive {
                st.actions.push(Action::new(name.clone(), uses_or_unlimited(uses), ActionType::Free));
                assert(st@ =~~= target);
            } else {
                assert(st@ =~~= target);
            }
        },
        ActionKind::Bonus => {
            if !inactive {
                st.actions.push(Action::new(name.clone(), uses_or_unlimited(uses), ActionType::Bonus));
                assert(st@ =~~= target);
            } else {
                assert(st@ =~~= target);
            }
        },
        ActionKind::Reaction => {
            if !inactive {
                st.actions.push(Action::new(name.clone(), uses_or_unlimited(uses), ActionType::Reaction));
                assert(st@ =~~= target);
            } else {
                assert(st@ =~~= target);
            }
        },
        ActionKind::Action => {
            if !inactive {
                st.actions.push(Action::new(name.clone(), uses_or_unlimited(uses), ActionType::Action));
                assert(st@ =~~= target);
            } else {
                assert(st@ =~~= target);
            }
        },
        ActionKind::Long => {
            if !inactive {
                st.actions.push(
                    Action::new(name.clone(), uses_or_unlimited(uses), ActionType::Long("lng".to_owned())),
                );
                assert(st@ =~~= target);
            } else {
                assert(st@ =~~= target);
            }
        },
        ActionKind::Other => {
            if !inactive {
                st.actions.push(Action::new(name.clone(), uses_or_unlimited(uses), ActionType::Action));
                assert(st@ =~~= target);
            } else {
                assert(st@ =~~= target);
            }
        },
    }
}

fn uses_or_unlimited(uses: &Option<i64>) -> (r: i64)
    ensures
        r as int == (match uses {
            Some(u) => *u as int,
            None => -1,
        }),
{
    match uses {
        Some(u) => *u,
        None => -1,
    }
}

fn apply_damage(
    st: &mut ResolveState,
    parent: &Option<String>,
    calc: &String,
    bonus: i64,
    dtype: &String,
)
    ensures
        final(st)@ == step_damage(
            old(st)@,
            match parent {
                Some(p) => Some(p@),
                None => None,
            },
            calc@,
            bonus as int,
            dtype@,
        ),
{
    let ghost target = step_damage(
        old(st)@,
        match parent {
            Some(p) => Some(p@),
            None => None,
        },
        calc@,
        bonus as int,
        dtype@,
    );
    match parent {
        None => {
            assert(st@ =~~= target);
        },
        Some(pid) => {
            let mut term = calc.clone();
            proof {
                reveal_strlit("+");
                reveal_strlit("[");
                reveal_strlit("]");
            }
            if bonus >= 0 {
                term.append("+");
            }
            let digits = i64_to_string(bonus);
            term.append(digits.as_str());
            term.append("[");
            let ab = damage_type_abreviator(dtype.clone());
            term.append(ab.as_str());
            term.append("]");
            assert(term@ =~= spec_damage_term(calc@, bonus as int, dtype@));
            let ghost m = dict_view(st.attacks_dict@);
            let i = dict_find(&st.attacks_dict, pid.as_str());
            proof {
                lemma_al_idx(m, pid@);
            }
            if i < st.attacks_dict.len() {
                let pair = st.attacks_dict.remove(i);
                let mut atk = pair.1;
                atk.add_dmg(term);
                st.attacks_dict.insert(i, (pair.0, atk));
                proof {
                    lemma_remove_insert(old(st).attacks_dict@, i as int, st.attacks_dict@[i as int]);
                    assert(dict_view(st.attacks_dict@) =~~= al_set(
                        m,
                        pid@,
                        SpecAttack {
                            damage: spec_join_dmg(
                                al_get(m, pid@).damage,
                                spec_damage_term(calc@, bonus as int, dtype@),
                            ),
                            ..al_get(m, pid@)
                        },
                    ));
                }
                assert(st@ =~~= target);
            } else {
                st.attacks_dict.push(
                    (pid.clone(), Attack::new(String::new(), AtkBonus::Bonus(0), term)),
                );
                proof {
                    assert(dict_view(st.attacks_dict@) =~~= al_set(
                        m,
                        pid@,
                        SpecAttack {
                            name: Seq::empty(),
                            bonus: SpecAtkBonus::Bonus(0),
                            damage: spec_damage_term(calc@, bonus as int, dtype@),
                        },
                    ));
                }
                assert(st@ =~~= target);
            }
        },
    }
}

// ---------------------------------------------------------------------------
// The item arm.
// ---------------------------------------------------------------------------

fn apply_item(
    st: &mut ResolveState,
    name: &String,
    quantity: i64,
    plural: &Option<String>,
    attune: bool,
)
    ensures
        final(st)@ == step_item(
            old(st)@,
            name@,
            quantity as int,
            match plural {
                Some(p) => Some(p@),
                None => None,
            },
            attune,
        ),
{
    let ghost target = step_item(
        old(st)@,
        name@,
        quantity as int,
        match plural {
            Some(p) => Some(p@),
            None => None,
        },
        attune,
    );
    let low = to_lowercase(name.as_str());
    if str_contains(low.as_str(), "piece") {
        if str_contains(low.as_str(), "platinum") {
            st.coins.4 = quantity;
        } else if str_contains(low.as_str(), "gold") {
            st.coins.3 = quantity;
        } else if str_contains(low.as_str(), "electrum") {
            st.coins.2 = quantity;
        } else if str_contains(low.as_str(), "silver") {
            st.coins.1 = quantity;
        } else if str_contains(low.as_str(), "copper") {
            st.coins.0 = quantity;
        }
        assert(st@ =~~= target);
    } else {
        let pl = match plural {
            Some(p) => p.clone(),
            None => name.clone(),
        };
        let mut itm = Item::new(quantity, name.clone(), pl);
        if attune {
            itm.needs_attuned();
        }
        st.equipment.push(itm);
        assert(st@ =~~= target);
    }
}

// ---------------------------------------------------------------------------
// The generic fall-through arms.
// ---------------------------------------------------------------------------

fn apply_generic_attr(st: &mut ResolveState, name: &String, tags: &Vec<String>, total: i64)
    ensures
        final(st)@ == step_generic(old(st)@, name@, strs_view(tags@), Some(total as int), None),
{
    let ghost target = step_generic(old(st)@, name@, strs_view(tags@), Some(total as int), None);
    if str_eq(name.as_str(), "Proficiency Bonus") {
        st.prof_bonus = total;
    } else if str_eq(name.as_str(), "Speed") {
        st.speed = total;
    } else if str_eq(name.as_str(), "Hit Points") {
        st.hit_points = total;
    } else if str_eq(name.as_str(), "Armor Class") {
        st.ac = total;
    } else if tags_contain_exact(tags, "background") {
        st.background = Background::new(name.clone());
    } else if tags_contain_exact(tags, "race") {
        if st.race.as_str().is_empty() {
            st.race = name.clone();
        }
    } else if tags_contain_exact(tags, "subrace") {
        if str_contains(name.as_str(), st.race.as_str()) {
            st.race = name.clone();
        } else {
            let mut n2 = name.clone();
            n2.append(st.race.as_str());
            st.race = n2;
        }
    }
    assert(st@ =~~= target);
}

fn apply_generic_plain(st: &mut ResolveState, name: &String, tags: &Vec<String>)
    ensures
        final(st)@ == step_generic(old(st)@, name@, strs_view(tags@), None, None),
{
    let ghost target = step_generic(old(st)@, name@, strs_view(tags@), None, None);
    if str_eq(name.as_str(), "Proficiency Bonus") {
        assert(st@ =~~= target);
    } else if tags_contain_exact(tags, "background") {
        st.background = Background::new(name.clone());
        assert(st@ =~~= target);
    } else if tags_contain_exact(tags, "race") {
        if st.race.as_str().is_empty() {
            st.race = name.clone();
        }
        assert(st@ =~~= target);
    } else if tags_contain_exact(tags, "subrace") {
        if str_contains(name.as_str(), st.race.as_str()) {
            st.race = name.clone();
        } else {
            let mut n2 = name.clone();
            n2.append(st.race.as_str());
            st.race = n2;
        }
        assert(st@ =~~= target);
    } else {
        assert(st@ =~~= target);
    }
}

fn apply_generic_const(
    st: &mut ResolveState,
    name: &String,
    tags: &Vec<String>,
    vn: &String,
    calc: &String,
)
    ensures
        final(st)@ == step_generic(old(st)@, name@, strs_view(tags@), None, Some((vn@, calc@))),
{
    let ghost target = step_generic(old(st)@, name@, strs_view(tags@), None, Some((vn@, calc@)));
    proof {
        reveal_strlit("\"");
        reveal_strlit("'");
        reveal_strlit("");
    }
    assert("\""@ =~= seq!['"']);
    assert("'"@ =~= seq!['\'']);
    assert(""@ =~= Seq::<char>::empty());
    if str_eq(name.as_str(), "Proficiency Bonus") {
        assert(st@ =~~= target);
    } else if tags_contain_exact(tags, "background") {
        st.background = Background::new(name.clone());
        assert(st@ =~~= target);
    } else if str_eq(vn.as_str(), "race") {
        if st.race.as_str().is_empty() {
            st.race = replace_all(calc.as_str(), "\"", "");
        }
        assert(st@ =~~= target);
    } else if str_eq(vn.as_str(), "subRace") {
        st.race = replace_all(calc.as_str(), "\"", "");
        assert(st@ =~~= target);
    } else if str_eq(vn.as_str(), "startingClass") {
        st.starting_class = trim(calc.as_str());
        assert(st@ =~~= target);
    } else {
        assert(st@ =~~= target);
    }
}

} // verus!

// The spell arm, the sort, and the finalization.

verus! {

// ---------------------------------------------------------------------------
// The spell arm.
// ---------------------------------------------------------------------------

/// Finds the nearest ancestor that is a known spell list, yielding the empty
/// string when none is.
fn find_spell_list_id(dict: &Vec<(String, SpellList)>, ancestors: &Vec<String>) -> (r: String)
    ensures
        r@ == find_list_id(dict_view(dict@), strs_view(ancestors@)),
{
    let ghost m = dict_view(dict@);
    let ghost anc = strs_view(ancestors@);
    let mut k: usize = 0;
    assert(anc.skip(0) =~= anc);
    while k < ancestors.len()
        invariant
            0 <= k <= ancestors.len(),
            m == dict_view(dict@),
            anc == strs_view(ancestors@),
            anc.len() == ancestors@.len(),
            find_list_id(m, anc) == find_list_id(m, anc.skip(k as int)),
        decreases ancestors.len() - k,
    {
        assert(anc[k as int] == ancestors@[k as int]@);
        assert(anc.skip(k as int)[0] == anc[k as int]);
        let idx = dict_find(dict, ancestors[k].as_str());
        proof {
            lemma_al_idx(m, anc[k as int]);
        }
        if idx < dict.len() {
            assert(al_has(m, anc[k as int]));
            return ancestors[k].clone();
        }
        assert(!al_has(m, anc[k as int]));
        assert(anc.skip(k as int).drop_first() =~= anc.skip(k as int + 1));
        k += 1;
    }
    assert(anc.skip(k as int) =~= Seq::<Seq<char>>::empty());
    String::new()
}

/// Adds a spell to the bucket of its level, creating the bucket when absent.
fn spell_list_add(ls: &mut SpellList, lvl: i64, sp: Spell)
    ensures
        final(ls)@.levels == add_spell_at(old(ls)@.levels, lvl as int, sp@),
        final(ls).name == old(ls).name,
        final(ls).save_dc == old(ls).save_dc,
        final(ls).atk_bonus == old(ls).atk_bonus,
        final(ls).max_prepared == old(ls).max_prepared,
{
    let ghost lv = old(ls)@.levels;
    let mut j: usize = 0;
    while j < ls.levels.len() && ls.levels[j].level != lvl
        invariant
            0 <= j <= ls.levels.len(),
            *ls == *old(ls),
            lv == ls@.levels,
            lv.len() == ls.levels@.len(),
            forall|t: int| 0 <= t < j ==> (#[trigger] lv[t]).level != lvl,
        decreases ls.levels.len() - j,
    {
        assert(lv[j as int] == ls.levels@[j as int]@);
        j += 1;
    }
    assert(j < ls.levels.len() ==> lv[j as int].level == lvl) by {
        if j < ls.levels.len() {
            assert(lv[j as int] == ls.levels@[j as int]@);
        }
    }
    proof {
        lemma_lvl_idx(lv, lvl as int);
        let r = lvl_idx(lv, lvl as int);
        if j < ls.levels.len() {
            assert(lv[j as int].level == lvl);
            if r < j as int {
                assert(lv[r].level == lvl as int);
            } else if r > j as int {
                assert(lv[j as int].level != lvl as int);
            }
        } else {
            if r < lv.len() {
                assert(lv[r].level == lvl as int);
            }
        }
        assert(r == if j < ls.levels.len() {
            j as int
        } else {
            lv.len() as int
        });
    }
    if j < ls.levels.len() {
        let bucket = ls.levels.remove(j);
        let blvl = bucket.level;
        let mut spells = bucket.spells;
        spells.push(sp);
        ls.levels.insert(j, SpellLevel::new(blvl, spells));
        proof {
            lemma_remove_insert(old(ls).levels@, j as int, ls.levels@[j as int]);
            assert(ls@.levels =~~= add_spell_at(lv, lvl as int, sp@));
        }
    } else {
        let mut v: Vec<Spell> = Vec::new();
        v.push(sp);
        ls.levels.push(SpellLevel::new(lvl, v));
        proof {
            assert(ls@.levels =~~= add_spell_at(lv, lvl as int, sp@));
        }
    }
}

fn apply_spell(st: &mut ResolveState, r: &PropRecord)
    requires
        !r.deactivated_by_toggle,
        r.data is Spell,
    ensures
        final(st)@ == step_spell(old(st)@, r@.name, r@.ancestors, r@.data),
{
    let ghost target = step_spell(old(st)@, r@.name, r@.ancestors, r@.data);
    match &r.data {
        RecordData::Spell {
            level,
            action_kind_text,
            casting_time,
            duration,
            school,
            range,
            verbal,
            somatic,
            concentration,
            ritual,
            material,
            always_prepared,
            prepared,
        } => {
            let ghost m = dict_view(st.spell_dict@);
            let lid = find_spell_list_id(&st.spell_dict, &r.ancestors);
            let idx = dict_find(&st.spell_dict, lid.as_str());
            proof {
                lemma_al_idx(m, lid@);
            }
            if idx < st.spell_dict.len() {
                let ct: ActionType = if str_eq(action_kind_text.as_str(), "action") {
                    ActionType::Action
                } else if str_eq(action_kind_text.as_str(), "bonus") {
                    ActionType::Bonus
                } else if str_contains(action_kind_text.as_str(), "reaction") {
                    ActionType::Reaction
                } else if str_eq(action_kind_text.as_str(), "free") {
                    ActionType::Free
                } else {
                    let base = match casting_time {
                        Some(c) => c.clone(),
                        None => "long".to_owned(),
                    };
                    let t1 = replace_all(base.as_str(), "round", "rnd");
                    let t2 = replace_all(t1.as_str(), "minute", "min");
                    let t3 = replace_all(t2.as_str(), "hour", "hr");
                    ActionType::Long(t3)
                };
                assert(ct@ == spec_casting_time(action_kind_text@, match casting_time {
                    Some(c) => Some(c@),
                    None => None,
                }));
                let dur0 = to_lowercase(duration.as_str());
                let dur1 = replace_all(dur0.as_str(), "up to ", "");
                let dur2 = replace_all(dur1.as_str(), "round", "rnd");
                let dur3 = replace_all(dur2.as_str(), "minute", "min");
                let dur = replace_all(dur3.as_str(), "hour", "hr");
                assert(dur@ == spec_duration(duration@));
                let rg1 = replace_all(range.as_str(), "feet", "ft");
                let rg2 = replace_all(rg1.as_str(), "miles", "mi");
                let rg3 = replace_all(rg2.as_str(), "mile", "mi");
                let rg4 = replace_all(rg3.as_str(), "slotLevel", "sl");
                let rg5 = replace_all(rg4.as_str(), "foot", "ft");
                let rg6 = replace_all(rg5.as_str(), "radius", "rad");
                let rg = replace_all(rg6.as_str(), " * (1 + spellSniper)", "");
                assert(rg@ == spec_range(range@));
                let mut sp = Spell::new(
                    r.name.clone(),
                    *level,
                    ct,
                    dur,
                    school.clone(),
                    rg,
                    (*verbal, *somatic, *concentration, *ritual),
                    material.clone(),
                );
                if *always_prepared {
                    sp.always_prepare();
                } else if *prepared {
                    sp.prepare();
                }
                assert(sp@ =~~= spec_spell_of(r@.name, r@.data));
                let pair = st.spell_dict.remove(idx);
                let key = pair.0;
                let mut ls = pair.1;
                spell_list_add(&mut ls, *level, sp);
                st.spell_dict.insert(idx, (key, ls));
                proof {
                    lemma_remove_insert(old(st).spell_dict@, idx as int, st.spell_dict@[idx as int]);
                    let ls0 = al_get(m, lid@);
                    assert(dict_view(st.spell_dict@) =~~= al_set(
                        m,
                        lid@,
                        SpecSpellList {
                            levels: add_spell_at(
                                ls0.levels,
                                r@.data->Spell_level,
                                spec_spell_of(r@.name, r@.data),
                            ),
                            ..ls0
                        },
                    ));
                }
                assert(st@ =~~= target);
            } else {
                assert(st@ =~~= target);
            }
        },
        _ => {
            proof {
                assert(false);
            }
        },
    }
}

} // verus!

// Sorting, the dispatch, and the assembly of the character.

verus! {

// ---------------------------------------------------------------------------
// The stable sort, executable.
// ---------------------------------------------------------------------------

pub proof fn lemma_insert_rec_at(s: Seq<SpecRecord>, r: SpecRecord, p: int)
    requires
        0 <= p <= s.len(),
        forall|k: int| p <= k < s.len() ==> (#[trigger] s[k]).order > r.order,
        p > 0 ==> s[p - 1].order <= r.order,
    ensures
        spec_insert_rec(s, r) == s.take(p) + seq![r] + s.skip(p),
    decreases s.len(),
{
    if s.len() == 0 {
        assert(s.take(p) + seq![r] + s.skip(p) =~= seq![r]);
    } else if s.last().order <= r.order {
        assert(p == s.len());
        assert(s.take(p) + seq![r] + s.skip(p) =~= s.push(r));
    } else {
        assert(p < s.len());
        let dl = s.drop_last();
        assert(forall|k: int| p <= k < dl.len() ==> (#[trigger] dl[k]).order > r.order) by {
            assert(forall|k: int| 0 <= k < dl.len() ==> #[trigger] dl[k] == s[k]);
        }
        assert(p > 0 ==> dl[p - 1].order <= r.order) by {
            if p > 0 {
                assert(dl[p - 1] == s[p - 1]);
            }
        }
        lemma_insert_rec_at(dl, r, p);
        assert(spec_insert_rec(s, r) == (dl.take(p) + seq![r] + dl.skip(p)).push(s.last()));
        assert(dl.take(p) =~= s.take(p));
        assert((dl.take(p) + seq![r] + dl.skip(p)).push(s.last()) =~= s.take(p) + seq![r] + s.skip(
            p,
        ));
    }
}

fn insert_sorted(out: &mut Vec<PropRecord>, r: PropRecord)
    ensures
        recs_view(final(out)@) == spec_insert_rec(recs_view(old(out)@), r@),
{
    let ghost s = recs_view(out@);
    let ghost rv = r@;
    let mut j: usize = out.len();
    while j > 0 && out[j - 1].order > r.order
        invariant
            0 <= j <= out.len(),
            s == recs_view(out@),
            s.len() == out@.len(),
            *out == *old(out),
            rv == r@,
            forall|k: int| j <= k < s.len() ==> (#[trigger] s[k]).order > rv.order,
        decreases j,
    {
        assert(s[j as int - 1] == out@[j as int - 1]@);
        j -= 1;
    }
    assert(j > 0 ==> s[j as int - 1].order <= rv.order) by {
        if j > 0 {
            assert(s[j as int - 1] == out@[j as int - 1]@);
        }
    }
    proof {
        lemma_insert_rec_at(s, rv, j as int);
    }
    out.insert(j, r);
    assert(recs_view(out@) =~= s.take(j as int) + seq![rv] + s.skip(j as int));
}

fn sort_records(input: Vec<PropRecord>) -> (r: Vec<PropRecord>)
    ensures
        recs_view(r@) == spec_sort_recs(recs_view(input@)),
{
    let ghost orig = input@;
    let mut rest = input;
    let mut stack: Vec<PropRecord> = Vec::new();
    while rest.len() > 0
        invariant
            rest@.len() + stack@.len() == orig.len(),
            rest@ =~= orig.take(rest@.len() as int),
            forall|i: int| 0 <= i < stack@.len() ==> #[trigger] stack@[i] == orig[orig.len() - 1
                - i],
        decreases rest.len(),
    {
        let ghost rl = rest@.len() as int;
        let x = match rest.pop() {
            Some(x) => x,
            None => unreached(),
        };
        assert(x == orig.take(rl)[rl - 1]);
        stack.push(x);
        assert(rest@ =~= orig.take(rl - 1));
    }
    let mut out: Vec<PropRecord> = Vec::new();
    assert(recs_view(orig.take(0)) =~= Seq::<SpecRecord>::empty());
    while stack.len() > 0
        invariant
            stack@.len() <= orig.len(),
            forall|i: int| 0 <= i < stack@.len() ==> #[trigger] stack@[i] == orig[orig.len() - 1
                - i],
            recs_view(out@) == spec_sort_recs(recs_view(orig.take(orig.len() - stack@.len()))),
        decreases stack.len(),
    {
        let ghost k = orig.len() - stack@.len();
        let x = match stack.pop() {
            Some(x) => x,
            None => unreached(),
        };
        assert(x == orig[k]);
        insert_sorted(&mut out, x);
        proof {
            let t0 = recs_view(orig.take(k));
            let t1 = recs_view(orig.take(k + 1));
            assert(t1.drop_last() =~= t0);
            assert(t1.last() == orig[k]@);
            assert(spec_sort_recs(t1) == spec_insert_rec(spec_sort_recs(t0), orig[k]@));
        }
    }
    assert(orig.take(orig.len() as int) =~= orig);
    out
}

// ---------------------------------------------------------------------------
// The dispatch of one record.
// ---------------------------------------------------------------------------

fn apply_record(st: &mut ResolveState, r: &PropRecord)
    ensures
        final(st)@ == spec_step(old(st)@, r@),
{
    if r.removed {
        assert(st@ =~~= spec_step(old(st)@, r@));
        return;
    }
    match &r.data {
        RecordData::Attribute { kind, total, value, spell_slot_level, hit_dice_size } => {
            match kind {
                AttributeKind::Ability => apply_attr_ability(st, &r.name, *total),
                AttributeKind::HitDice => apply_attr_hitdice(st, *total, hit_dice_size),
                AttributeKind::SpellSlot => apply_attr_spellslot(
                    st,
                    r.inactive,
                    *spell_slot_level,
                    *value,
                ),
                AttributeKind::Resource => apply_attr_resource(st, r.inactive, &r.name, *total),
                AttributeKind::Other => apply_generic_attr(st, &r.name, &r.tags, *total),
            }
        },
        RecordData::Skill { kind, value, proficiency, passive_bonus } => {
            apply_skill(st, &r.name, *kind, *value, proficiency, *passive_bonus);
        },
        RecordData::Feature { summary } => {
            apply_feature(st, &r.name, &r.tags, summary);
        },
        RecordData::Note { summary_text } => {
            apply_note(st, &r.name, summary_text);
        },
        RecordData::Action { kind, attack_roll, uses } => {
            apply_action(st, &r.id, &r.name, r.inactive, *kind, *attack_roll, uses);
        },
        RecordData::Damage { calculation, bonus, damage_type } => {
            apply_damage(st, &r.parent_id, calculation, *bonus, damage_type);
        },
        RecordData::Class { level } => {
            apply_class(st, &r.name, *level);
        },
        RecordData::Item { quantity, plural, requires_attunement } => {
            apply_item(st, &r.name, *quantity, plural, *requires_attunement);
        },
        RecordData::SpellList { max_prepared, dc, attack_bonus } => {
            apply_spell_list(st, &r.id, &r.name, *max_prepared, *dc, *attack_bonus);
        },
        RecordData::Spell { .. } => {
            if !r.deactivated_by_toggle {
                apply_spell(st, r);
            } else {
                apply_generic_plain(st, &r.name, &r.tags);
            }
        },
        RecordData::DamageMultiplier { value_hundredths, damage_types } => {
            if !r.inactive {
                apply_mult(st, r.inactive, *value_hundredths, damage_types);
            } else {
                apply_generic_plain(st, &r.name, &r.tags);
            }
        },
        RecordData::Constant { variable_name, calculation } => {
            apply_generic_const(st, &r.name, &r.tags, variable_name, calculation);
        },
        RecordData::Other => {
            apply_generic_plain(st, &r.name, &r.tags);
        },
    }
}

// ---------------------------------------------------------------------------
// The finalization.
// ---------------------------------------------------------------------------

proof fn lemma_mark_start_at(classes: Seq<SpecClass>, key: Seq<char>, j: int)
    requires
        0 <= j <= classes.len(),
        forall|k: int| 0 <= k < j ==> lower_of((#[trigger] classes[k]).name) != key,
        j < classes.len() ==> lower_of(classes[j].name) == key,
    ensures
        j < classes.len() ==> mark_start(classes, key) == classes.update(
            j,
            SpecClass { start_class: true, ..classes[j] },
        ),
        j == classes.len() ==> mark_start(classes, key) == classes,
    decreases classes.len(),
{
    if classes.len() == 0 {
    } else if lower_of(classes[0].name) == key {
        assert(j == 0) by {
            if j > 0 {
                assert(lower_of(classes[0].name) != key);
            }
        }
        assert(seq![SpecClass { start_class: true, ..classes[0] }] + classes.drop_first()
            =~= classes.update(0, SpecClass { start_class: true, ..classes[0] }));
    } else {
        assert(j > 0 || j == 0);
        let rest = classes.drop_first();
        assert(forall|k: int| 0 <= k < rest.len() ==> #[trigger] rest[k] == classes[k + 1]);
        if j == 0 {
            // the head does not match, so j cannot point at a match
            assert(!(j < classes.len())) by {
                if j < classes.len() {
                    assert(lower_of(classes[0].name) == key);
                }
            }
            assert(classes.len() == 0);
        } else {
            lemma_mark_start_at(rest, key, j - 1);
            if j < classes.len() {
                assert(mark_start(classes, key) == seq![classes[0]] + rest.update(
                    j - 1,
                    SpecClass { start_class: true, ..rest[j - 1] },
                ));
                assert(seq![classes[0]] + rest.update(
                    j - 1,
                    SpecClass { start_class: true, ..rest[j - 1] },
                ) =~= classes.update(j, SpecClass { start_class: true, ..classes[j] }));
            } else {
                assert(seq![classes[0]] + rest =~= classes);
            }
        }
    }
}

fn finalize_state(
    st: ResolveState,
    char_name: String,
    alignment: String,
    xp: i64,
    char_img: String,
    race_decoder: &Vec<(String, String)>,
) -> (c: Character)
    ensures
        c@ == (SpecCharacter {
            char_name: char_name@,
            classes: mark_start(st@.classes, spec_start_key(st@.starting_class)),
            background: st@.background,
            damage_mults: st@.damage_mults,
            race: spec_race_translate(st@.race, dict_view(race_decoder@)),
            alignment: alignment@,
            xp: xp as int,
            ability_scores: st@.ability_scores,
            prof_bonus: st@.prof_bonus,
            saving_throws: st@.saving_throws,
            skills: st@.skills,
            ac: st@.ac,
            passive_bonus: st@.passive_bonus,
            initiative: st@.initiative,
            speed: st@.speed,
            hit_points: st@.hit_points,
            hit_dice: st@.hit_dice,
            attacks: drain_attacks(st@.attacks_dict),
            actions: st@.actions,
            resources: st@.resources,
            equipment: st@.equipment,
            traits: st@.traits,
            features: st@.features,
            other_profs: st@.other_profs,
            coins: st@.coins,
            spell_lists: drain_spell_lists(st@.spell_dict),
            spell_slots: st@.spell_slots,
            char_img: char_img@,
        }),
{
    let ghost stv = st@;
    let ResolveState {
        ability_scores,
        skills,
        saving_throws,
        initiative,
        prof_bonus,
        passive_bonus,
        speed,
        hit_points,
        ac,
        damage_mults,
        traits,
        attacks_dict,
        actions,
        classes,
        features,
        starting_class,
        resources,
        equipment,
        hit_dice,
        background,
        race,
        coins,
        other_profs,
        spell_dict,
        spell_slots,
    } = st;
    // the starting class pass
    proof {
        reveal_strlit("\"");
        reveal_strlit("'");
        reveal_strlit("");
    }
    assert("\""@ =~= seq!['"']);
    assert("'"@ =~= seq!['\'']);
    assert(""@ =~= Seq::<char>::empty());
    let k1 = replace_all(starting_class.as_str(), "\"", "");
    let k2 = replace_all(k1.as_str(), "'", "");
    let key = to_lowercase(k2.as_str());
    assert(key@ == spec_start_key(stv.starting_class));
    let mut classes = classes;
    let ghost cv = stv.classes;
    let mut j: usize = 0;
    let mut found = false;
    while j < classes.len() && !found
        invariant
            0 <= j <= classes.len(),
            cv == classes@.map_values(|c: Class| c@),
            cv.len() == classes@.len(),
            key@ == spec_start_key(stv.starting_class),
            !found ==> forall|k: int| 0 <= k < j ==> lower_of((#[trigger] cv[k]).name) != key@,
            found ==> j < classes.len() && lower_of(cv[j as int].name) == key@ && (forall|k: int|
                0 <= k < j ==> lower_of((#[trigger] cv[k]).name) != key@),
        decreases classes.len() - j + (if found { 0int } else { 1int }),
    {
        assert(cv[j as int] == classes@[j as int]@);
        let low = to_lowercase(classes[j].name.as_str());
        if str_eq(low.as_str(), key.as_str()) {
            found = true;
        } else {
            j += 1;
        }
    }
    if found {
        assert(cv[j as int] == classes@[j as int]@);
        let ghost prev = classes@;
        let mut c = classes.remove(j);
        c.start_class = true;
        let ghost cg = c;
        classes.insert(j, c);
        proof {
            lemma_remove_insert(prev, j as int, cg);
            assert(classes@ =~= prev.update(j as int, cg));
        }
    }
    let marked = classes;
    proof {
        if found {
            lemma_mark_start_at(cv, key@, j as int);
            assert(marked@.map_values(|c: Class| c@) =~~= mark_start(cv, key@));
        } else {
            lemma_mark_start_at(cv, key@, j as int);
            assert(marked@.map_values(|c: Class| c@) =~~= mark_start(cv, key@));
        }
    }
    // the race normalization
    let race = race_translator(race, race_decoder);
    // draining the attack index
    let mut attacks: Vec<Attack> = Vec::new();
    let mut ad = attacks_dict;
    let ghost adv = stv.attacks_dict;
    assert(dict_view(ad@) =~= adv.skip(0));
    assert(recs_view(Seq::<PropRecord>::empty()) =~= Seq::<SpecRecord>::empty());
    while ad.len() > 0
        invariant
            ad@.len() <= adv.len(),
            dict_view(ad@) =~= adv.skip(adv.len() - ad@.len()),
            attacks@.map_values(|a: Attack| a@) == drain_attacks(
                adv.take(adv.len() - ad@.len()),
            ),
        decreases ad.len(),
    {
        let ghost k = adv.len() - ad@.len();
        let ghost adpre = ad@;
        let pair = ad.remove(0);
        proof {
            assert(dict_view(adpre)[0] == adv[k]);
        }
        assert(pair.1@ == adv[k].1);
        if !pair.1.name.as_str().is_empty() {
            attacks.push(pair.1);
        }
        proof {
            assert(ad@ =~= adpre.subrange(1, adpre.len() as int));
            assert forall|t: int| 0 <= t < ad@.len() implies #[trigger] dict_view(ad@)[t]
                == adv.skip(k + 1)[t] by {
                assert(dict_view(ad@)[t] == (ad@[t].0@, ad@[t].1@));
                assert(ad@[t] == adpre[t + 1]);
                assert(dict_view(adpre)[t + 1] == (adpre[t + 1].0@, adpre[t + 1].1@));
                assert(dict_view(adpre)[t + 1] == adv.skip(k)[t + 1]);
                assert(adv.skip(k)[t + 1] == adv.skip(k + 1)[t]);
            }
            assert(dict_view(ad@) =~= adv.skip(k + 1));
            assert(adv.take(k + 1).drop_last() =~= adv.take(k));
            assert(adv.take(k + 1).last() == adv[k]);
            assert(attacks@.map_values(|a: Attack| a@) =~= drain_attacks(adv.take(k + 1)));
        }
    }
    assert(adv.take(adv.len() as int) =~= adv);
    // draining the spell list index
    let mut spell_lists: Vec<SpellList> = Vec::new();
    let mut sd = spell_dict;
    let ghost sdv = stv.spell_dict;
    assert(dict_view(sd@) =~= sdv.skip(0));
    while sd.len() > 0
        invariant
            sd@.len() <= sdv.len(),
            dict_view(sd@) =~= sdv.skip(sdv.len() - sd@.len()),
            spell_lists@.map_values(|l: SpellList| l@) == drain_spell_lists(
                sdv.take(sdv.len() - sd@.len()),
            ),
        decreases sd.len(),
    {
        let ghost k = sdv.len() - sd@.len();
        let ghost sdpre = sd@;
        let pair = sd.remove(0);
        proof {
            assert(dict_view(sdpre)[0] == sdv[k]);
        }
        assert(pair.1@ == sdv[k].1);
        if !pair.1.name.as_str().is_empty() {
            spell_lists.push(pair.1);
        }
        proof {
            assert(sd@ =~= sdpre.subrange(1, sdpre.len() as int));
            assert forall|t: int| 0 <= t < sd@.len() implies #[trigger] dict_view(sd@)[t]
                == sdv.skip(k + 1)[t] by {
                assert(dict_view(sd@)[t] == (sd@[t].0@, sd@[t].1@));
                assert(sd@[t] == sdpre[t + 1]);
                assert(dict_view(sdpre)[t + 1] == (sdpre[t + 1].0@, sdpre[t + 1].1@));
                assert(dict_view(sdpre)[t + 1] == sdv.skip(k)[t + 1]);
                assert(sdv.skip(k)[t + 1] == sdv.skip(k + 1)[t]);
            }
            assert(dict_view(sd@) =~= sdv.skip(k + 1));
            assert(sdv.take(k + 1).drop_last() =~= sdv.take(k));
            assert(sdv.take(k + 1).last() == sdv[k]);
            assert(spell_lists@.map_values(|l: SpellList| l@) =~= drain_spell_lists(
                sdv.take(k + 1),
            ));
        }
    }
    assert(sdv.take(sdv.len() as int) =~= sdv);
    let c = Character {
        char_name,
        classes: marked,
        background,
        damage_mults,
        race,
        alignment,
        xp,
        ability_scores,
        prof_bonus,
        saving_throws,
        skills,
        ac,
        passive_bonus,
        initiative,
        speed,
        hit_points,
        hit_dice,
        attacks,
        actions,
        resources,
        equipment,
        traits,
        features,
        other_profs,
        coins,
        spell_lists,
        spell_slots,
        char_img,
    };
    assert(c@ =~~= (SpecCharacter {
        char_name: char_name@,
        classes: mark_start(stv.classes, spec_start_key(stv.starting_class)),
        background: stv.background,
        damage_mults: stv.damage_mults,
        race: spec_race_translate(stv.race, dict_view(race_decoder@)),
        alignment: alignment@,
        xp: xp as int,
        ability_scores: stv.ability_scores,
        prof_bonus: stv.prof_bonus,
        saving_throws: stv.saving_throws,
        skills: stv.skills,
        ac: stv.ac,
        passive_bonus: stv.passive_bonus,
        initiative: stv.initiative,
        speed: stv.speed,
        hit_points: stv.hit_points,
        hit_dice: stv.hit_dice,
        attacks: drain_attacks(stv.attacks_dict),
        actions: stv.actions,
        resources: stv.resources,
        equipment: stv.equipment,
        traits: stv.traits,
        features: stv.features,
        other_profs: stv.other_profs,
        coins: stv.coins,
        spell_lists: drain_spell_lists(stv.spell_dict),
        spell_slots: stv.spell_slots,
        char_img: char_img@,
    }));
    c
}

impl Character {
    /// Resolves an ordered collection of property records, together with the
    /// creature's identity fields and a race-name lookup table, into the
    /// character sheet model.  Fails, without a partial result, exactly when
    /// a mandatory identity field (name, alignment, experience) is absent.
    pub fn new(
        char_header: CreatureHeader,
        records: Vec<PropRecord>,
        race_decoder: Vec<(String, String)>,
    ) -> (r: Result<Character, ResolveError>)
        ensures
            (match r {
                Ok(c) => spec_resolve(char_header@, recs_view(records@), dict_view(race_decoder@))
                    == Ok::<SpecCharacter, ResolveError>(c@),
                Err(e) => spec_resolve(char_header@, recs_view(records@), dict_view(race_decoder@))
                    == Err::<SpecCharacter, ResolveError>(e),
            }),
            r is Ok <==> (char_header@.name is Some && char_header@.alignment is Some
                && char_header@.xp is Some),
    {
        let ghost hv = char_header@;
        let CreatureHeader { name, alignment, xp, avatar_picture, picture } = char_header;
        let char_name = match name {
            Some(n) => n,
            None => {
                return Err(ResolveError::MissingName);
            },
        };
        let alignment = match alignment {
            Some(a) => a,
            None => {
                return Err(ResolveError::MissingAlignment);
            },
        };
        let xp = match xp {
            Some(x) => x,
            None => {
                return Err(ResolveError::MissingXp);
            },
        };
        let char_img = match avatar_picture {
            Some(u) => u,
            None => match picture {
                Some(u) => u,
                None => String::new(),
            },
        };
        let ghost rv = recs_view(records@);
        let sorted = sort_records(records);
        let ghost sv = spec_sort_recs(rv);
        let mut st = ResolveState::init();
        let mut i: usize = 0;
        assert(sv.take(0) =~= Seq::<SpecRecord>::empty());
        while i < sorted.len()
            invariant
                0 <= i <= sorted.len(),
                sv == recs_view(sorted@),
                sv.len() == sorted@.len(),
                st@ == spec_scan(spec_init(), sv.take(i as int)),
            decreases sorted.len() - i,
        {
            assert(sv[i as int] == sorted@[i as int]@);
            apply_record(&mut st, &sorted[i]);
            proof {
                lemma_scan_snoc(spec_init(), sv.take(i as int), sv[i as int]);
                assert(sv.take(i as int + 1) =~= sv.take(i as int).push(sv[i as int]));
            }
            i += 1;
        }
        assert(sv.take(sorted@.len() as int) =~= sv);
        let c = finalize_state(st, char_name, alignment, xp, char_img, &race_decoder);
        proof {
            assert(c@ =~~= spec_finalize(hv, spec_scan(spec_init(), sv), dict_view(
                race_decoder@,
            )));
        }
        Ok(c)
    }
}

} // verus!
