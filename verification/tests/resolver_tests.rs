use dicecloud_sheet_printer::holding_structs::{
    ActionType, AtkBonus, Character, DamageMult, Proficiency, SpellPrep,
};
use dicecloud_sheet_printer::records::{
    ActionKind, AttributeKind, CreatureHeader, PropRecord, RecordData, ResolveError, SkillKind,
};

fn rec(id: &str, order: i64, name: &str, data: RecordData) -> PropRecord {
    PropRecord {
        id: id.to_string(),
        order,
        removed: false,
        inactive: false,
        deactivated_by_toggle: false,
        name: name.to_string(),
        tags: vec![],
        parent_id: None,
        ancestors: vec![],
        data,
    }
}

fn attribute(kind: AttributeKind, total: i64) -> RecordData {
    RecordData::Attribute {
        kind,
        total,
        value: 0,
        spell_slot_level: 0,
        hit_dice_size: String::new(),
    }
}

fn header() -> CreatureHeader {
    CreatureHeader {
        name: Some("Tester".to_string()),
        alignment: Some("Neutral Good".to_string()),
        xp: Some(900),
        avatar_picture: None,
        picture: None,
    }
}

fn spell_list(id: &str, order: i64, name: &str) -> PropRecord {
    rec(
        id,
        order,
        name,
        RecordData::SpellList { max_prepared: 4, dc: 13, attack_bonus: 5 },
    )
}

fn plain_spell(order: i64, name: &str, level: i64, ancestors: Vec<String>) -> PropRecord {
    let mut r = rec(
        "sp",
        order,
        name,
        RecordData::Spell {
            level,
            action_kind_text: "action".to_string(),
            casting_time: None,
            duration: "Up To 1 Minute".to_string(),
            school: "Evocation".to_string(),
            range: "60 feet".to_string(),
            verbal: true,
            somatic: false,
            concentration: true,
            ritual: false,
            material: String::new(),
            always_prepared: false,
            prepared: true,
        },
    );
    r.ancestors = ancestors;
    r
}

#[test]
fn missing_name_is_fatal() {
    let mut h = header();
    h.name = None;
    assert_eq!(
        Character::new(h, vec![], vec![]).unwrap_err(),
        ResolveError::MissingName
    );
}

#[test]
fn missing_alignment_is_fatal() {
    let mut h = header();
    h.alignment = None;
    assert_eq!(
        Character::new(h, vec![], vec![]).unwrap_err(),
        ResolveError::MissingAlignment
    );
}

#[test]
fn missing_xp_is_fatal() {
    let mut h = header();
    h.xp = None;
    assert_eq!(Character::new(h, vec![], vec![]).unwrap_err(), ResolveError::MissingXp);
}

#[test]
fn empty_records_give_an_empty_model() {
    let c = Character::new(header(), vec![], vec![]).unwrap();
    assert_eq!(c.char_name, "Tester");
    assert_eq!(c.alignment, "Neutral Good");
    assert_eq!(c.xp, 900);
    assert!(c.ability_scores.is_empty());
    assert!(c.attacks.is_empty());
    assert!(c.spell_lists.is_empty());
    assert_eq!(c.spell_slots, [0i64; 9]);
    assert_eq!(c.race, "");
}

#[test]
fn scalar_stats_are_matched_by_name() {
    let recs = vec![
        rec("a", 1, "Strength", attribute(AttributeKind::Ability, 14)),
        rec("b", 2, "Armor Class", attribute(AttributeKind::Other, 17)),
        rec("c", 3, "Speed", attribute(AttributeKind::Other, 30)),
        rec("d", 4, "Hit Points", attribute(AttributeKind::Other, 22)),
        rec("e", 5, "Proficiency Bonus", attribute(AttributeKind::Other, 3)),
        rec(
            "f",
            6,
            "Initiative",
            RecordData::Skill { kind: SkillKind::Other, value: 2, proficiency: None, passive_bonus: 0 },
        ),
    ];
    let c = Character::new(header(), recs, vec![]).unwrap();
    assert_eq!(c.ability_scores.len(), 1);
    assert_eq!(c.ability_scores[0].name, "Strength");
    assert_eq!(c.ability_scores[0].score, 14);
    assert_eq!(c.ac, 17);
    assert_eq!(c.speed, 30);
    assert_eq!(c.hit_points, 22);
    assert_eq!(c.prof_bonus, 3);
    assert_eq!(c.initiative, 2);
}

#[test]
fn damage_accumulates_around_its_action() {
    let recs = vec![
        {
            let mut r = rec(
                "dmg1",
                1,
                "",
                RecordData::Damage {
                    calculation: "1d6".to_string(),
                    bonus: 3,
                    damage_type: "fire".to_string(),
                },
            );
            r.parent_id = Some("atk1".to_string());
            r
        },
        rec(
            "atk1",
            2,
            "Shortsword",
            RecordData::Action { kind: ActionKind::Attack, attack_roll: 5, uses: None },
        ),
        {
            let mut r = rec(
                "dmg2",
                3,
                "",
                RecordData::Damage {
                    calculation: "2d4".to_string(),
                    bonus: -1,
                    damage_type: "piercing".to_string(),
                },
            );
            r.parent_id = Some("atk1".to_string());
            r
        },
    ];
    let c = Character::new(header(), recs, vec![]).unwrap();
    assert_eq!(c.attacks.len(), 1);
    assert_eq!(c.attacks[0].name, "Shortsword");
    assert_eq!(c.attacks[0].bonus, AtkBonus::Bonus(5));
    assert_eq!(c.attacks[0].damage, "1d6+3[fire] 2d4-1[pir.]");
}

#[test]
fn orphan_damage_never_becomes_an_attack() {
    let recs = vec![{
        let mut r = rec(
            "dmg",
            1,
            "",
            RecordData::Damage {
                calculation: "1d6".to_string(),
                bonus: 0,
                damage_type: "cold".to_string(),
            },
        );
        r.parent_id = Some("nobody".to_string());
        r
    }];
    let c = Character::new(header(), recs, vec![]).unwrap();
    assert!(c.attacks.is_empty());
}

#[test]
fn permutations_with_distinct_orders_resolve_identically() {
    let build = |shuffled: bool| {
        let a = rec("a", 10, "Wizard", RecordData::Class { level: 3 });
        let b = rec(
            "atk",
            20,
            "Dagger",
            RecordData::Action { kind: ActionKind::Attack, attack_roll: 4, uses: None },
        );
        let mut d = rec(
            "dmg",
            30,
            "",
            RecordData::Damage {
                calculation: "1d4".to_string(),
                bonus: 2,
                damage_type: "piercing".to_string(),
            },
        );
        d.parent_id = Some("atk".to_string());
        let e = rec("str", 40, "Strength", attribute(AttributeKind::Ability, 8));
        let recs = if shuffled {
            vec![d, e, b, a]
        } else {
            vec![a, b, d, e]
        };
        Character::new(header(), recs, vec![]).unwrap()
    };
    let c1 = build(false);
    let c2 = build(true);
    assert_eq!(c1.classes, c2.classes);
    assert_eq!(c1.attacks, c2.attacks);
    assert_eq!(c1.ability_scores, c2.ability_scores);
    assert_eq!(c1.skills, c2.skills);
    assert_eq!(c1.spell_lists, c2.spell_lists);
    assert_eq!(c1.coins, c2.coins);
    assert_eq!(c1.race, c2.race);
}

#[test]
fn removed_records_contribute_nothing() {
    let mut gone = rec("x", 1, "Ghost Class", RecordData::Class { level: 9 });
    gone.removed = true;
    let mut gone_list = spell_list("ls", 2, "Ghost List");
    gone_list.removed = true;
    let recs = vec![
        gone,
        gone_list,
        plain_spell(3, "Fire Bolt", 0, vec!["ls".to_string()]),
        rec("y", 4, "Fighter", RecordData::Class { level: 2 }),
    ];
    let c = Character::new(header(), recs, vec![]).unwrap();
    assert_eq!(c.classes.len(), 1);
    assert_eq!(c.classes[0].name, "Fighter");
    // the removed spell list never entered the index, so the spell was dropped
    assert!(c.spell_lists.is_empty());
}

#[test]
fn spells_bind_to_the_nearest_ancestor() {
    let recs = vec![
        spell_list("lsA", 1, "Wizard"),
        spell_list("lsB", 2, "Cleric"),
        plain_spell(3, "Shield", 1, vec!["lsA".to_string(), "lsB".to_string()]),
    ];
    let c = Character::new(header(), recs, vec![]).unwrap();
    assert_eq!(c.spell_lists.len(), 2);
    let wizard = c.spell_lists.iter().find(|l| l.name == "Wizard").unwrap();
    let cleric = c.spell_lists.iter().find(|l| l.name == "Cleric").unwrap();
    assert_eq!(wizard.levels.len(), 1);
    assert_eq!(wizard.levels[0].level, 1);
    assert_eq!(wizard.levels[0].spells[0].name, "Shield");
    assert!(cleric.levels.is_empty());
}

#[test]
fn spell_fields_are_normalized() {
    let recs = vec![
        spell_list("ls", 1, "Wizard"),
        plain_spell(2, "Hold Person", 2, vec!["ls".to_string()]),
    ];
    let c = Character::new(header(), recs, vec![]).unwrap();
    let ls = &c.spell_lists[0];
    assert_eq!(ls.save_dc, 13);
    assert_eq!(ls.atk_bonus, 5);
    assert_eq!(ls.max_prepared, 4);
    assert_eq!(ls.max_lvl(), 2);
    let sp = &ls.levels[0].spells[0];
    assert_eq!(sp.casting_time, ActionType::Action);
    assert_eq!(sp.duration, "1 min");
    assert_eq!(sp.range, "60 ft");
    assert_eq!(sp.prepd, SpellPrep::Prepared);
    assert_eq!(sp.vscr(), (true, false, true, false));
}

#[test]
fn long_casting_times_are_shortened() {
    let mut odd = plain_spell(2, "Ritual", 1, vec!["ls".to_string()]);
    if let RecordData::Spell { action_kind_text, casting_time, .. } = &mut odd.data {
        *action_kind_text = "other".to_string();
        *casting_time = Some("1 hour".to_string());
    }
    let recs = vec![spell_list("ls", 1, "Wizard"), odd];
    let c = Character::new(header(), recs, vec![]).unwrap();
    let sp = &c.spell_lists[0].levels[0].spells[0];
    assert_eq!(sp.casting_time, ActionType::Long("1 hr".to_string()));
}

#[test]
fn coin_items_fill_the_purse_case_insensitively() {
    let recs = vec![
        rec(
            "g",
            1,
            "Gold Pieces",
            RecordData::Item { quantity: 10, plural: None, requires_attunement: false },
        ),
        rec(
            "c",
            2,
            "copper piece",
            RecordData::Item { quantity: 25, plural: None, requires_attunement: false },
        ),
        rec(
            "r",
            3,
            "Rope",
            RecordData::Item {
                quantity: 2,
                plural: Some("Ropes".to_string()),
                requires_attunement: true,
            },
        ),
    ];
    let c = Character::new(header(), recs, vec![]).unwrap();
    assert_eq!(c.coins, (25, 0, 0, 10, 0));
    assert_eq!(c.equipment.len(), 1);
    assert_eq!(c.equipment[0].name, "Rope");
    assert_eq!(c.equipment[0].plural_name, "Ropes");
    assert!(c.equipment[0].requires_attunement);
}

#[test]
fn spell_slots_accumulate_by_level() {
    let slot = |id: &str, order: i64, lvl: i64, n: i64| {
        rec(
            id,
            order,
            "Slots",
            RecordData::Attribute {
                kind: AttributeKind::SpellSlot,
                total: 0,
                value: n,
                spell_slot_level: lvl,
                hit_dice_size: String::new(),
            },
        )
    };
    let recs = vec![slot("s1", 1, 2, 1), slot("s2", 2, 2, 2), slot("s3", 3, 9, 1)];
    let c = Character::new(header(), recs, vec![]).unwrap();
    assert_eq!(c.spell_slots, [0, 3, 0, 0, 0, 0, 0, 0, 1]);
}

#[test]
fn race_comes_from_constants_and_is_expanded() {
    let recs = vec![rec(
        "k",
        1,
        "",
        RecordData::Constant {
            variable_name: "race".to_string(),
            calculation: "\"halfOrc\"".to_string(),
        },
    )];
    let c = Character::new(header(), recs, vec![]).unwrap();
    assert_eq!(c.race, "Half Orc");
}

#[test]
fn subrace_tags_prefix_the_race() {
    let mut base = rec("r1", 1, "Dwarf", RecordData::Other);
    base.tags = vec!["race".to_string()];
    let mut sub = rec("r2", 2, "Hill Dwarf", RecordData::Other);
    sub.tags = vec!["subrace".to_string()];
    let c = Character::new(header(), vec![base, sub], vec![]).unwrap();
    assert_eq!(c.race, "Hill Dwarf");
}

#[test]
fn the_starting_class_is_marked_after_the_scan() {
    let recs = vec![
        rec(
            "k",
            1,
            "",
            RecordData::Constant {
                variable_name: "startingClass".to_string(),
                calculation: " \"Fighter\" ".to_string(),
            },
        ),
        rec("c1", 2, "Rogue", RecordData::Class { level: 5 }),
        rec("c2", 3, "fighter", RecordData::Class { level: 1 }),
    ];
    let c = Character::new(header(), recs, vec![]).unwrap();
    assert_eq!(c.classes.len(), 2);
    assert!(!c.classes[0].start_class);
    assert!(c.classes[1].start_class);
}

#[test]
fn hit_dice_parse_their_size() {
    let dice = |id: &str, order: i64, total: i64, size: &str| {
        rec(
            id,
            order,
            "Hit Dice",
            RecordData::Attribute {
                kind: AttributeKind::HitDice,
                total,
                value: 0,
                spell_slot_level: 0,
                hit_dice_size: size.to_string(),
            },
        )
    };
    let recs = vec![
        dice("h1", 1, 2, "1d8"),
        dice("h2", 2, 1, "d12"),
        dice("h3", 3, 3, "weird"),
        dice("h4", 4, 0, "1d6"),
    ];
    let c = Character::new(header(), recs, vec![]).unwrap();
    assert_eq!(c.hit_dice.len(), 2);
    assert_eq!((c.hit_dice[0].size, c.hit_dice[0].num), (8, 2));
    assert_eq!((c.hit_dice[1].size, c.hit_dice[1].num), (12, 1));
}

#[test]
fn damage_multipliers_classify_by_value() {
    let mult = |id: &str, order: i64, v: i64, types: Vec<&str>| {
        rec(
            id,
            order,
            "",
            RecordData::DamageMultiplier {
                value_hundredths: v,
                damage_types: types.into_iter().map(|s| s.to_string()).collect(),
            },
        )
    };
    let mut inactive = mult("m4", 4, 0, vec!["psychic"]);
    inactive.inactive = true;
    let recs = vec![
        mult("m1", 1, 0, vec!["poison"]),
        mult("m2", 2, 50, vec!["fire", "cold"]),
        mult("m3", 3, 200, vec!["radiant"]),
        mult("m5", 5, 75, vec!["acid"]),
        inactive,
    ];
    let c = Character::new(header(), recs, vec![]).unwrap();
    assert_eq!(
        c.damage_mults,
        vec![
            DamageMult::Immune("poison".to_string()),
            DamageMult::Resist("fire".to_string()),
            DamageMult::Resist("cold".to_string()),
            DamageMult::Vuln("radiant".to_string()),
        ]
    );
}

#[test]
fn actions_keep_their_kind_and_uses() {
    let act = |id: &str, order: i64, name: &str, kind: ActionKind, uses: Option<i64>| {
        rec(id, order, name, RecordData::Action { kind, attack_roll: 0, uses })
    };
    let mut sleeping = act("a4", 4, "Asleep", ActionKind::Action, None);
    sleeping.inactive = true;
    let recs = vec![
        act("a1", 1, "Dash", ActionKind::Action, None),
        act("a2", 2, "Parry", ActionKind::Reaction, Some(3)),
        act("a3", 3, "Lobby", ActionKind::Event, None),
        sleeping,
        act("a5", 5, "Rest", ActionKind::Long, Some(1)),
    ];
    let c = Character::new(header(), recs, vec![]).unwrap();
    assert_eq!(c.actions.len(), 3);
    assert_eq!(c.actions[0].name, "Dash");
    assert_eq!(c.actions[0].uses, -1);
    assert_eq!(c.actions[1].typ, ActionType::Reaction);
    assert_eq!(c.actions[1].uses, 3);
    assert_eq!(c.actions[2].typ, ActionType::Long("lng".to_string()));
}

#[test]
fn skills_and_saves_carry_their_ranks() {
    let skill = |id: &str, order: i64, name: &str, kind: SkillKind, v: i64, p: Option<i64>| {
        rec(
            id,
            order,
            name,
            RecordData::Skill { kind, value: v, proficiency: p, passive_bonus: 5 },
        )
    };
    let recs = vec![
        skill("s1", 1, "Strength Save", SkillKind::Save, 2, Some(100)),
        skill("s2", 2, "Perception", SkillKind::Skill, 4, Some(200)),
        skill("s3", 3, "Stealth", SkillKind::Skill, 1, Some(50)),
        skill("s4", 4, "Shields", SkillKind::Armor, 0, None),
        skill("s5", 5, "Common", SkillKind::Language, 0, None),
    ];
    let c = Character::new(header(), recs, vec![]).unwrap();
    assert_eq!(c.saving_throws.len(), 1);
    assert_eq!(c.saving_throws[0].prof_rank, Proficiency::Proficient);
    assert_eq!(c.skills.len(), 2);
    assert_eq!(c.skills[0].prof_rank, Proficiency::Expert);
    assert_eq!(c.skills[1].prof_rank, Proficiency::Half);
    assert_eq!(c.passive_bonus, 5);
    assert_eq!(c.other_profs.0, vec!["Shields".to_string()]);
    assert_eq!(c.other_profs.2, vec!["Common".to_string()]);
}

#[test]
fn notes_fill_the_role_play_traits() {
    let note = |id: &str, order: i64, name: &str, text: &str| {
        rec(id, order, name, RecordData::Note { summary_text: text.to_string() })
    };
    let recs = vec![
        note("n1", 1, "Personality Traits", "curious"),
        note("n2", 2, "Ideals", "freedom"),
        note("n3", 3, "Bonds", "the crew"),
        note("n4", 4, "Flaws", "greedy"),
    ];
    let c = Character::new(header(), recs, vec![]).unwrap();
    assert_eq!(
        c.traits,
        (
            "curious".to_string(),
            "freedom".to_string(),
            "the crew".to_string(),
            "greedy".to_string()
        )
    );
}

#[test]
fn background_tag_and_feature_combine() {
    let mut bg = rec("b1", 1, "Sailor", RecordData::Other);
    bg.tags = vec!["background".to_string()];
    let mut feat = rec(
        "b2",
        2,
        "Ship's Passage",
        RecordData::Feature { summary: "free rides".to_string() },
    );
    feat.tags = vec!["backgroundFeature".to_string()];
    let plain_feat = rec("b3", 3, "Darkvision", RecordData::Feature { summary: String::new() });
    let c = Character::new(header(), vec![bg, feat, plain_feat], vec![]).unwrap();
    assert_eq!(c.background.name, "Sailor");
    assert_eq!(c.background.background_feature.name, "Ship's Passage");
    assert_eq!(c.background.background_feature.description, "free rides");
    assert_eq!(c.features, vec!["Darkvision".to_string()]);
}

#[test]
fn resources_keep_their_totals() {
    let recs = vec![rec(
        "r",
        1,
        "Ki Points",
        RecordData::Attribute {
            kind: AttributeKind::Resource,
            total: 5,
            value: 0,
            spell_slot_level: 0,
            hit_dice_size: String::new(),
        },
    )];
    let c = Character::new(header(), recs, vec![]).unwrap();
    assert_eq!(c.resources.len(), 1);
    assert_eq!(c.resources[0].name, "Ki Points");
    assert_eq!(c.resources[0].total, 5);
}

#[test]
fn equal_orders_keep_the_arrival_order() {
    let recs = vec![
        rec("f1", 7, "First", RecordData::Feature { summary: String::new() }),
        rec("f2", 7, "Second", RecordData::Feature { summary: String::new() }),
    ];
    let c = Character::new(header(), recs, vec![]).unwrap();
    assert_eq!(c.features, vec!["First".to_string(), "Second".to_string()]);
}

#[test]
fn the_portrait_prefers_the_avatar() {
    let mut h = header();
    h.avatar_picture = Some("avatar.png".to_string());
    h.picture = Some("other.png".to_string());
    let c = Character::new(h, vec![], vec![]).unwrap();
    assert_eq!(c.char_img, "avatar.png");
    let mut h2 = header();
    h2.picture = Some("other.png".to_string());
    let c2 = Character::new(h2, vec![], vec![]).unwrap();
    assert_eq!(c2.char_img, "other.png");
}

#[test]
fn toggled_off_spells_are_not_collected() {
    let mut off = plain_spell(2, "Shield", 1, vec!["ls".to_string()]);
    off.deactivated_by_toggle = true;
    let recs = vec![spell_list("ls", 1, "Wizard"), off];
    let c = Character::new(header(), recs, vec![]).unwrap();
    assert_eq!(c.spell_lists.len(), 1);
    assert!(c.spell_lists[0].levels.is_empty());
}

#[test]
fn spell_ranges_drop_the_sniper_formula() {
    let mut far = plain_spell(2, "Fire Bolt", 0, vec!["ls".to_string()]);
    if let RecordData::Spell { range, .. } = &mut far.data {
        *range = "120 feet * (1 + spellSniper)".to_string();
    }
    let recs = vec![spell_list("ls", 1, "Wizard"), far];
    let c = Character::new(header(), recs, vec![]).unwrap();
    assert_eq!(c.spell_lists[0].levels[0].spells[0].range, "120 ft");
}

#[test]
fn a_stray_proficiency_bonus_name_is_consumed_without_effect() {
    let mut odd = rec("x", 1, "Proficiency Bonus", RecordData::Other);
    odd.tags = vec!["background".to_string()];
    let c = Character::new(header(), vec![odd], vec![]).unwrap();
    // the name arm consumes the record before the background tag is looked at
    assert_eq!(c.prof_bonus, 0);
    assert_eq!(c.background.name, "");
}

#[test]
fn a_subrace_constant_overrides_the_race_constant() {
    let konst = |id: &str, order: i64, vn: &str, calc: &str| {
        rec(
            id,
            order,
            "",
            RecordData::Constant {
                variable_name: vn.to_string(),
                calculation: calc.to_string(),
            },
        )
    };
    let recs = vec![
        konst("k1", 1, "race", "\"Elf\""),
        konst("k2", 2, "subRace", "\"High Elf\""),
    ];
    let c = Character::new(header(), recs, vec![]).unwrap();
    assert_eq!(c.race, "High Elf");
    // a race-tagged record later cannot displace it
    let mut tagged = rec("r", 3, "Gnome", RecordData::Other);
    tagged.tags = vec!["race".to_string()];
    let recs2 = vec![
        konst("k1", 1, "race", "\"Elf\""),
        konst("k2", 2, "subRace", "\"High Elf\""),
        tagged,
    ];
    let c2 = Character::new(header(), recs2, vec![]).unwrap();
    assert_eq!(c2.race, "High Elf");
}
