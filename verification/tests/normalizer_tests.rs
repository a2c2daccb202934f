use dicecloud_sheet_printer::bns_translator;
use dicecloud_sheet_printer::get_char_url;
use dicecloud_sheet_printer::holding_structs::{
    AbilityScore, ActionType, AtkBonus, Attack, Proficiency, Spell, SpellPrep,
    damage_type_abreviator,
};
use dicecloud_sheet_printer::resolver::{race_translator, save_proficiency, skill_proficiency};

#[test]
fn normalize_empty_race_stays_empty() {
    assert_eq!(race_translator(String::new(), &vec![]), "");
}

#[test]
fn normalize_expands_concatenated_words() {
    assert_eq!(race_translator("HalfOrc".to_string(), &vec![]), "Half Orc");
}

#[test]
fn normalize_keeps_already_spaced_names() {
    assert_eq!(race_translator("Hill Dwarf".to_string(), &vec![]), "Hill Dwarf");
}

#[test]
fn normalize_prefers_the_lookup_table() {
    let lookup = vec![("Tiefling".to_string(), "Feral Tiefling".to_string())];
    assert_eq!(race_translator("Tiefling".to_string(), &lookup), "Feral Tiefling");
}

#[test]
fn normalize_uppercases_the_first_letter() {
    assert_eq!(race_translator("halfOrc".to_string(), &vec![]), "Half Orc");
}

#[test]
fn abbreviate_keeps_short_types() {
    assert_eq!(damage_type_abreviator("fire".to_string()), "fire");
}

#[test]
fn abbreviate_special_cases_piercing() {
    assert_eq!(damage_type_abreviator("piercing".to_string()), "pir.");
}

#[test]
fn abbreviate_truncates_long_types() {
    assert_eq!(damage_type_abreviator("radiant".to_string()), "rad.");
}

#[test]
fn abbreviate_keeps_four_character_types() {
    assert_eq!(damage_type_abreviator("acid".to_string()), "acid");
}

#[test]
fn save_proficiency_classifies_exact_values() {
    assert_eq!(save_proficiency(Some(100)), Proficiency::Proficient);
    assert_eq!(save_proficiency(Some(200)), Proficiency::Expert);
    assert_eq!(save_proficiency(Some(50)), Proficiency::Half);
    assert_eq!(save_proficiency(Some(49)), Proficiency::Half);
    assert_eq!(save_proficiency(Some(48)), Proficiency::NotProficient);
    assert_eq!(save_proficiency(Some(75)), Proficiency::NotProficient);
    assert_eq!(save_proficiency(None), Proficiency::NotProficient);
}

#[test]
fn skill_proficiency_uses_the_tolerance_band() {
    assert_eq!(skill_proficiency(Some(100)), Proficiency::Proficient);
    assert_eq!(skill_proficiency(Some(200)), Proficiency::Expert);
    assert_eq!(skill_proficiency(Some(48)), Proficiency::Half);
    assert_eq!(skill_proficiency(Some(50)), Proficiency::Half);
    assert_eq!(skill_proficiency(Some(52)), Proficiency::Half);
    assert_eq!(skill_proficiency(Some(53)), Proficiency::NotProficient);
    assert_eq!(skill_proficiency(Some(47)), Proficiency::NotProficient);
    assert_eq!(skill_proficiency(None), Proficiency::NotProficient);
}

#[test]
fn bonus_translation_signs_values() {
    assert_eq!(bns_translator(3), "+3");
    assert_eq!(bns_translator(0), "+0");
    assert_eq!(bns_translator(-2), "-2");
    assert_eq!(bns_translator(12), "+12");
}

#[test]
fn character_url_trims_the_identifier() {
    assert_eq!(
        get_char_url(" abc123\n".to_string()),
        "https://beta.dicecloud.com/api/creature/abc123"
    );
}

#[test]
fn ability_modifier_is_floored() {
    let sten = AbilityScore::new("Strength".to_string(), 14);
    let con = AbilityScore::new("Constitution".to_string(), 11);
    let dex = AbilityScore::new("Dexterity".to_string(), 9);
    assert_eq!(sten.modifier(), 2);
    assert_eq!(con.modifier(), 0);
    assert_eq!(dex.modifier(), -1);
}

#[test]
fn attack_damage_terms_join_with_spaces() {
    let mut atk1 = Attack::new(
        "test".to_string(),
        AtkBonus::Bonus(0),
        "1d8+3 [fire]".to_string(),
    );
    let mut atk2 = Attack::new("test".to_string(), AtkBonus::Bonus(0), String::new());
    atk1.add_dmg("4 [pir]".to_string());
    atk2.add_dmg("4 [pir]".to_string());
    assert_eq!(atk1.damage(), "1d8+3 [fire] 4 [pir]");
    assert_eq!(atk2.damage(), "4 [pir]");
}

#[test]
fn attack_bonus_renders_as_text() {
    assert_eq!(
        Attack::new("a".to_string(), AtkBonus::Bonus(5), String::new()).bonus_as_string(),
        "+5"
    );
    assert_eq!(
        Attack::new("a".to_string(), AtkBonus::Bonus(0), String::new()).bonus_as_string(),
        "0"
    );
    assert_eq!(
        Attack::new("a".to_string(), AtkBonus::Bonus(-1), String::new()).bonus_as_string(),
        "-1"
    );
    assert_eq!(
        Attack::new("a".to_string(), AtkBonus::DC(13), String::new()).bonus_as_string(),
        "DC 13"
    );
}

#[test]
fn spell_component_letters_keep_their_order() {
    let spl = Spell::new(
        "Mage Armor".to_string(),
        1,
        ActionType::Action,
        "8 hr".to_string(),
        "Abjuration".to_string(),
        "Touch".to_string(),
        (true, true, false, false),
        "a piece of cured leather".to_string(),
    );
    assert_eq!(spl.vscr_to_string(), "vs");
    let all = Spell::new(
        "x".to_string(),
        0,
        ActionType::Action,
        String::new(),
        String::new(),
        String::new(),
        (true, true, true, true),
        String::new(),
    );
    assert_eq!(all.vscr_to_string(), "vscr");
}

#[test]
fn spell_preparation_can_be_toggled() {
    let mut spl = Spell::new(
        "Bless".to_string(),
        1,
        ActionType::Action,
        String::new(),
        String::new(),
        String::new(),
        (true, false, false, false),
        String::new(),
    );
    assert_eq!(spl.prepd(), SpellPrep::NotPrepared);
    spl.prepare();
    assert_eq!(spl.prepd(), SpellPrep::Prepared);
    spl.always_prepare();
    assert_eq!(spl.prepd(), SpellPrep::AlwaysPrepared);
    spl.unprepare();
    assert_eq!(spl.prepd(), SpellPrep::NotPrepared);
}
