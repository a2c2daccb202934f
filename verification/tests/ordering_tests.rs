use dicecloud_sheet_printer::holding_structs::{
    class_le, item_le, skill_le, spell_list_le, Class, Item, Proficiency, Skill, SpellLevel,
    SpellList,
};

#[test]
fn skills_order_by_name_then_rank_then_bonus() {
    let a = Skill::new("Acrobatics".to_string(), 5, Proficiency::NotProficient);
    let s = Skill::new("Stealth".to_string(), 1, Proficiency::Expert);
    assert!(skill_le(&a, &s));
    assert!(!skill_le(&s, &a));
    let s_low = Skill::new("Stealth".to_string(), 9, Proficiency::NotProficient);
    assert!(skill_le(&s_low, &s));
    let s_small = Skill::new("Stealth".to_string(), 0, Proficiency::Expert);
    assert!(skill_le(&s_small, &s));
}

#[test]
fn classes_order_starting_first_then_level_descending() {
    let mut fighter = Class::new("Fighter".to_string(), 1);
    fighter.start_class = true;
    let rogue = Class::new("Rogue".to_string(), 9);
    assert!(class_le(&fighter, &rogue));
    assert!(!class_le(&rogue, &fighter));
    let wizard = Class::new("Wizard".to_string(), 3);
    let cleric = Class::new("Cleric".to_string(), 2);
    assert!(class_le(&wizard, &cleric));
    let bard = Class::new("Bard".to_string(), 2);
    assert!(class_le(&bard, &cleric));
}

#[test]
fn items_order_by_name_then_quantity() {
    let rope = Item::new(1, "Rope".to_string(), "Ropes".to_string());
    let torch = Item::new(5, "Torch".to_string(), "Torches".to_string());
    assert!(item_le(&rope, &torch));
    let more_rope = Item::new(3, "Rope".to_string(), "Ropes".to_string());
    assert!(item_le(&rope, &more_rope));
    assert!(!item_le(&more_rope, &rope));
}

#[test]
fn spell_lists_order_by_cap_then_level_then_name() {
    let big = SpellList::new(vec![], "Wizard".to_string(), 13, 5, 9);
    let small = SpellList::new(vec![], "Ranger".to_string(), 12, 4, 3);
    assert!(spell_list_le(&big, &small));
    assert!(!spell_list_le(&small, &big));
    let deep = SpellList::new(
        vec![SpellLevel::new(5, vec![])],
        "Cleric".to_string(),
        13,
        5,
        3,
    );
    assert!(spell_list_le(&deep, &small));
    assert_eq!(deep.max_lvl(), 5);
    assert_eq!(small.max_lvl(), 0);
}
