use wizard_survivors::damage_numbers::{
    format_damage_number, number_style, push_decimal, DamageIcon, DamageType, NumberStyle,
};

#[test]
fn small_amounts_in_full() {
    assert_eq!(format_damage_number(0), "0");
    assert_eq!(format_damage_number(7), "7");
    assert_eq!(format_damage_number(999), "999");
    assert_eq!(format_damage_number(-5), "-5");
}

#[test]
fn thousands_are_shortened() {
    assert_eq!(format_damage_number(1_000), "1k");
    assert_eq!(format_damage_number(1_500), "1k");
    assert_eq!(format_damage_number(999_999), "999k");
    assert_eq!(format_damage_number(-1_500), "-1k");
}

#[test]
fn millions_are_shortened() {
    assert_eq!(format_damage_number(1_000_000), "1M");
    assert_eq!(format_damage_number(2_500_000), "2M");
    assert_eq!(format_damage_number(i32::MAX), "2147M");
    assert_eq!(format_damage_number(i32::MIN), "-2147M");
}

#[test]
fn decimal_digits_appended() {
    let mut s = String::from("x=");
    push_decimal(&mut s, 4_294_967_295);
    assert_eq!(s, "x=4294967295");
    let mut z = String::new();
    push_decimal(&mut z, 0);
    assert_eq!(z, "0");
}

#[test]
fn icons_per_damage_type() {
    assert_eq!(DamageType::Physical.icon(), None);
    assert_eq!(DamageType::Earth.icon(), None);
    assert_eq!(DamageType::Fire.icon(), Some(DamageIcon::Fire));
    assert_eq!(DamageType::Lightning.icon(), Some(DamageIcon::Lightning));
    assert_eq!(DamageType::Ice.icon(), Some(DamageIcon::Ice));
    assert_eq!(DamageType::Heal.icon(), Some(DamageIcon::Heart));
    assert_eq!(DamageType::Bleed.icon(), Some(DamageIcon::Blood));
}

#[test]
fn heal_wins_over_crit() {
    assert_eq!(number_style(DamageType::Heal, true), NumberStyle::Heal);
    assert_eq!(number_style(DamageType::Heal, false), NumberStyle::Heal);
    assert_eq!(number_style(DamageType::Fire, true), NumberStyle::Crit);
    assert_eq!(number_style(DamageType::Physical, false), NumberStyle::Normal);
}
