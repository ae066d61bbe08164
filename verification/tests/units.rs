use numfmt::{
    change_system, checked_power, get_auto_power, get_iec_power, get_si_power, magnitude_tiers,
    refine_power, resolve_unit, target_base, to_iec_power, to_si_power, unit_suffix,
    ConvertError, ScaleFactor, UnitFamily, UnitScale,
};

const LETTERS: [&str; 8] = ["K", "M", "G", "T", "P", "E", "Z", "Y"];

#[test]
fn si_suffix_of_every_tier_reads_back() {
    for (index, letter) in LETTERS.iter().enumerate() {
        let tier = 3 * (index as u32 + 1);
        let mut power = tier;
        let suffix = to_si_power(&10, &mut power);
        assert_eq!(suffix, letter.to_string());
        assert_eq!(power, tier);
        let mut base = 0;
        let mut read = 0;
        get_si_power(&mut base, &mut read, &suffix);
        assert_eq!((base, read), (10, tier));
    }
}

#[test]
fn iec_suffix_of_every_tier_reads_back() {
    for (index, letter) in LETTERS.iter().enumerate() {
        let tier = 10 * (index as u32 + 1);
        for with_i in [false, true] {
            let mut power = tier;
            let suffix = to_iec_power(with_i, &2, &mut power);
            let expected = if with_i {
                format!("{}i", letter)
            } else {
                letter.to_string()
            };
            assert_eq!(suffix, expected);
            assert_eq!(power, tier);
            let mut base = 0;
            let mut read = 0;
            get_iec_power(&mut base, &mut read, &suffix);
            assert_eq!((base, read), (2, tier));
        }
    }
}

#[test]
fn si_suffix_is_the_largest_tier_reached() {
    let cases = [
        (0, ""),
        (2, ""),
        (3, "K"),
        (4, "K"),
        (5, "K"),
        (6, "M"),
        (23, "Z"),
        (24, "Y"),
        (25, "Y"),
        (1000, "Y"),
        (u32::MAX, "Y"),
    ];
    for (power, expected) in cases {
        let mut p = power;
        assert_eq!(to_si_power(&10, &mut p), expected.to_string());
        assert_eq!(p, power);
    }
}

#[test]
fn iec_suffix_is_the_largest_tier_reached() {
    let cases = [
        (0, "", ""),
        (9, "", ""),
        (10, "K", "Ki"),
        (19, "K", "Ki"),
        (20, "M", "Mi"),
        (79, "Z", "Zi"),
        (80, "Y", "Yi"),
        (81, "Y", "Yi"),
        (u32::MAX, "Y", "Yi"),
    ];
    for (power, plain, with_i) in cases {
        let mut p = power;
        assert_eq!(to_iec_power(false, &2, &mut p), plain.to_string());
        assert_eq!(p, power);
        assert_eq!(to_iec_power(true, &2, &mut p), with_i.to_string());
    }
}

#[test]
fn suffix_below_first_tier_has_no_trailing_i() {
    let mut power = 9;
    assert_eq!(to_iec_power(true, &2, &mut power), "".to_string());
}

#[test]
fn si_suffix_from_binary_power() {
    let mut power = 10;
    assert_eq!(to_si_power(&2, &mut power), "K".to_string());
    assert_eq!(power, 3);
    let mut power = 19;
    assert_eq!(to_si_power(&2, &mut power), "K".to_string());
    assert_eq!(power, 3);
    let mut power = 80;
    assert_eq!(to_si_power(&2, &mut power), "Y".to_string());
    assert_eq!(power, 24);
    let mut power = 9;
    assert_eq!(to_si_power(&2, &mut power), "".to_string());
    assert_eq!(power, 0);
}

#[test]
fn iec_suffix_from_decimal_power() {
    let mut power = 3;
    assert_eq!(to_iec_power(false, &10, &mut power), "K".to_string());
    assert_eq!(power, 10);
    let mut power = 24;
    assert_eq!(to_iec_power(true, &10, &mut power), "Yi".to_string());
    assert_eq!(power, 80);
    let mut power = 2;
    assert_eq!(to_iec_power(true, &10, &mut power), "".to_string());
    assert_eq!(power, 6);
}

#[test]
fn si_power_of_unknown_suffix_is_zero() {
    for unit in ["", "k", "Ki", "KK", "B", "i", " K"] {
        let mut base = 7;
        let mut power = 7;
        get_si_power(&mut base, &mut power, &unit.to_string());
        assert_eq!((base, power), (10, 0), "unit {:?}", unit);
    }
}

#[test]
fn iec_power_takes_both_forms() {
    for (unit, expected) in [("K", 10), ("Ki", 10), ("Y", 80), ("Yi", 80), ("G", 30), ("Gi", 30)] {
        let mut base = 7;
        let mut power = 7;
        get_iec_power(&mut base, &mut power, &unit.to_string());
        assert_eq!((base, power), (2, expected), "unit {:?}", unit);
    }
    for unit in ["", "k", "Kj", "Kii", "i", "iK"] {
        let mut base = 7;
        let mut power = 7;
        get_iec_power(&mut base, &mut power, &unit.to_string());
        assert_eq!((base, power), (2, 0), "unit {:?}", unit);
    }
}

#[test]
fn auto_power_detects_the_family() {
    let mut base = 7;
    let mut power = 7;
    get_auto_power(&mut base, &mut power, &"M".to_string());
    assert_eq!((base, power), (10, 6));
    get_auto_power(&mut base, &mut power, &"Mi".to_string());
    assert_eq!((base, power), (2, 20));
    get_auto_power(&mut base, &mut power, &"".to_string());
    assert_eq!((base, power), (10, 0));
    base = 2;
    power = 50;
    get_auto_power(&mut base, &mut power, &"bytes".to_string());
    assert_eq!((base, power), (10, 0));
}

#[test]
fn resolve_gives_the_size_of_one_unit() {
    let k = "K".to_string();
    let si = resolve_unit(UnitFamily::Si, None, &k).unwrap();
    assert_eq!(si, UnitScale { base: 10, power: 3, by_magnitude: true });
    assert_eq!(checked_power(si.base, si.power as u64), Some(1000));
    let auto = resolve_unit(UnitFamily::Auto, None, &k).unwrap();
    assert_eq!(auto, si);
    let iec = resolve_unit(UnitFamily::Iec, None, &k).unwrap();
    assert_eq!(iec, UnitScale { base: 2, power: 10, by_magnitude: true });
    assert_eq!(checked_power(iec.base, iec.power as u64), Some(1024));
    let value = 1u128;
    assert_eq!(value * checked_power(si.base, si.power as u64).unwrap(), 1000);
    assert_eq!(value * checked_power(iec.base, iec.power as u64).unwrap(), 1024);
}

#[test]
fn resolve_under_each_family() {
    let ki = "Ki".to_string();
    let none = "".to_string();
    let odd = "x".to_string();
    assert_eq!(
        resolve_unit(UnitFamily::IecI, None, &ki),
        Ok(UnitScale { base: 2, power: 10, by_magnitude: true })
    );
    assert_eq!(
        resolve_unit(UnitFamily::Auto, None, &ki),
        Ok(UnitScale { base: 2, power: 10, by_magnitude: true })
    );
    assert_eq!(
        resolve_unit(UnitFamily::Si, None, &ki),
        Ok(UnitScale { base: 10, power: 0, by_magnitude: true })
    );
    assert_eq!(
        resolve_unit(UnitFamily::Auto, None, &none),
        Ok(UnitScale { base: 10, power: 0, by_magnitude: false })
    );
    assert_eq!(
        resolve_unit(UnitFamily::Auto, None, &odd),
        Ok(UnitScale { base: 10, power: 0, by_magnitude: false })
    );
    assert_eq!(
        resolve_unit(UnitFamily::Unscaled, None, &none),
        Ok(UnitScale { base: 10, power: 0, by_magnitude: false })
    );
}

#[test]
fn resolve_refuses_a_suffix_without_scaling() {
    assert_eq!(
        resolve_unit(UnitFamily::Unscaled, None, &"K".to_string()),
        Err(ConvertError::InvalidUnit)
    );
    assert_eq!(
        resolve_unit(UnitFamily::Unscaled, Some(UnitFamily::Si), &"x".to_string()),
        Err(ConvertError::InvalidUnit)
    );
}

#[test]
fn refine_moves_whole_tiers_into_the_power() {
    let mut power = 0;
    assert_eq!(refine_power(10, &mut power, 3), 3);
    assert_eq!(power, 3);
    let mut power = 3;
    assert_eq!(refine_power(10, &mut power, 5), 3);
    assert_eq!(power, 6);
    let mut power = 3;
    assert_eq!(refine_power(10, &mut power, 2), 0);
    assert_eq!(power, 3);
    let mut power = 0;
    assert_eq!(refine_power(2, &mut power, 11), 10);
    assert_eq!(power, 10);
    let mut power = 10;
    assert_eq!(refine_power(2, &mut power, 29), 20);
    assert_eq!(power, 30);
    let mut power = 10;
    assert_eq!(refine_power(2, &mut power, 9), 0);
    assert_eq!(power, 10);
}

#[test]
fn change_system_factors() {
    assert_eq!(
        change_system(&2, &10, &10),
        Some(ScaleFactor { numerator: 1024, denominator: 1000 })
    );
    assert_eq!(
        change_system(&10, &2, &3),
        Some(ScaleFactor { numerator: 1000, denominator: 1024 })
    );
    assert_eq!(
        change_system(&2, &10, &19),
        Some(ScaleFactor { numerator: 524288, denominator: 1000 })
    );
    assert_eq!(
        change_system(&10, &2, &0),
        Some(ScaleFactor { numerator: 1, denominator: 1 })
    );
    assert_eq!(
        change_system(&2, &10, &80),
        Some(ScaleFactor {
            numerator: 1208925819614629174706176,
            denominator: 1000000000000000000000000,
        })
    );
    assert_eq!(
        change_system(&10, &2, &24),
        Some(ScaleFactor {
            numerator: 1000000000000000000000000,
            denominator: 1208925819614629174706176,
        })
    );
}

#[test]
fn change_system_reports_what_does_not_fit() {
    assert_eq!(change_system(&10, &2, &39), None);
    assert_eq!(change_system(&2, &10, &128), None);
    assert_eq!(change_system(&10, &2, &u32::MAX), None);
}

#[test]
fn checked_power_values() {
    assert_eq!(checked_power(10, 0), Some(1));
    assert_eq!(checked_power(0, 0), Some(1));
    assert_eq!(checked_power(0, 5), Some(0));
    assert_eq!(checked_power(1, u64::MAX), Some(1));
    assert_eq!(checked_power(2, 10), Some(1024));
    assert_eq!(checked_power(2, 127), Some(1u128 << 127));
    assert_eq!(checked_power(2, 128), None);
    assert_eq!(checked_power(10, 38), Some(100000000000000000000000000000000000000));
    assert_eq!(checked_power(10, 39), None);
    assert_eq!(checked_power(u32::MAX, 4), Some(340282366604025813516997721482669850625));
    assert_eq!(checked_power(u32::MAX, 5), None);
}

#[test]
fn target_base_follows_the_family() {
    assert_eq!(target_base(None), 10);
    assert_eq!(target_base(Some(UnitFamily::Si)), 10);
    assert_eq!(target_base(Some(UnitFamily::Iec)), 2);
    assert_eq!(target_base(Some(UnitFamily::IecI)), 2);
    assert_eq!(target_base(Some(UnitFamily::Auto)), 10);
    assert_eq!(target_base(Some(UnitFamily::Unscaled)), 10);
}

#[test]
fn unit_suffix_by_target() {
    let came = "x".to_string();
    assert_eq!(unit_suffix(None, 10, 3, &came), "x".to_string());
    assert_eq!(unit_suffix(Some(UnitFamily::Si), 10, 3, &came), "K".to_string());
    assert_eq!(unit_suffix(Some(UnitFamily::Si), 2, 20, &came), "M".to_string());
    assert_eq!(unit_suffix(Some(UnitFamily::Iec), 2, 10, &came), "K".to_string());
    assert_eq!(unit_suffix(Some(UnitFamily::IecI), 2, 10, &came), "Ki".to_string());
    assert_eq!(unit_suffix(Some(UnitFamily::IecI), 10, 6, &came), "Mi".to_string());
    assert_eq!(unit_suffix(Some(UnitFamily::Auto), 10, 6, &came), "".to_string());
    assert_eq!(unit_suffix(Some(UnitFamily::Unscaled), 10, 6, &came), "".to_string());
}

#[test]
fn checked_power_agrees_with_the_integer_power() {
    for base in [0u32, 1, 2, 3, 10, 16, 1000, u32::MAX] {
        for exponent in 0u32..140 {
            assert_eq!(
                checked_power(base, exponent as u64),
                (base as u128).checked_pow(exponent),
                "{}^{}",
                base,
                exponent
            );
        }
    }
}

#[test]
fn bare_number_is_read_as_decimal_when_a_target_is_asked_for() {
    let none = "".to_string();
    for to in [UnitFamily::Si, UnitFamily::Iec, UnitFamily::IecI] {
        assert_eq!(
            resolve_unit(UnitFamily::Auto, Some(to), &none),
            Ok(UnitScale { base: 10, power: 0, by_magnitude: true })
        );
        assert_eq!(
            resolve_unit(UnitFamily::Auto, Some(to), &"x".to_string()),
            Ok(UnitScale { base: 10, power: 0, by_magnitude: false })
        );
        assert_eq!(
            resolve_unit(UnitFamily::Unscaled, Some(to), &none),
            Ok(UnitScale { base: 10, power: 0, by_magnitude: false })
        );
        assert_eq!(
            resolve_unit(UnitFamily::Iec, Some(to), &none),
            Ok(UnitScale { base: 2, power: 0, by_magnitude: true })
        );
    }
    assert_eq!(
        resolve_unit(UnitFamily::Auto, None, &none),
        Ok(UnitScale { base: 10, power: 0, by_magnitude: false })
    );
    assert_eq!(
        resolve_unit(UnitFamily::Si, None, &none),
        Ok(UnitScale { base: 10, power: 0, by_magnitude: true })
    );
}

#[test]
fn magnitude_tiers_are_whole() {
    assert_eq!(magnitude_tiers(10, 0), 0);
    assert_eq!(magnitude_tiers(10, 2), 0);
    assert_eq!(magnitude_tiers(10, 3), 3);
    assert_eq!(magnitude_tiers(10, 308), 306);
    assert_eq!(magnitude_tiers(2, 9), 0);
    assert_eq!(magnitude_tiers(2, 10), 10);
    assert_eq!(magnitude_tiers(2, 1023), 1020);
    assert_eq!(magnitude_tiers(10, u32::MAX), u32::MAX);
    assert_eq!(magnitude_tiers(2, u32::MAX), u32::MAX - 5);
}
