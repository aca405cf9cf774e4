use pair_vault::slot::{check_owner_access, get_owner, set_pair, CONFIRMATION_WINDOW_SECS};
use pair_vault::{Owner, Slot};

fn owner(name: &str, time: u64) -> Owner {
    Owner { owner: name.to_string(), time }
}

fn pair(first: &str, second: &str) -> (String, String) {
    (first.to_string(), second.to_string())
}

fn dual(a_time: u64, b_time: u64) -> Slot {
    Slot::Dual(owner("a.x", a_time), owner("b.x", b_time))
}

/// The code points with the `White_Space` property.
fn is_white_space(c: char) -> bool {
    matches!(
        c as u32,
        0x09..=0x0D
            | 0x20
            | 0x85
            | 0xA0
            | 0x1680
            | 0x2000..=0x200A
            | 0x2028
            | 0x2029
            | 0x202F
            | 0x205F
            | 0x3000
    )
}

#[test]
fn new_owner_has_never_confirmed() {
    assert_eq!(Owner::new("a.x".to_string()), owner("a.x", 0));
}

#[test]
fn owner_is_named_by_its_own_name_only() {
    let a = owner("a.x", 7);
    assert!(a.is_named("a.x"));
    assert!(!a.is_named("a.y"));
    assert!(!a.is_named(""));
    assert!(!a.is_named("a.x "));
}

#[test]
fn confirmation_window_is_five_minutes() {
    assert_eq!(CONFIRMATION_WINDOW_SECS, 300);
}

#[test]
fn set_pair_without_a_pair_is_empty() {
    assert_eq!(set_pair(None), Slot::Empty);
}

#[test]
fn set_pair_with_empty_first_name_is_empty() {
    assert_eq!(set_pair(Some(&pair("", ""))), Slot::Empty);
    assert_eq!(set_pair(Some(&pair("", "carl.x"))), Slot::Empty);
}

#[test]
fn set_pair_with_blank_first_name_is_empty() {
    assert_eq!(set_pair(Some(&pair("  \t\n", "carl.x"))), Slot::Empty);
}

#[test]
fn set_pair_with_empty_second_name_is_single() {
    assert_eq!(set_pair(Some(&pair("alice.x", ""))), Slot::Single(owner("alice.x", 0)));
    assert_eq!(set_pair(Some(&pair("alice.x", "   "))), Slot::Single(owner("alice.x", 0)));
}

#[test]
fn set_pair_with_repeated_name_is_single() {
    assert_eq!(set_pair(Some(&pair("alice.x", "alice.x"))), Slot::Single(owner("alice.x", 0)));
}

#[test]
fn set_pair_compares_names_after_trimming() {
    assert_eq!(set_pair(Some(&pair(" alice.x", "alice.x\n"))), Slot::Single(owner("alice.x", 0)));
}

#[test]
fn set_pair_with_two_names_is_dual() {
    assert_eq!(
        set_pair(Some(&pair("bob.x", "carl.x"))),
        Slot::Dual(owner("bob.x", 0), owner("carl.x", 0))
    );
}

#[test]
fn set_pair_trims_both_names() {
    assert_eq!(
        set_pair(Some(&pair("  bob.x\t", "\r\ncarl.x "))),
        Slot::Dual(owner("bob.x", 0), owner("carl.x", 0))
    );
}

#[test]
fn set_pair_keeps_white_space_inside_a_name() {
    assert_eq!(set_pair(Some(&pair(" bob x ", ""))), Slot::Single(owner("bob x", 0)));
}

#[test]
fn set_pair_trims_unicode_white_space() {
    assert_eq!(
        set_pair(Some(&pair("\u{3000}\u{a0}bob.x\u{2003}\u{85}", "\u{1680}\u{205f}"))),
        Slot::Single(owner("bob.x", 0))
    );
}

#[test]
fn set_pair_keeps_what_only_looks_like_white_space() {
    for c in ['\u{200b}', '\u{180e}', '\u{feff}', '\u{1c}', '\u{1f}', '\u{2060}', '\u{8}'] {
        let name = format!("{}bob.x{}", c, c);
        assert_eq!(set_pair(Some(&pair(&name, ""))), Slot::Single(owner(&name, 0)));
    }
}

#[test]
fn set_pair_trims_exactly_the_white_space_characters() {
    for code in 0..=0x10FFFFu32 {
        if let Some(c) = char::from_u32(code) {
            let wrapped = format!("{}x{}", c, c);
            let expected = if is_white_space(c) { "x".to_string() } else { wrapped.clone() };
            match set_pair(Some(&(wrapped, String::new()))) {
                Slot::Single(found) => assert_eq!(found.owner, expected),
                other => panic!("{:?} for U+{:04X}", other, code),
            }
        }
    }
}

#[test]
fn set_pair_trims_runs_of_white_space() {
    let all: String = (0..=0x10FFFFu32)
        .filter_map(char::from_u32)
        .filter(|c| is_white_space(*c))
        .collect();
    assert_eq!(all.chars().count(), 25);
    let wrapped = format!("{}a\u{3000}b{}", all, all);
    assert_eq!(set_pair(Some(&(wrapped, all.clone()))), Slot::Single(owner("a\u{3000}b", 0)));
    assert_eq!(set_pair(Some(&(all, "carl.x".to_string()))), Slot::Empty);
}

#[test]
fn slot_names_are_empty_where_there_is_no_owner() {
    assert_eq!(Slot::Empty.names(), (String::new(), String::new()));
    assert_eq!(Slot::Single(owner("a.x", 3)).names(), ("a.x".to_string(), String::new()));
    assert_eq!(dual(3, 4).names(), ("a.x".to_string(), "b.x".to_string()));
}

#[test]
fn slot_standing_tells_position_and_time() {
    assert_eq!(Slot::Empty.standing("a.x"), None);
    assert_eq!(Slot::Single(owner("a.x", 3)).standing("a.x"), Some((true, 3)));
    assert_eq!(Slot::Single(owner("a.x", 3)).standing("b.x"), None);
    assert_eq!(dual(3, 4).standing("a.x"), Some((true, 3)));
    assert_eq!(dual(3, 4).standing("b.x"), Some((false, 4)));
    assert_eq!(dual(3, 4).standing("c.x"), None);
}

#[test]
fn slot_is_well_formed_unless_dual_owners_coincide() {
    assert!(Slot::Empty.is_well_formed());
    assert!(Slot::Single(owner("a.x", 0)).is_well_formed());
    assert!(dual(0, 0).is_well_formed());
    assert!(!Slot::Dual(owner("a.x", 0), owner("a.x", 9)).is_well_formed());
}

#[test]
fn empty_slot_grants_nobody() {
    assert_eq!(check_owner_access(&Slot::Empty, "a.x", 10, true), (false, None));
    assert_eq!(check_owner_access(&Slot::Empty, "a.x", 10, false), (false, None));
    assert_eq!(check_owner_access(&Slot::Empty, "", 10, true), (false, None));
}

#[test]
fn single_slot_grants_its_owner_under_both_policies() {
    let slot = Slot::Single(owner("a.x", 5));
    assert_eq!(check_owner_access(&slot, "a.x", 1_000_000, true), (true, None));
    assert_eq!(
        check_owner_access(&slot, "a.x", 1_000_000, false),
        (true, Some(Slot::Single(owner("a.x", 1_000_000))))
    );
    assert_eq!(slot, Slot::Single(owner("a.x", 5)));
}

#[test]
fn single_slot_grants_nobody_else() {
    let slot = Slot::Single(owner("a.x", 5));
    assert_eq!(check_owner_access(&slot, "b.x", 6, true), (false, None));
    assert_eq!(check_owner_access(&slot, "b.x", 6, false), (false, None));
    assert_eq!(check_owner_access(&slot, "", 6, false), (false, None));
}

#[test]
fn any_owner_grants_either_owner_of_a_dual_slot() {
    let slot = dual(0, 0);
    assert_eq!(check_owner_access(&slot, "a.x", 999_999, true), (true, None));
    assert_eq!(check_owner_access(&slot, "b.x", 999_999, true), (true, None));
    assert_eq!(check_owner_access(&slot, "c.x", 999_999, true), (false, None));
}

#[test]
fn any_owner_does_not_depend_on_the_time() {
    let slot = dual(1000, 0);
    for now in [0, 1, 299, 300, 1000, 1299, 1300, u64::MAX] {
        assert_eq!(check_owner_access(&slot, "a.x", now, true), (true, None));
        assert_eq!(check_owner_access(&slot, "b.x", now, true), (true, None));
    }
    let mut stored = dual(1000, 0);
    for now in [0, 5_000, u64::MAX] {
        assert!(get_owner(&mut stored, "b.x", now, true));
        assert_eq!(stored, dual(1000, 0));
    }
}

#[test]
fn confirmation_by_first_owner_needs_a_recent_second() {
    let slot = dual(0, 1000);
    assert_eq!(check_owner_access(&slot, "a.x", 1299, false), (true, Some(dual(1299, 1000))));
    assert_eq!(check_owner_access(&slot, "a.x", 1300, false), (false, Some(dual(1300, 1000))));
}

#[test]
fn confirmation_by_second_owner_needs_a_recent_first() {
    let slot = dual(1000, 0);
    assert_eq!(check_owner_access(&slot, "b.x", 1299, false), (true, Some(dual(1000, 1299))));
    assert_eq!(check_owner_access(&slot, "b.x", 1300, false), (false, Some(dual(1000, 1300))));
}

#[test]
fn confirmation_by_a_stranger_is_refused_and_leaves_no_trace() {
    assert_eq!(check_owner_access(&dual(1000, 1000), "c.x", 1001, false), (false, None));
    let mut stored = dual(1000, 1000);
    assert!(!get_owner(&mut stored, "c.x", 1001, false));
    assert_eq!(stored, dual(1000, 1000));
}

#[test]
fn confirmation_ahead_of_the_recorded_time_counts_as_immediate() {
    assert_eq!(check_owner_access(&dual(0, 5000), "a.x", 10, false), (true, Some(dual(10, 5000))));
}

#[test]
fn confirmation_is_refused_while_the_other_owner_never_confirmed() {
    assert_eq!(check_owner_access(&dual(0, 0), "a.x", 100, false), (false, Some(dual(100, 0))));
    assert_eq!(check_owner_access(&dual(0, 0), "a.x", 0, false), (false, Some(dual(0, 0))));
    assert_eq!(check_owner_access(&dual(0, 0), "a.x", 299, false), (false, Some(dual(299, 0))));
    assert_eq!(check_owner_access(&dual(0, 0), "a.x", 300, false), (false, Some(dual(300, 0))));
    assert_eq!(check_owner_access(&dual(0, 0), "b.x", 100, false), (false, Some(dual(0, 100))));
    assert_eq!(check_owner_access(&dual(50, 0), "a.x", 100, false), (false, Some(dual(100, 0))));
    assert_eq!(check_owner_access(&dual(0, 50), "b.x", 100, false), (false, Some(dual(0, 100))));
}

#[test]
fn confirmation_is_granted_once_the_other_owner_has_confirmed() {
    assert_eq!(check_owner_access(&dual(0, 1), "a.x", 100, false), (true, Some(dual(100, 1))));
    assert_eq!(check_owner_access(&dual(50, 0), "b.x", 100, false), (true, Some(dual(50, 100))));
    assert_eq!(check_owner_access(&dual(1, 0), "b.x", 300, false), (true, Some(dual(1, 300))));
    assert_eq!(check_owner_access(&dual(1, 0), "b.x", 301, false), (false, Some(dual(1, 301))));
}

#[test]
fn get_owner_refuses_the_first_call_on_a_fresh_dual_slot() {
    let mut slot = dual(0, 0);
    assert!(!get_owner(&mut slot, "a.x", 100, false));
    assert_eq!(slot, dual(100, 0));
    assert!(!get_owner(&mut slot, "a.x", 150, false));
    assert_eq!(slot, dual(150, 0));
    assert!(get_owner(&mut slot, "b.x", 200, false));
    assert_eq!(slot, dual(150, 200));
    assert!(get_owner(&mut slot, "a.x", 499, false));
    assert!(!get_owner(&mut slot, "a.x", 500, false));
}

#[test]
fn check_owner_access_leaves_the_slot_as_it_was() {
    let slot = dual(7, 8);
    let _ = check_owner_access(&slot, "a.x", 100, false);
    assert_eq!(slot, dual(7, 8));
}

#[test]
fn get_owner_records_what_check_owner_access_returns() {
    for caller in ["a.x", "b.x", "c.x"] {
        for now in [0, 299, 300, 1299, 1300, 9999] {
            for any_owner in [false, true] {
                for start in [Slot::Empty, Slot::Single(owner("a.x", 1000)), dual(1000, 0)] {
                    let (access, update) = check_owner_access(&start, caller, now, any_owner);
                    let mut stored = start.clone();
                    assert_eq!(get_owner(&mut stored, caller, now, any_owner), access);
                    assert_eq!(stored, update.unwrap_or(start));
                }
            }
        }
    }
}

#[test]
fn dual_slot_scenario_deny_grant_deny() {
    let mut slot = dual(0, 0);
    assert!(!get_owner(&mut slot, "a.x", 1000, false));
    assert_eq!(slot, dual(1000, 0));
    assert!(get_owner(&mut slot, "b.x", 1100, false));
    assert_eq!(slot, dual(1000, 1100));
    assert!(!get_owner(&mut slot, "a.x", 1500, false));
    assert_eq!(slot, dual(1500, 1100));
}

#[test]
fn dual_slot_window_closes_at_three_hundred_seconds() {
    for (t0, t1, granted) in [
        (1000u64, 1000u64, true),
        (1000, 1001, true),
        (1000, 1299, true),
        (1000, 1300, false),
        (1000, 1301, false),
        (1000, u64::MAX, false),
        (1, 300, true),
        (1, 301, false),
        (0, 299, false),
        (0, 300, false),
    ] {
        let mut slot = dual(0, 0);
        get_owner(&mut slot, "a.x", t0, false);
        assert_eq!(get_owner(&mut slot, "b.x", t1, false), granted);
        assert_eq!(slot, dual(t0, t1));
    }
}

#[test]
fn dual_slot_owner_alone_cannot_reopen_the_window() {
    let mut slot = dual(0, 0);
    assert!(!get_owner(&mut slot, "a.x", 1000, false));
    assert!(get_owner(&mut slot, "b.x", 1100, false));
    assert!(get_owner(&mut slot, "a.x", 1399, false));
    assert!(!get_owner(&mut slot, "a.x", 1400, false));
    assert!(!get_owner(&mut slot, "a.x", 1401, false));
    assert_eq!(slot, dual(1401, 1100));
}

#[test]
fn single_slot_records_the_time_of_each_confirmation() {
    let mut slot = Slot::Single(owner("a.x", 0));
    assert!(get_owner(&mut slot, "a.x", 40, false));
    assert_eq!(slot, Slot::Single(owner("a.x", 40)));
    assert!(get_owner(&mut slot, "a.x", 1_000_000, false));
    assert_eq!(slot, Slot::Single(owner("a.x", 1_000_000)));
    assert!(!get_owner(&mut slot, "b.x", 2_000_000, false));
    assert_eq!(slot, Slot::Single(owner("a.x", 1_000_000)));
    assert!(get_owner(&mut slot, "a.x", 3_000_000, true));
    assert_eq!(slot, Slot::Single(owner("a.x", 1_000_000)));
}
