use passgen::requirements::{
    default_partition, get_auto_requirements, get_password_requirements,
    get_requirements_or_defaults, PasswordRequirements, RequirementError, DEFAULT_LENGTH,
};

fn counts(requirements: &PasswordRequirements) -> (u32, u32, u32, u32) {
    (
        requirements.lowercase(),
        requirements.capitals(),
        requirements.digits(),
        requirements.symbols(),
    )
}

#[test]
fn resolves_twelve_with_three_three_two() {
    let requirements = get_password_requirements(12, 3, 3, 2).unwrap();
    assert_eq!(counts(&requirements), (4, 3, 3, 2));
    assert_eq!(requirements.total(), 12);
}

#[test]
fn rejects_ten_capitals_in_five_characters() {
    assert_eq!(get_password_requirements(5, 10, 0, 0), Err(RequirementError::Overflow));
}

#[test]
fn resolves_the_empty_request() {
    let requirements = get_password_requirements(0, 0, 0, 0).unwrap();
    assert_eq!(counts(&requirements), (0, 0, 0, 0));
    assert_eq!(requirements.total(), 0);
}

#[test]
fn resolves_eight_lowercase_when_no_count_is_given() {
    let requirements = get_password_requirements(8, 0, 0, 0).unwrap();
    assert_eq!(counts(&requirements), (8, 0, 0, 0));
}

#[test]
fn accepts_counts_that_fill_the_length_exactly() {
    let requirements = get_password_requirements(9, 4, 3, 2).unwrap();
    assert_eq!(counts(&requirements), (0, 4, 3, 2));
    assert_eq!(requirements.total(), 9);
}

#[test]
fn rejects_counts_that_exceed_the_length_by_one() {
    assert_eq!(get_password_requirements(9, 4, 3, 3), Err(RequirementError::Overflow));
    assert_eq!(get_password_requirements(0, 0, 0, 1), Err(RequirementError::Overflow));
    assert_eq!(get_password_requirements(0, 0, 1, 0), Err(RequirementError::Overflow));
    assert_eq!(get_password_requirements(0, 1, 0, 0), Err(RequirementError::Overflow));
}

#[test]
fn counts_add_up_to_the_length_whenever_they_fit() {
    for length in 0..20u32 {
        for capitals in 0..8u32 {
            for digits in 0..8u32 {
                for symbols in 0..8u32 {
                    let result = get_password_requirements(length, capitals, digits, symbols);
                    if capitals + digits + symbols <= length {
                        let requirements = result.unwrap();
                        assert_eq!(
                            counts(&requirements),
                            (length - capitals - digits - symbols, capitals, digits, symbols)
                        );
                        assert_eq!(requirements.total(), length);
                    } else {
                        assert_eq!(result, Err(RequirementError::Overflow));
                    }
                }
            }
        }
    }
}

#[test]
fn rejects_counts_whose_sum_does_not_fit_in_a_u32() {
    assert_eq!(
        get_password_requirements(u32::MAX, u32::MAX, 1, 0),
        Err(RequirementError::Overflow)
    );
    assert_eq!(
        get_password_requirements(5, u32::MAX, u32::MAX, u32::MAX),
        Err(RequirementError::Overflow)
    );
    assert_eq!(get_password_requirements(0, 1 << 31, 1 << 31, 0), Err(RequirementError::Overflow));
}

#[test]
fn accepts_the_largest_length() {
    let requirements = get_password_requirements(u32::MAX, u32::MAX - 3, 1, 1).unwrap();
    assert_eq!(counts(&requirements), (1, u32::MAX - 3, 1, 1));
    assert_eq!(requirements.total(), u32::MAX);
    let all_lowercase = get_password_requirements(u32::MAX, 0, 0, 0).unwrap();
    assert_eq!(counts(&all_lowercase), (u32::MAX, 0, 0, 0));
}

#[test]
fn a_count_that_is_left_out_is_zero() {
    let requirements = get_requirements_or_defaults(12, Some(3), Some(3), Some(2)).unwrap();
    assert_eq!(counts(&requirements), (4, 3, 3, 2));
    assert_eq!(
        get_requirements_or_defaults(5, Some(10), None, None),
        Err(RequirementError::Overflow)
    );
    let lowercase_only = get_requirements_or_defaults(8, None, None, None).unwrap();
    assert_eq!(counts(&lowercase_only), (8, 0, 0, 0));
    let digits_only = get_requirements_or_defaults(6, None, Some(6), None).unwrap();
    assert_eq!(counts(&digits_only), (0, 0, 6, 0));
    assert_eq!(
        get_requirements_or_defaults(6, None, Some(6), Some(1)),
        Err(RequirementError::Overflow)
    );
}

#[test]
fn optional_and_plain_requests_agree() {
    for capitals in 0..4u32 {
        for symbols in 0..4u32 {
            assert_eq!(
                get_requirements_or_defaults(5, Some(capitals), None, Some(symbols)),
                get_password_requirements(5, capitals, 0, symbols)
            );
        }
    }
}

#[test]
fn auto_requirements_are_eight_of_each() {
    let requirements = get_auto_requirements();
    assert_eq!(counts(&requirements), (8, 8, 8, 8));
    assert_eq!(requirements.total(), 32);
    assert_eq!(Ok(requirements), get_password_requirements(32, 8, 8, 8));
}

#[test]
fn overflow_message_names_the_three_counts() {
    assert_eq!(
        RequirementError::Overflow.message(),
        "the sum of capitals, digits, and symbols exceeds the total length"
    );
}

#[test]
fn default_partition_is_a_quarter_rounded_down() {
    assert_eq!(default_partition(0), 0);
    assert_eq!(default_partition(3), 0);
    assert_eq!(default_partition(4), 1);
    assert_eq!(default_partition(7), 1);
    assert_eq!(default_partition(12), 3);
    assert_eq!(default_partition(DEFAULT_LENGTH), 3);
    assert_eq!(default_partition(u32::MAX), 1_073_741_823);
}

#[test]
fn default_partition_matches_the_floating_point_quarter() {
    let lengths = [0u32, 1, 2, 3, 4, 5, 11, 12, 13, 255, 1000, 65_535, 16_777_217, u32::MAX - 1, u32::MAX];
    for length in lengths {
        assert_eq!(default_partition(length), (length as f64 / 4.0).floor() as u32);
    }
}

#[test]
fn default_counts_always_fit_the_length() {
    for length in 0..200u32 {
        let part = default_partition(length);
        let requirements = get_password_requirements(length, part, part, part).unwrap();
        assert_eq!(requirements.total(), length);
        assert_eq!(requirements.lowercase(), length - 3 * part);
    }
}
