use vanity_commit::errors::VanityError;
use vanity_commit::search::make_token;
use vanity_commit::target::default_target;
use vanity_commit::target::parse_target;
use vanity_commit::target::target_length_ok;

fn parse(s: &str) -> Result<Vec<u8>, VanityError> {
    parse_target(&s.as_bytes().to_vec())
}

#[test]
fn parse_single_nibble() {
    assert_eq!(parse("a").unwrap(), vec![10u8]);
}

#[test]
fn parse_both_cases_and_digits() {
    assert_eq!(
        parse("0123456789abcdefABCDEF").unwrap(),
        vec![0, 1, 2, 3, 4, 5, 6, 7, 8, 9, 10, 11, 12, 13, 14, 15, 10, 11, 12, 13, 14, 15]
    );
}

#[test]
fn parse_empty_is_empty() {
    assert_eq!(parse("").unwrap(), Vec::<u8>::new());
}

#[test]
fn parse_rejects_first_non_hex_character() {
    let e = parse("0g1").unwrap_err();
    assert_eq!(
        e,
        VanityError::InputFormat {
            position: 1,
            byte: b'g',
        }
    );
}

#[test]
fn parse_reports_position_of_first_offender_only() {
    let e = parse("abz0z").unwrap_err();
    assert_eq!(
        e,
        VanityError::InputFormat {
            position: 2,
            byte: b'z',
        }
    );
}

#[test]
fn default_target_is_seven_zero_nibbles() {
    assert_eq!(default_target(), vec![0u8; 7]);
    assert_eq!(default_target(), parse("0000000").unwrap());
}

#[test]
fn target_length_bounds() {
    assert!(!target_length_ok(&Vec::new()));
    assert!(target_length_ok(&vec![0u8]));
    assert!(target_length_ok(&vec![0u8; 40]));
    assert!(!target_length_ok(&vec![0u8; 41]));
}

#[test]
fn token_shape_exact() {
    assert_eq!(make_token(0, 255), b"Aff_".to_vec());
    assert_eq!(make_token(2, 0), b"C0_".to_vec());
    assert_eq!(make_token(15, 0xdead), b"Pdead_".to_vec());
}

#[test]
fn tokens_distinct_within_one_worker() {
    let counters: [u64; 6] = [0, 1, 15, 16, 255, u64::MAX];
    for a in counters {
        for b in counters {
            if a != b {
                assert_ne!(make_token(5, a), make_token(5, b));
            }
        }
    }
}

#[test]
fn tokens_distinct_across_workers() {
    let counters: [u64; 4] = [0, 1, 16, u64::MAX];
    for i in 0..16u64 {
        for j in 0..16u64 {
            if i == j {
                continue;
            }
            for a in counters {
                for b in counters {
                    assert_ne!(make_token(i, a), make_token(j, b));
                }
            }
        }
    }
}
