use bbg::random_text::{
    format_ipv4, get_random_ipv4, pi, pi_from_draws, replace_with_digit, MUTATION_DRAWS, MUTATION_SCALE,
};

const PI: &str = "3.141592653589793";

#[test]
fn pi_to_fifteen_places() {
    assert_eq!(format!("{:.15}", std::f64::consts::PI), PI);
    let p = pi();
    assert_eq!(p.chars().count(), PI.chars().count());
    let diffs: Vec<usize> = p.chars().zip(PI.chars()).enumerate().filter(|(_, (a, b))| a != b).map(|(i, _)| i).collect();
    assert!(diffs.is_empty() || (diffs.len() == 1 && diffs[0] >= 2));
}

#[test]
fn one_digit_replaced() {
    assert_eq!(replace_with_digit(PI, 2, 7), "3.741592653589793");
    assert_eq!(replace_with_digit(PI, 16, 0), "3.141592653589790");
}

#[test]
fn ipv4_text_of_octets() {
    assert_eq!(format_ipv4(0, 10, 255, 7), "0.10.255.7");
    assert_eq!(format_ipv4(192, 168, 1, 100), "192.168.1.100");
}

#[test]
fn random_ipv4_parses_as_address() {
    for _ in 0..50 {
        let ip = get_random_ipv4();
        let parts: Vec<&str> = ip.split('.').collect();
        assert_eq!(parts.len(), 4, "{}", ip);
        for part in parts {
            let v: u8 = part.parse().unwrap();
            assert_eq!(v.to_string(), part);
        }
    }
}

#[test]
fn pi_for_given_draws() {
    assert_eq!(pi_from_draws(0, 2, 7), "3.741592653589793");
    assert_eq!(pi_from_draws(1453, 16, 0), "3.141592653589790");
    assert_eq!(pi_from_draws(1454, 2, 7), PI);
    assert_eq!(pi_from_draws(MUTATION_SCALE - 1, 5, 9), PI);
}

#[test]
fn mutation_chance_is_tiny() {
    assert_eq!(MUTATION_DRAWS, 1454);
    assert_eq!(MUTATION_SCALE, 100_000_000_000_000);
}
