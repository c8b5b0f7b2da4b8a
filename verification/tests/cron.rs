use r2d2wm::cron::{is_cron_expression, job_schedule};

const PATTERN: &str = r"^(((\d+,)+\d+|(\d+([/\-])\d+)|\d+|\*) ?){5}$";

#[test]
fn cron_accepts_common_expressions() {
    assert!(is_cron_expression("* * * * *"));
    assert!(is_cron_expression("0 12 * * 1-5"));
    assert!(is_cron_expression("1,2,3 4 5 6 7"));
    assert!(is_cron_expression("0/15 * * * *"));
    assert!(is_cron_expression("1 2 3 4 5 "));
}

#[test]
fn cron_accepts_fields_without_spaces() {
    assert!(is_cron_expression("12345"));
    assert!(is_cron_expression("*****"));
    assert!(is_cron_expression("1-23***"));
}

#[test]
fn cron_rejects_malformed_expressions() {
    assert!(!is_cron_expression(""));
    assert!(!is_cron_expression("* * * *"));
    assert!(!is_cron_expression("* * * * * *"));
    assert!(!is_cron_expression("*/5 * * * *"));
    assert!(!is_cron_expression("1  2 3 4 5"));
    assert!(!is_cron_expression("1,,2 * * * *"));
    assert!(!is_cron_expression("1-2-3 * * * *"));
    assert!(!is_cron_expression("a * * * *"));
    assert!(!is_cron_expression(" * * * * *"));
    assert!(!is_cron_expression("* * * * *\n"));
}

#[test]
fn cron_digits_are_unicode_decimal_digits() {
    // ARABIC-INDIC DIGIT ONE is a decimal digit; VULGAR FRACTION ONE HALF is not.
    assert!(is_cron_expression("\u{0661} * * * *"));
    assert!(!is_cron_expression("\u{00BD} * * * *"));
}

fn all_strings(alphabet: &[char], max_len: usize) -> Vec<String> {
    let mut out = vec![String::new()];
    let mut frontier = vec![String::new()];
    for _ in 0..max_len {
        let mut next = Vec::new();
        for s in &frontier {
            for c in alphabet {
                let mut t = s.clone();
                t.push(*c);
                next.push(t);
            }
        }
        out.extend(next.iter().cloned());
        frontier = next;
    }
    out
}

#[test]
fn cron_agrees_with_the_regex_on_short_strings() {
    let re = regex::Regex::new(PATTERN).unwrap();
    let alphabet = ['1', '*', ',', '-', '/', ' ', 'x'];
    for s in all_strings(&alphabet, 7) {
        assert_eq!(is_cron_expression(&s), re.is_match(&s), "on {:?}", s);
    }
}

#[test]
fn cron_agrees_with_the_regex_on_longer_strings() {
    let re = regex::Regex::new(PATTERN).unwrap();
    let pieces = ["1", "23", "*", ",", "-", "/", " ", "4,5", "6-7", "8/9", "\u{0662}"];
    // a simple deterministic generator
    let mut state: u64 = 12345;
    for _ in 0..4000 {
        let mut s = String::new();
        state = state.wrapping_mul(6364136223846793005).wrapping_add(1442695040888963407);
        let n = (state >> 60) as usize + 1;
        for _ in 0..n {
            state = state.wrapping_mul(6364136223846793005).wrapping_add(1442695040888963407);
            s.push_str(pieces[(state >> 33) as usize % pieces.len()]);
        }
        assert_eq!(is_cron_expression(&s), re.is_match(&s), "on {:?}", s);
    }
}

#[test]
fn job_schedule_prefixes_the_seconds_field() {
    assert_eq!(job_schedule("*/5 * * * *"), "0 */5 * * * *");
    assert_eq!(job_schedule("0 12 * * 1-5"), "0 0 12 * * 1-5");
}

#[test]
fn cron_accepts_repeated_non_ascii_digits() {
    let field: String = std::iter::repeat('\u{0663}').take(50).collect();
    let expr = format!("{f} {f} {f} {f} {f}", f = field);
    assert!(is_cron_expression(&expr));
    assert!(!is_cron_expression(&format!("{} x", expr)));
}
