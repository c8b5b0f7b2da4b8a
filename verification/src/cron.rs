//! Validation of the five-field cron expressions that users type when they
//! schedule a message, and the six-field schedule handed to the job runner.
//!
//! The accepted language is the one of the regular expression
//! `^(((\d+,)+\d+|(\d+([/\-])\d+)|\d+|\*) ?){5}$`: five fields, each one
//! optionally followed by a single space, where a field is `*`, a list of
//! digit runs joined by commas, or two digit runs joined by `/` or `-`.
use vstd::prelude::*;

verus! {

/// Whether the regex crate's class `\d` (Unicode decimal digits) holds `c`.
pub uninterp spec fn regex_decimal_digit(c: char) -> bool;

/// Calls the regex crate (`Regex::new` on the one-character pattern
/// `^\d$`, then `Regex::is_match`) on the character `c` alone.
/// Claimed: the answer depends on `c` alone (it is `regex_decimal_digit(c)`),
/// and on ASCII characters it is exactly `0`..=`9`, as the crate documents
/// `\d` to be the Unicode class `Nd`. Not stated: which non-ASCII characters
/// belong to that class (the crate's Unicode tables).
#[verifier::external_body]
fn regex_is_decimal_digit(c: char) -> (r: bool)
    ensures
        r == regex_decimal_digit(c),
        (c as u32) < 128 ==> (r <==> ('0' <= c && c <= '9')),
{
    let mut buf = [0u8; 4];
    regex::Regex::new(r"^\d$").map_or(false, |re| re.is_match(c.encode_utf8(&mut buf)))
}

/// The class `\d` of the grammar: ASCII `0`..=`9`, and beyond ASCII what the
/// regex crate calls a decimal digit.
pub open spec fn cron_digit(c: char) -> bool {
    if (c as u32) < 128 {
        '0' <= c && c <= '9'
    } else {
        regex_decimal_digit(c)
    }
}

/// `\d+`
pub open spec fn digit_run(t: Seq<char>) -> bool {
    &&& t.len() > 0
    &&& forall|i: int| 0 <= i < t.len() ==> cron_digit(#[trigger] t[i])
}

/// `(\d+,)+\d+|\d+`: one or more digit runs joined by single commas, that is
/// digits and commas where every comma stands between two digits.
pub open spec fn digit_list(t: Seq<char>) -> bool {
    &&& t.len() > 0
    &&& forall|i: int|
        0 <= i < t.len() ==> (cron_digit(#[trigger] t[i]) || (t[i] == ',' && 0 < i < t.len() - 1
            && cron_digit(t[i - 1]) && cron_digit(t[i + 1])))
}

/// `\d+[/\-]\d+`
pub open spec fn digit_range(t: Seq<char>) -> bool {
    exists|k: int|
        0 < k < t.len() - 1 && (t[k] == '/' || t[k] == '-') && #[trigger] digit_run(t.take(k))
            && digit_run(t.skip(k + 1))
}

/// One field: `*`, a digit list or a digit range.
pub open spec fn cron_field(t: Seq<char>) -> bool {
    t == seq!['*'] || digit_list(t) || digit_range(t)
}

/// One field followed by an optional space.
pub open spec fn cron_token(t: Seq<char>) -> bool {
    cron_field(t) || (t.len() > 0 && t.last() == ' ' && cron_field(t.drop_last()))
}

/// `b` cuts `s` into `n` tokens: `b[0] == 0`, `b[n] == s.len()`, and each
/// `s[b[i]..b[i + 1]]` is a token.
pub open spec fn token_bounds(s: Seq<char>, b: Seq<int>, n: nat) -> bool {
    &&& b.len() == n + 1
    &&& b[0] == 0
    &&& b[n as int] == s.len()
    &&& forall|i: int|
        0 <= i < n ==> #[trigger] b[i] < b[i + 1] && cron_token(s.subrange(b[i], b[i + 1]))
}

/// `s` is `n` tokens one after the other.
pub open spec fn cron_tokens(s: Seq<char>, n: nat) -> bool {
    exists|b: Seq<int>| #[trigger] token_bounds(s, b, n)
}

/// The language of the cron pattern: exactly five tokens.
pub open spec fn is_cron_pattern(s: Seq<char>) -> bool {
    cron_tokens(s, 5)
}

/// The states of the automaton that reads one token.
#[derive(Clone, Copy, PartialEq, Eq, Structural)]
pub enum TokenState {
    Start,
    Star,
    Digits,
    Comma,
    ListDigits,
    Separator,
    RangeDigits,
    Space,
    Dead,
}

pub open spec fn token_step(st: TokenState, c: char) -> TokenState {
    match st {
        TokenState::Start => if c == '*' {
            TokenState::Star
        } else if cron_digit(c) {
            TokenState::Digits
        } else {
            TokenState::Dead
        },
        TokenState::Star => if c == ' ' {
            TokenState::Space
        } else {
            TokenState::Dead
        },
        TokenState::Digits => if cron_digit(c) {
            TokenState::Digits
        } else if c == ',' {
            TokenState::Comma
        } else if c == '/' || c == '-' {
            TokenState::Separator
        } else if c == ' ' {
            TokenState::Space
        } else {
            TokenState::Dead
        },
        TokenState::Comma => if cron_digit(c) {
            TokenState::ListDigits
        } else {
            TokenState::Dead
        },
        TokenState::ListDigits => if cron_digit(c) {
            TokenState::ListDigits
        } else if c == ',' {
            TokenState::Comma
        } else if c == ' ' {
            TokenState::Space
        } else {
            TokenState::Dead
        },
        TokenState::Separator => if cron_digit(c) {
            TokenState::RangeDigits
        } else {
            TokenState::Dead
        },
        TokenState::RangeDigits => if cron_digit(c) {
            TokenState::RangeDigits
        } else if c == ' ' {
            TokenState::Space
        } else {
            TokenState::Dead
        },
        TokenState::Space => TokenState::Dead,
        TokenState::Dead => TokenState::Dead,
    }
}

/// The state reached after reading `t` from the start state.
pub open spec fn token_run(t: Seq<char>) -> TokenState
    decreases t.len(),
{
    if t.len() == 0 {
        TokenState::Start
    } else {
        token_step(token_run(t.drop_last()), t.last())
    }
}

pub open spec fn token_accepting(st: TokenState) -> bool {
    st == TokenState::Star || st == TokenState::Digits || st == TokenState::ListDigits || st
        == TokenState::RangeDigits || st == TokenState::Space
}

proof fn lemma_digit_run_push(t: Seq<char>, c: char)
    ensures
        digit_run(t.push(c)) <==> ((t.len() == 0 || digit_run(t)) && cron_digit(c)),
{
    let u = t.push(c);
    assert(u[u.len() - 1] == c);
    if (t.len() == 0 || digit_run(t)) && cron_digit(c) {
        assert forall|i: int| 0 <= i < u.len() implies cron_digit(#[trigger] u[i]) by {
            if i < t.len() {
                assert(u[i] == t[i]);
            }
        }
    }
    if digit_run(u) && t.len() > 0 {
        assert forall|i: int| 0 <= i < t.len() implies cron_digit(#[trigger] t[i]) by {
            assert(u[i] == t[i]);
        }
    }
}

proof fn lemma_digit_list_push(t: Seq<char>, c: char)
    requires
        !cron_digit(','),
    ensures
        digit_list(t.push(c)) <==> (cron_digit(c) && (t.len() == 0 || digit_list(t) || (t.len() > 0
            && t.last() == ',' && digit_list(t.drop_last())))),
{
    let u = t.push(c);
    assert(u[u.len() - 1] == c);
    assert forall|i: int| 0 <= i < t.len() implies u[i] == t[i] by {}
    if digit_list(u) {
        assert(cron_digit(u[u.len() - 1]));
        if t.len() > 0 && !digit_list(t) {
            // the last character of t is a comma, and what precedes it is a list
            let w = t.drop_last();
            assert(t[t.len() - 1] == u[t.len() - 1]);
            if t.last() != ',' {
                assert forall|i: int| 0 <= i < t.len() implies (cron_digit(#[trigger] t[i]) || (
                t[i] == ',' && 0 < i < t.len() - 1 && cron_digit(t[i - 1]) && cron_digit(
                    t[i + 1],
                ))) by {
                    assert(u[i] == t[i]);
                    if i < t.len() - 1 {
                        assert(u[i + 1] == t[i + 1]);
                    }
                    if i > 0 {
                        assert(u[i - 1] == t[i - 1]);
                    }
                }
            } else {
                assert(w.len() > 0);
                assert forall|i: int| 0 <= i < w.len() implies (cron_digit(#[trigger] w[i]) || (
                w[i] == ',' && 0 < i < w.len() - 1 && cron_digit(w[i - 1]) && cron_digit(
                    w[i + 1],
                ))) by {
                    assert(w[i] == u[i]);
                    if i > 0 {
                        assert(w[i - 1] == u[i - 1]);
                    }
                    if i == w.len() - 1 {
                        // w[i] is followed by the comma in u
                        assert(u[i + 1] == ',');
                    } else {
                        assert(w[i + 1] == u[i + 1]);
                    }
                }
            }
        }
    }
    if cron_digit(c) {
        if t.len() == 0 {
        } else if digit_list(t) {
            assert forall|i: int| 0 <= i < u.len() implies (cron_digit(#[trigger] u[i]) || (u[i]
                == ',' && 0 < i < u.len() - 1 && cron_digit(u[i - 1]) && cron_digit(
                u[i + 1],
            ))) by {
                if i < t.len() {
                    assert(u[i] == t[i]);
                    if i > 0 {
                        assert(u[i - 1] == t[i - 1]);
                    }
                    if i < t.len() - 1 {
                        assert(u[i + 1] == t[i + 1]);
                    }
                }
            }
        } else if t.last() == ',' && digit_list(t.drop_last()) {
            let w = t.drop_last();
            assert forall|i: int| 0 <= i < u.len() implies (cron_digit(#[trigger] u[i]) || (u[i]
                == ',' && 0 < i < u.len() - 1 && cron_digit(u[i - 1]) && cron_digit(
                u[i + 1],
            ))) by {
                if i < w.len() {
                    assert(u[i] == w[i]);
                    if i > 0 {
                        assert(u[i - 1] == w[i - 1]);
                    }
                    if i < w.len() - 1 {
                        assert(u[i + 1] == w[i + 1]);
                    }
                } else if i == w.len() {
                    assert(u[i] == ',');
                    assert(u[i - 1] == w[w.len() - 1]);
                    assert(cron_digit(w[w.len() - 1]));
                }
            }
        }
    }
}

proof fn lemma_digit_range_push(t: Seq<char>, c: char)
    requires
        !cron_digit('/'),
        !cron_digit('-'),
    ensures
        digit_range(t.push(c)) <==> (cron_digit(c) && ((t.len() > 0 && (t.last() == '/'
            || t.last() == '-') && digit_run(t.drop_last())) || digit_range(t))),
{
    let u = t.push(c);
    assert(u[u.len() - 1] == c);
    if digit_range(u) {
        let k = choose|k: int|
            0 < k < u.len() - 1 && (u[k] == '/' || u[k] == '-') && #[trigger] digit_run(u.take(k))
                && digit_run(u.skip(k + 1));
        assert(u.skip(k + 1)[u.skip(k + 1).len() - 1] == c);
        if k == t.len() - 1 {
            assert(t.drop_last() =~= u.take(k));
            assert(t[k] == u[k]);
        } else {
            assert(t.take(k) =~= u.take(k));
            assert(t.skip(k + 1).push(c) =~= u.skip(k + 1));
            lemma_digit_run_push(t.skip(k + 1), c);
            assert(t[k] == u[k]);
        }
    }
    if cron_digit(c) {
        if t.len() > 0 && (t.last() == '/' || t.last() == '-') && digit_run(t.drop_last()) {
            let k = t.len() - 1;
            assert(u.take(k) =~= t.drop_last());
            assert(u.skip(k + 1) =~= seq![c]);
            assert(u[k] == t[k]);
        } else if digit_range(t) {
            let k = choose|k: int|
                0 < k < t.len() - 1 && (t[k] == '/' || t[k] == '-') && #[trigger] digit_run(
                    t.take(k),
                ) && digit_run(t.skip(k + 1));
            assert(u.take(k) =~= t.take(k));
            assert(u.skip(k + 1) =~= t.skip(k + 1).push(c));
            lemma_digit_run_push(t.skip(k + 1), c);
            assert(u[k] == t[k]);
        }
    }
}

/// What each state of the token automaton means about the text read so far.
proof fn lemma_token_run(t: Seq<char>)
    requires
        !cron_digit(','),
        !cron_digit('/'),
        !cron_digit('-'),
        !cron_digit('*'),
        !cron_digit(' '),
    ensures
        (token_run(t) == TokenState::Start) <==> t.len() == 0,
        (token_run(t) == TokenState::Star) <==> t == seq!['*'],
        (token_run(t) == TokenState::Digits) <==> digit_run(t),
        (token_run(t) == TokenState::Comma) <==> (t.len() > 0 && t.last() == ',' && digit_list(
            t.drop_last(),
        )),
        (token_run(t) == TokenState::ListDigits) <==> (digit_list(t) && !digit_run(t)),
        (token_run(t) == TokenState::Separator) <==> (t.len() > 0 && (t.last() == '/' || t.last()
            == '-') && digit_run(t.drop_last())),
        (token_run(t) == TokenState::RangeDigits) <==> digit_range(t),
        (token_run(t) == TokenState::Space) <==> (t.len() > 0 && t.last() == ' ' && cron_field(
            t.drop_last(),
        )),
    decreases t.len(),
{
    if t.len() == 0 {
        assert(!digit_range(t));
        assert(t != seq!['*']);
    } else {
        let w = t.drop_last();
        let c = t.last();
        lemma_token_run(w);
        assert(t =~= w.push(c));
        lemma_digit_run_push(w, c);
        lemma_digit_list_push(w, c);
        lemma_digit_range_push(w, c);
        assert(t.drop_last() =~= w);
        // a digit run is a digit list
        if digit_run(w) {
            assert forall|i: int| 0 <= i < w.len() implies (cron_digit(#[trigger] w[i]) || (w[i]
                == ',' && 0 < i < w.len() - 1 && cron_digit(w[i - 1]) && cron_digit(
                w[i + 1],
            ))) by {}
        }
        if digit_run(t) {
            assert forall|i: int| 0 <= i < t.len() implies (cron_digit(#[trigger] t[i]) || (t[i]
                == ',' && 0 < i < t.len() - 1 && cron_digit(t[i - 1]) && cron_digit(
                t[i + 1],
            ))) by {}
        }
        // the star is one character long
        if t == seq!['*'] {
            assert(w.len() == 0);
        }
        if w.len() == 0 && c == '*' {
            assert(t =~= seq!['*']);
        }
        // no digit run, list or range holds a star, a space or a separator at its end
        if digit_list(t) {
            assert(cron_digit(t[t.len() - 1]));
        }
        if digit_range(t) {
            let k = choose|k: int|
                0 < k < t.len() - 1 && (t[k] == '/' || t[k] == '-') && #[trigger] digit_run(
                    t.take(k),
                ) && digit_run(t.skip(k + 1));
            assert(t.skip(k + 1)[t.skip(k + 1).len() - 1] == t[t.len() - 1]);
            assert(t.take(k)[0] == t[0]);
            assert(cron_digit(t[0]));
            if digit_list(t) {
                assert(cron_digit(t[k]) || t[k] == ',');
            }
        }
        if digit_range(w) {
            let k = choose|k: int|
                0 < k < w.len() - 1 && (w[k] == '/' || w[k] == '-') && #[trigger] digit_run(
                    w.take(k),
                ) && digit_run(w.skip(k + 1));
            assert(w.take(k)[0] == w[0]);
            assert(cron_digit(w[0]));
            if digit_list(w) {
                assert(cron_digit(w[k]) || w[k] == ',');
            }
            assert(w[0] != '*');
            assert(w.len() != 1);
        }
        if digit_list(w) {
            assert(cron_digit(w[0]));
            assert(w != seq!['*']);
        }
        if w.len() > 0 && w.last() == ',' {
            assert(!digit_list(w)) by {
                if digit_list(w) {
                    assert(cron_digit(w[w.len() - 1]));
                }
            }
        }
        if w.len() > 0 && (w.last() == '/' || w.last() == '-' || w.last() == ' ') {
            assert(!digit_list(w)) by {
                if digit_list(w) {
                    assert(cron_digit(w[w.len() - 1]));
                }
            }
            assert(!digit_range(w)) by {
                if digit_range(w) {
                    let k = choose|k: int|
                        0 < k < w.len() - 1 && (w[k] == '/' || w[k] == '-') && #[trigger] digit_run(
                            w.take(k),
                        ) && digit_run(w.skip(k + 1));
                    assert(w.skip(k + 1)[w.skip(k + 1).len() - 1] == w[w.len() - 1]);
                }
            }
            assert(w != seq!['*']) by {
                if w == seq!['*'] {
                    assert(w[0] == '*');
                }
            }
        }
        if w == seq!['*'] {
            assert(w[0] == '*');
            assert(!digit_run(w));
        }
    }
}

proof fn lemma_token_accepting(t: Seq<char>)
    requires
        !cron_digit(','),
        !cron_digit('/'),
        !cron_digit('-'),
        !cron_digit('*'),
        !cron_digit(' '),
    ensures
        token_accepting(token_run(t)) <==> cron_token(t),
{
    lemma_token_run(t);
    if digit_list(t) && !digit_run(t) {
    }
    if t.len() > 0 && t.last() == ' ' {
        // a field never ends with a space
        assert(!digit_list(t)) by {
            if digit_list(t) {
                assert(cron_digit(t[t.len() - 1]));
            }
        }
        assert(!digit_range(t)) by {
            if digit_range(t) {
                let k = choose|k: int|
                    0 < k < t.len() - 1 && (t[k] == '/' || t[k] == '-') && #[trigger] digit_run(
                        t.take(k),
                    ) && digit_run(t.skip(k + 1));
                assert(t.skip(k + 1)[t.skip(k + 1).len() - 1] == t[t.len() - 1]);
            }
        }
        assert(t != seq!['*']) by {
            if t == seq!['*'] {
                assert(t[0] == '*');
            }
        }
    }
}

/// Once the automaton is dead, it stays dead.
proof fn lemma_dead_absorbs(t: Seq<char>, u: Seq<char>)
    requires
        token_run(t) == TokenState::Dead,
    ensures
        token_run(t + u) == TokenState::Dead,
    decreases u.len(),
{
    if u.len() > 0 {
        lemma_dead_absorbs(t, u.drop_last());
        assert((t + u).drop_last() =~= t + u.drop_last());
    } else {
        assert(t + u =~= t);
    }
}

/// The automaton's step, in executable form.
fn step(st: TokenState, c: char, digit: bool) -> (r: TokenState)
    requires
        digit == cron_digit(c),
    ensures
        r == token_step(st, c),
{
    match st {
        TokenState::Start => if c == '*' {
            TokenState::Star
        } else if digit {
            TokenState::Digits
        } else {
            TokenState::Dead
        },
        TokenState::Star => if c == ' ' {
            TokenState::Space
        } else {
            TokenState::Dead
        },
        TokenState::Digits => if digit {
            TokenState::Digits
        } else if c == ',' {
            TokenState::Comma
        } else if c == '/' || c == '-' {
            TokenState::Separator
        } else if c == ' ' {
            TokenState::Space
        } else {
            TokenState::Dead
        },
        TokenState::Comma => if digit {
            TokenState::ListDigits
        } else {
            TokenState::Dead
        },
        TokenState::ListDigits => if digit {
            TokenState::ListDigits
        } else if c == ',' {
            TokenState::Comma
        } else if c == ' ' {
            TokenState::Space
        } else {
            TokenState::Dead
        },
        TokenState::Separator => if digit {
            TokenState::RangeDigits
        } else {
            TokenState::Dead
        },
        TokenState::RangeDigits => if digit {
            TokenState::RangeDigits
        } else if c == ' ' {
            TokenState::Space
        } else {
            TokenState::Dead
        },
        TokenState::Space => TokenState::Dead,
        TokenState::Dead => TokenState::Dead,
    }
}

fn is_accepting(st: TokenState) -> (r: bool)
    ensures
        r == token_accepting(st),
{
    match st {
        TokenState::Star | TokenState::Digits | TokenState::ListDigits | TokenState::RangeDigits
        | TokenState::Space => true,
        _ => false,
    }
}

/// For each character, whether it belongs to the grammar's class `\d`. The
/// regex crate is asked once per distinct non-ASCII character.
fn cron_digits(chars: &Vec<char>) -> (r: Vec<bool>)
    ensures
        r.len() == chars.len(),
        forall|i: int| 0 <= i < chars.len() ==> r[i] == cron_digit(#[trigger] chars[i]),
{
    let n = chars.len();
    let mut digits: Vec<bool> = Vec::new();
    // non-ASCII characters already asked about, with the answers
    let mut seen: Vec<(char, bool)> = Vec::new();
    let mut k: usize = 0;
    while k < n
        invariant
            k <= n,
            n == chars.len(),
            digits.len() == k,
            forall|i: int| 0 <= i < k ==> digits[i] == cron_digit(#[trigger] chars[i]),
            forall|j: int|
                0 <= j < seen.len() ==> (#[trigger] seen[j]).1 == cron_digit(seen[j].0),
        decreases n - k,
    {
        let c = chars[k];
        let d = if (c as u32) < 128 {
            '0' <= c && c <= '9'
        } else {
            let mut found: Option<bool> = None;
            let mut j: usize = 0;
            while j < seen.len()
                invariant
                    j <= seen.len(),
                    forall|m: int|
                        0 <= m < seen.len() ==> (#[trigger] seen[m]).1 == cron_digit(seen[m].0),
                    found matches Some(b) ==> b == cron_digit(c),
                decreases seen.len() - j,
            {
                if seen[j].0 == c {
                    found = Some(seen[j].1);
                }
                j = j + 1;
            }
            match found {
                Some(b) => b,
                None => {
                    let b = regex_is_decimal_digit(c);
                    seen.push((c, b));
                    b
                },
            }
        };
        digits.push(d);
        k = k + 1;
    }
    digits
}


proof fn lemma_bounds_increase(s: Seq<char>, b: Seq<int>, n: nat, i: int, j: int)
    requires
        token_bounds(s, b, n),
        0 <= i <= j <= n,
    ensures
        0 <= b[i] <= b[j] <= s.len(),
    decreases j - i,
{
    if i < j {
        lemma_bounds_increase(s, b, n, i, j - 1);
        assert(b[j - 1] < b[j - 1 + 1]);
        lemma_bounds_increase_to_end(s, b, n, j);
    } else {
        lemma_bounds_increase_to_end(s, b, n, j);
        lemma_bounds_from_start(s, b, n, i);
    }
}

proof fn lemma_bounds_increase_to_end(s: Seq<char>, b: Seq<int>, n: nat, j: int)
    requires
        token_bounds(s, b, n),
        0 <= j <= n,
    ensures
        b[j] <= s.len(),
    decreases n - j,
{
    if j < n {
        lemma_bounds_increase_to_end(s, b, n, j + 1);
        assert(b[j] < b[j + 1]);
    }
}

proof fn lemma_bounds_from_start(s: Seq<char>, b: Seq<int>, n: nat, j: int)
    requires
        token_bounds(s, b, n),
        0 <= j <= n,
    ensures
        0 <= b[j],
    decreases j,
{
    if j > 0 {
        lemma_bounds_from_start(s, b, n, j - 1);
        assert(b[j - 1] < b[j - 1 + 1]);
    }
}

/// Peeling the last token off a prefix of `s`.
proof fn lemma_tokens_last(s: Seq<char>, q: int, n: nat)
    requires
        0 <= q <= s.len(),
    ensures
        cron_tokens(s.take(q), n + 1) <==> exists|w: int|
            0 <= w < q && #[trigger] cron_tokens(s.take(w), n) && cron_token(s.subrange(w, q)),
{
    let t = s.take(q);
    if cron_tokens(t, n + 1) {
        let b = choose|b: Seq<int>| #[trigger] token_bounds(t, b, n + 1);
        let w = b[n as int];
        lemma_bounds_increase(t, b, n + 1, n as int, n as int);
        assert(b[n as int] < b[n as int + 1]);
        let c = b.drop_last();
        assert forall|i: int| 0 <= i < n implies #[trigger] c[i] < c[i + 1] && cron_token(
            s.take(w).subrange(c[i], c[i + 1]),
        ) by {
            assert(b[i] < b[i + 1]);
            lemma_bounds_increase(t, b, n + 1, i, i + 1);
            lemma_bounds_increase(t, b, n + 1, i + 1, n as int);
            assert(s.take(w).subrange(c[i], c[i + 1]) =~= t.subrange(b[i], b[i + 1]));
        }
        assert(token_bounds(s.take(w), c, n));
        assert(t.subrange(w, q) =~= s.subrange(w, q));
        assert(cron_tokens(s.take(w), n));
    }
    if exists|w: int|
        0 <= w < q && #[trigger] cron_tokens(s.take(w), n) && cron_token(s.subrange(w, q)) {
        let w = choose|w: int|
            0 <= w < q && #[trigger] cron_tokens(s.take(w), n) && cron_token(s.subrange(w, q));
        let c = choose|b: Seq<int>| #[trigger] token_bounds(s.take(w), b, n);
        let b = c.push(q);
        assert forall|i: int| 0 <= i < n + 1 implies #[trigger] b[i] < b[i + 1] && cron_token(
            t.subrange(b[i], b[i + 1]),
        ) by {
            if i < n {
                assert(c[i] < c[i + 1]);
                lemma_bounds_increase(s.take(w), c, n, i, i + 1);
                lemma_bounds_increase(s.take(w), c, n, i + 1, n as int);
                assert(t.subrange(b[i], b[i + 1]) =~= s.take(w).subrange(c[i], c[i + 1]));
            } else {
                assert(b[i] == w);
                assert(t.subrange(w, q) =~= s.subrange(w, q));
            }
        }
        assert(token_bounds(t, b, n + 1));
    }
}

/// Some position `p` with `1 <= p < bound` and `p <= k`, where a token of the
/// text `s` ended (`ends[p - 1]`), begins a token that ends at `k + 1`.
pub open spec fn token_after_end(s: Seq<char>, ends: Seq<bool>, bound: int, k: int) -> bool {
    exists|p: int|
        1 <= p < bound && p <= k && #[trigger] ends[p - 1] && cron_token(s.subrange(p, k + 1))
}

/// No text splits its empty prefix into one token or more.
proof fn lemma_no_tokens_in_nothing(s: Seq<char>, n: nat)
    requires
        n >= 1,
    ensures
        !cron_tokens(s.take(0), n),
{
    if cron_tokens(s.take(0), n) {
        let b = choose|b: Seq<int>| #[trigger] token_bounds(s.take(0), b, n);
        assert(b[0int] < b[0int + 1]);
        lemma_bounds_increase(s.take(0), b, n, 1, n as int);
    }
}

/// Only the empty prefix is zero tokens.
proof fn lemma_zero_tokens(s: Seq<char>, w: int)
    requires
        0 <= w <= s.len(),
    ensures
        cron_tokens(s.take(w), 0) <==> w == 0,
{
    if w == 0 {
        assert(token_bounds(s.take(w), seq![0int], 0));
    }
}

/// Sets `ends[q - 1]` for every `q` such that `chars[p..q]` is a token.
fn mark_token_ends(chars: &Vec<char>, digits: &Vec<bool>, p: usize, ends: &mut Vec<bool>)
    requires
        p < chars.len(),
        digits.len() == chars.len(),
        forall|i: int| 0 <= i < chars.len() ==> digits[i] == cron_digit(#[trigger] chars[i]),
        old(ends).len() == chars.len(),
    ensures
        final(ends).len() == old(ends).len(),
        forall|k: int|
            0 <= k < chars.len() ==> #[trigger] final(ends)[k] == (old(ends)[k] || (p <= k
                && cron_token(chars@.subrange(p as int, k + 1)))),
{
    let n = chars.len();
    let ghost s = chars@;
    let ghost start = ends@;
    assert(!cron_digit(',') && !cron_digit('/') && !cron_digit('-') && !cron_digit('*')
        && !cron_digit(' '));
    let mut st = TokenState::Start;
    let mut i = p;
    assert(s.subrange(p as int, p as int).len() == 0);
    while i < n && st != TokenState::Dead
        invariant
            p <= i <= n,
            n == chars.len(),
            s == chars@,
            digits.len() == n,
            forall|k: int| 0 <= k < n ==> digits[k] == cron_digit(#[trigger] chars[k]),
            ends.len() == n,
            start.len() == n,
            st == token_run(s.subrange(p as int, i as int)),
            !cron_digit(',') && !cron_digit('/') && !cron_digit('-') && !cron_digit('*')
                && !cron_digit(' '),
            forall|k: int|
                0 <= k < n ==> #[trigger] ends[k] == (start[k] || (p <= k < i && cron_token(
                    s.subrange(p as int, k + 1),
                ))),
        decreases n - i,
    {
        let c = chars[i];
        st = step(st, c, digits[i]);
        proof {
            let t = s.subrange(p as int, i + 1);
            assert(t.drop_last() =~= s.subrange(p as int, i as int));
            assert(t.last() == c);
            lemma_token_accepting(t);
        }
        if is_accepting(st) {
            ends.set(i, true);
        }
        i = i + 1;
    }
    proof {
        if i < n {
            assert forall|k: int| i <= k < n implies !cron_token(
                #[trigger] s.subrange(p as int, k + 1),
            ) by {
                let t = s.subrange(p as int, i as int);
                let u = s.subrange(i as int, k + 1);
                lemma_dead_absorbs(t, u);
                assert(t + u =~= s.subrange(p as int, k + 1));
                lemma_token_accepting(s.subrange(p as int, k + 1));
            }
        }
    }
}

/// Whether `expr` is a cron expression of the accepted form: five fields,
/// each `*`, a comma-separated list of numbers, or two numbers joined by `/`
/// or `-`, each field optionally followed by one space.
pub fn is_cron_expression(expr: &str) -> (r: bool)
    ensures
        r == is_cron_pattern(expr@),
{
    let chars = crate::text::chars_of(expr);
    let n = chars.len();
    let ghost s = chars@;
    if n == 0 {
        proof {
            assert(s.take(0) =~= s);
            lemma_no_tokens_in_nothing(s, 5);
        }
        return false;
    }
    let digits = cron_digits(&chars);
    // ends[k]: the first k + 1 characters are `round` tokens
    let mut ends: Vec<bool> = vec![false; n];
    mark_token_ends(&chars, &digits, 0, &mut ends);
    proof {
        assert forall|k: int| 0 <= k < n implies #[trigger] ends[k] == cron_tokens(
            s.take(k + 1),
            1,
        ) by {
            lemma_tokens_last(s, k + 1, 0);
            lemma_zero_tokens(s, 0);
            if cron_tokens(s.take(k + 1), 1) {
                let w = choose|w: int|
                    0 <= w < k + 1 && #[trigger] cron_tokens(s.take(w), 0) && cron_token(
                        s.subrange(w, k + 1),
                    );
                lemma_zero_tokens(s, w);
            }
        }
    }
    let mut round: usize = 1;
    while round < 5
        invariant
            1 <= round <= 5,
            n == chars.len(),
            n > 0,
            s == chars@,
            digits.len() == n,
            forall|i: int| 0 <= i < n ==> digits[i] == cron_digit(#[trigger] chars[i]),
            ends.len() == n,
            forall|k: int|
                0 <= k < n ==> #[trigger] ends[k] == cron_tokens(s.take(k + 1), round as nat),
        decreases 5 - round,
    {
        let mut next: Vec<bool> = vec![false; n];
        let mut p: usize = 1;
        while p < n
            invariant
                1 <= p <= n,
                n == chars.len(),
                s == chars@,
                digits.len() == n,
                forall|i: int| 0 <= i < n ==> digits[i] == cron_digit(#[trigger] chars[i]),
                ends.len() == n,
                next.len() == n,
                forall|k: int|
                    0 <= k < n ==> #[trigger] next[k] == token_after_end(s, ends@, p as int, k),
            decreases n - p,
        {
            let ghost before = next@;
            if ends[p - 1] {
                mark_token_ends(&chars, &digits, p, &mut next);
            }
            proof {
                assert forall|k: int| 0 <= k < n implies #[trigger] next[k] == token_after_end(
                    s,
                    ends@,
                    p + 1,
                    k,
                ) by {
                    if token_after_end(s, ends@, p + 1, k) {
                        let w = choose|w: int|
                            1 <= w < p + 1 && w <= k && #[trigger] ends@[w - 1] && cron_token(
                                s.subrange(w, k + 1),
                            );
                        if w < p {
                            assert(token_after_end(s, ends@, p as int, k));
                        }
                    }
                    if token_after_end(s, ends@, p as int, k) {
                        let w = choose|w: int|
                            1 <= w < p && w <= k && #[trigger] ends@[w - 1] && cron_token(
                                s.subrange(w, k + 1),
                            );
                        assert(token_after_end(s, ends@, p + 1, k));
                    }
                    if next[k] && !before[k] {
                        assert(ends@[p - 1]);
                        assert(token_after_end(s, ends@, p + 1, k));
                    }
                }
            }
            p = p + 1;
        }
        proof {
            assert forall|k: int| 0 <= k < n implies #[trigger] next[k] == cron_tokens(
                s.take(k + 1),
                (round + 1) as nat,
            ) by {
                lemma_tokens_last(s, k + 1, round as nat);
                if token_after_end(s, ends@, n as int, k) {
                    let w = choose|w: int|
                        1 <= w < n && w <= k && #[trigger] ends@[w - 1] && cron_token(
                            s.subrange(w, k + 1),
                        );
                    assert(ends[w - 1] == cron_tokens(s.take(w - 1 + 1), round as nat));
                    assert(w - 1 + 1 == w);
                }
                if cron_tokens(s.take(k + 1), (round + 1) as nat) {
                    let w = choose|w: int|
                        0 <= w < k + 1 && #[trigger] cron_tokens(s.take(w), round as nat)
                            && cron_token(s.subrange(w, k + 1));
                    lemma_no_tokens_in_nothing(s, round as nat);
                    assert(w != 0);
                    assert(ends[w - 1] == cron_tokens(s.take(w - 1 + 1), round as nat));
                    assert(w - 1 + 1 == w);
                    assert(token_after_end(s, ends@, n as int, k));
                }
            }
        }
        ends = next;
        round = round + 1;
    }
    proof {
        assert(s.take(n as int) =~= s);
        assert(s == expr@);
    }
    ends[n - 1]
}

/// The six-field schedule that the job runner reads for a five-field cron
/// expression: the seconds field `0` in front.
pub open spec fn job_schedule_text(cron_expr: Seq<char>) -> Seq<char> {
    "0 "@ + cron_expr
}

/// The schedule of the job for a task's cron expression.
pub fn job_schedule(cron_expr: &str) -> (r: String)
    ensures
        r@ == job_schedule_text(cron_expr@),
{
    let mut s = String::new();
    s.append("0 ");
    s.append(cron_expr);
    s
}

} // verus!
