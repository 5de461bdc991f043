//! The input-sequence language: a comma-separated list of timed key actions.

use vstd::prelude::*;
use crate::keys::{GbaKeyMappings, Key, SequenceError, lower_text, raw_key_of, raw_name_for, parse_key};

verus! {

/// One step of an input sequence.
#[derive(Debug, Clone, Copy, PartialEq, Eq, Structural)]
pub enum InputAction {
    /// Press and release a key, holding it down for the given time if any.
    Press { key: Key, duration_ms: Option<u64> },
    /// Press a key down without releasing it.
    KeyDown { key: Key },
    /// Release a key.
    KeyUp { key: Key },
    /// Pause for the given time.
    Wait { duration_ms: u64 },
}

/// What an error of reading a sequence reports, as text.
pub enum Fault {
    Malformed(Seq<char>),
    Unsupported(Seq<char>),
}

impl View for SequenceError {
    type V = Fault;

    open spec fn view(&self) -> Fault {
        match self {
            SequenceError::MalformedSequence(t) => Fault::Malformed(t@),
            SequenceError::UnsupportedKey(k) => Fault::Unsupported(k@),
        }
    }
}

/// Whether a character has the Unicode White_Space property.
pub open spec fn is_white(c: char) -> bool {
    ('\u{9}' <= c && c <= '\u{d}') || c == ' ' || c == '\u{85}' || c == '\u{a0}' || c == '\u{1680}'
        || ('\u{2000}' <= c && c <= '\u{200a}') || c == '\u{2028}' || c == '\u{2029}' || c
        == '\u{202f}' || c == '\u{205f}' || c == '\u{3000}'
}

fn white(c: char) -> (r: bool)
    ensures
        r == is_white(c),
{
    ('\u{9}' <= c && c <= '\u{d}') || c == ' ' || c == '\u{85}' || c == '\u{a0}' || c == '\u{1680}'
        || ('\u{2000}' <= c && c <= '\u{200a}') || c == '\u{2028}' || c == '\u{2029}' || c
        == '\u{202f}' || c == '\u{205f}' || c == '\u{3000}'
}

/// A text without its leading white space.
pub open spec fn trim_start(s: Seq<char>) -> Seq<char>
    decreases s.len(),
{
    if s.len() > 0 && is_white(s[0]) {
        trim_start(s.drop_first())
    } else {
        s
    }
}

/// A text without its trailing white space.
pub open spec fn trim_end(s: Seq<char>) -> Seq<char>
    decreases s.len(),
{
    if s.len() > 0 && is_white(s.last()) {
        trim_end(s.drop_last())
    } else {
        s
    }
}

/// A text without its leading and trailing white space, as `str::trim`
/// gives it.
pub open spec fn trimmed(s: Seq<char>) -> Seq<char> {
    trim_end(trim_start(s))
}

/// Removes leading and trailing white space.
pub fn trim(s: &str) -> (r: &str)
    ensures
        r@ == trimmed(s@),
{
    let n = s.unicode_len();
    let mut i: usize = 0;
    assert(s@.subrange(0, n as int) =~= s@);
    while i < n && white(s.get_char(i))
        invariant
            n == s@.len(),
            i <= n,
            trim_start(s@) == trim_start(s@.subrange(i as int, n as int)),
        decreases n - i,
    {
        assert(s@.subrange(i as int, n as int).drop_first() =~= s@.subrange(i + 1, n as int));
        i = i + 1;
    }
    let mut j: usize = n;
    while j > i && white(s.get_char(j - 1))
        invariant
            n == s@.len(),
            i <= j <= n,
            trim_start(s@) == s@.subrange(i as int, n as int),
            trimmed(s@) == trim_end(s@.subrange(i as int, j as int)),
        decreases j,
    {
        assert(s@.subrange(i as int, j as int).drop_last() =~= s@.subrange(i as int, j - 1));
        j = j - 1;
    }
    s.substring_char(i, j)
}

/// The pieces of a text between its commas, the last piece still open.
pub open spec fn split_commas(s: Seq<char>) -> Seq<Seq<char>>
    decreases s.len(),
{
    if s.len() == 0 {
        seq![Seq::empty()]
    } else {
        let prev = split_commas(s.drop_last());
        if s.last() == ',' {
            prev.push(Seq::empty())
        } else {
            prev.update(prev.len() - 1, prev.last().push(s.last()))
        }
    }
}

/// Whether `j` is where the first `c` of `s` stands, or its end if none.
pub open spec fn stops_at(s: Seq<char>, c: char, j: int) -> bool {
    &&& 0 <= j <= s.len()
    &&& (j == s.len() || s[j] == c)
    &&& forall|k: int| 0 <= k < j ==> s[k] != c
}

/// The position of the first `c` in `s`, or its length if there is none.
pub open spec fn stop_of(s: Seq<char>, c: char) -> int {
    choose|j: int| stops_at(s, c, j)
}

proof fn lemma_stop_unique(s: Seq<char>, c: char, j: int)
    requires
        stops_at(s, c, j),
    ensures
        stop_of(s, c) == j,
{
    let k = stop_of(s, c);
    assert(stops_at(s, c, k));
    if k < j {
        assert(s[k] != c);
    } else if j < k {
        assert(s[j] != c);
    }
}

/// The position of the first `c` in `s[from..]`, or the length of `s`.
fn find_char(s: &str, c: char, from: usize) -> (r: usize)
    requires
        from <= s@.len(),
    ensures
        from <= r <= s@.len(),
        stop_of(s@.subrange(from as int, s@.len() as int), c) == r - from,
{
    let n = s.unicode_len();
    let mut j = from;
    while j < n && s.get_char(j) != c
        invariant
            n == s@.len(),
            from <= j <= n,
            forall|k: int| from <= k < j ==> s@[k] != c,
        decreases n - j,
    {
        j = j + 1;
    }
    proof {
        let t = s@.subrange(from as int, s@.len() as int);
        assert(forall|k: int| 0 <= k < t.len() ==> t[k] == s@[from + k]);
        assert(stops_at(t, c, j - from));
        lemma_stop_unique(t, c, j - from);
    }
    j
}

pub open spec fn is_digit(c: char) -> bool {
    '0' <= c && c <= '9'
}

pub open spec fn digits_value(s: Seq<char>) -> nat
    decreases s.len(),
{
    if s.len() == 0 {
        0
    } else {
        digits_value(s.drop_last()) * 10 + ((s.last() as nat) - ('0' as nat)) as nat
    }
}

proof fn lemma_digits_grow(s: Seq<char>, i: int)
    requires
        0 <= i <= s.len(),
        forall|k: int| 0 <= k < s.len() ==> is_digit(#[trigger] s[k]),
    ensures
        digits_value(s.subrange(0, i)) <= digits_value(s),
    decreases s.len() - i,
{
    if i < s.len() {
        lemma_digits_grow(s, i + 1);
        assert(s.subrange(0, i + 1).drop_last() =~= s.subrange(0, i));
    } else {
        assert(s.subrange(0, i) =~= s);
    }
}

/// The digits of a decimal numeral, after an optional plus sign.
pub open spec fn numeral_digits(s: Seq<char>) -> Seq<char> {
    if s.len() > 0 && s[0] == '+' {
        s.drop_first()
    } else {
        s
    }
}

/// The unsigned 64-bit value of a decimal numeral: an optional plus sign
/// and one or more digits, with no other character.
pub open spec fn decimal_of(s: Seq<char>) -> Option<u64> {
    let d = numeral_digits(s);
    if d.len() > 0 && (forall|k: int| 0 <= k < d.len() ==> is_digit(#[trigger] d[k]))
        && digits_value(d) <= u64::MAX {
        Some(digits_value(d) as u64)
    } else {
        None
    }
}

/// Reads `s[from..to]` as a decimal numeral.
pub fn parse_decimal(s: &str, from: usize, to: usize) -> (r: Option<u64>)
    requires
        from <= to <= s@.len(),
    ensures
        r == decimal_of(s@.subrange(from as int, to as int)),
{
    let ghost t = s@.subrange(from as int, to as int);
    let mut i = from;
    if i < to && s.get_char(i) == '+' {
        i = i + 1;
    }
    let ghost start = i;
    let ghost d = numeral_digits(t);
    assert(d =~= s@.subrange(start as int, to as int));
    if i == to {
        return None;
    }
    let mut v: u64 = 0;
    while i < to
        invariant
            start <= i <= to <= s@.len(),
            t == s@.subrange(from as int, to as int),
            d == numeral_digits(t),
            d == s@.subrange(start as int, to as int),
            forall|k: int| start <= k < i ==> is_digit(#[trigger] s@[k]),
            v as nat == digits_value(s@.subrange(start as int, i as int)),
        decreases to - i,
    {
        let c = s.get_char(i);
        assert(s@.subrange(start as int, i + 1).drop_last() =~= s@.subrange(start as int, i as int));
        if !('0' <= c && c <= '9') {
            assert(d[i - start] == c);
            assert(!is_digit(d[i - start]));
            return None;
        }
        let digit = (c as u32 - '0' as u32) as u64;
        if v > (u64::MAX - digit) / 10 {
            proof {
                assert(v * 10 + digit > u64::MAX) by (nonlinear_arith)
                    requires
                        v > (u64::MAX - digit) / 10,
                        digit <= 9,
                ;
                assert(forall|k: int| 0 <= k < d.len() ==> d[k] == s@[start + k]);
                if forall|k: int| 0 <= k < d.len() ==> is_digit(#[trigger] d[k]) {
                    lemma_digits_grow(d, i + 1 - start);
                    assert(d.subrange(0, i + 1 - start) =~= s@.subrange(start as int, i + 1));
                }
            }
            return None;
        }
        v = v * 10 + digit;
        i = i + 1;
    }
    assert(s@.subrange(start as int, i as int) =~= d);
    Some(v)
}


/// What one trimmed token of a sequence contributes.
pub enum Step {
    /// An empty token, skipped.
    Skip,
    Act(InputAction),
    Fail(Fault),
}

/// A press of the key that `k` resolves to, held for `d` if given.
pub open spec fn key_step(k: Seq<char>, m: GbaKeyMappings, d: Option<u64>) -> Step {
    let name = raw_name_for(k, m);
    match raw_key_of(lower_text(name)) {
        Some(key) => Step::Act(InputAction::Press { key, duration_ms: d }),
        None => Step::Fail(Fault::Unsupported(name)),
    }
}

/// The meaning of one trimmed token: `wait:<n>`, `<key>:<n>` or `<key>`.
pub open spec fn token_step(t: Seq<char>, m: GbaKeyMappings) -> Step {
    if t.len() == 0 {
        Step::Skip
    } else if t.len() >= 5 && t.subrange(0, 5) == "wait:"@ {
        match decimal_of(t.subrange(5, t.len() as int)) {
            Some(v) => Step::Act(InputAction::Wait { duration_ms: v }),
            None => Step::Fail(Fault::Malformed(t)),
        }
    } else if stop_of(t, ':') < t.len() {
        let c = stop_of(t, ':');
        let rest = t.subrange(c + 1, t.len() as int);
        match decimal_of(rest.subrange(0, stop_of(rest, ':'))) {
            Some(v) => key_step(t.subrange(0, c), m, Some(v)),
            None => Step::Fail(Fault::Malformed(t)),
        }
    } else {
        key_step(t, m, None)
    }
}

/// The actions of a list of raw tokens, or the first failure among them.
pub open spec fn parse_steps(toks: Seq<Seq<char>>, m: GbaKeyMappings) -> Result<
    Seq<InputAction>,
    Fault,
>
    decreases toks.len(),
{
    if toks.len() == 0 {
        Ok(Seq::empty())
    } else {
        match parse_steps(toks.drop_last(), m) {
            Err(f) => Err(f),
            Ok(acts) => match token_step(trimmed(toks.last()), m) {
                Step::Skip => Ok(acts),
                Step::Act(a) => Ok(acts.push(a)),
                Step::Fail(f) => Err(f),
            },
        }
    }
}

/// The actions that a textual sequence describes, or the first failure.
pub open spec fn sequence_of(input: Seq<char>, m: GbaKeyMappings) -> Result<Seq<InputAction>, Fault> {
    parse_steps(split_commas(input), m)
}

pub open spec fn key_outcome(r: Result<Key, SequenceError>, k: Seq<char>, m: GbaKeyMappings, d: Option<u64>) -> bool {
    match key_step(k, m, d) {
        Step::Act(a) => r matches Ok(key) && a == (InputAction::Press { key, duration_ms: d }),
        Step::Fail(f) => r matches Err(e) && e@ == f,
        Step::Skip => false,
    }
}

/// Whether a token's result agrees with its meaning.
pub open spec fn step_outcome(r: Result<Option<InputAction>, SequenceError>, s: Step) -> bool {
    match s {
        Step::Skip => r == Ok::<Option<InputAction>, SequenceError>(None),
        Step::Act(a) => r == Ok::<Option<InputAction>, SequenceError>(Some(a)),
        Step::Fail(f) => r matches Err(e) && e@ == f,
    }
}

proof fn lemma_key_outcome(r: Result<Key, SequenceError>, k: Seq<char>, m: GbaKeyMappings, d: Option<u64>)
    requires
        r is Ok <==> raw_key_of(lower_text(raw_name_for(k, m))) is Some,
        r matches Ok(key) ==> raw_key_of(lower_text(raw_name_for(k, m))) == Some(key),
        r matches Err(e) ==> e.is_unsupported(raw_name_for(k, m)),
    ensures
        key_outcome(r, k, m, d),
{
}

/// Reads one trimmed token.
pub fn parse_token(t: &str, key_mappings: &GbaKeyMappings) -> (r: Result<Option<InputAction>, SequenceError>)
    ensures
        step_outcome(r, token_step(t@, *key_mappings)),
{
    let n = t.unicode_len();
    if n == 0 {
        return Ok(None);
    }
    if n >= 5 && crate::keys::same_text(t.substring_char(0, 5), "wait:") {
        return match parse_decimal(t, 5, n) {
            Some(v) => Ok(Some(InputAction::Wait { duration_ms: v })),
            None => Err(SequenceError::MalformedSequence(String::from_str(t))),
        };
    }
    let c = find_char(t, ':', 0);
    assert(t@.subrange(0, n as int) =~= t@);
    if c < n {
        let d = find_char(t, ':', c + 1);
        proof {
            let rest = t@.subrange(c + 1, n as int);
            assert(rest.subrange(0, d - (c + 1)) =~= t@.subrange(c + 1, d as int));
        }
        match parse_decimal(t, c + 1, d) {
            None => Err(SequenceError::MalformedSequence(String::from_str(t))),
            Some(v) => {
                let k = t.substring_char(0, c);
                let r = parse_key(k, key_mappings);
                proof {
                    lemma_key_outcome(r, k@, *key_mappings, Some(v));
                }
                match r {
                    Ok(key) => Ok(Some(InputAction::Press { key, duration_ms: Some(v) })),
                    Err(e) => Err(e),
                }
            },
        }
    } else {
        let r = parse_key(t, key_mappings);
        proof {
            lemma_key_outcome(r, t@, *key_mappings, None);
        }
        match r {
            Ok(key) => Ok(Some(InputAction::Press { key, duration_ms: None })),
            Err(e) => Err(e),
        }
    }
}


/// The spans of `s` between its commas.
fn comma_spans(s: &str) -> (r: Vec<(usize, usize)>)
    ensures
        r@.len() == split_commas(s@).len(),
        forall|k: int|
            0 <= k < r@.len() ==> {
                let (a, b) = #[trigger] r@[k];
                &&& a <= b <= s@.len()
                &&& split_commas(s@)[k] == s@.subrange(a as int, b as int)
            },
{
    let n = s.unicode_len();
    let mut spans: Vec<(usize, usize)> = Vec::new();
    let mut start: usize = 0;
    let mut i: usize = 0;
    assert(s@.subrange(0, 0) =~= Seq::<char>::empty());
    while i < n
        invariant
            n == s@.len(),
            start <= i <= n,
            split_commas(s@.subrange(0, i as int)).len() == spans@.len() + 1,
            split_commas(s@.subrange(0, i as int)).last() == s@.subrange(start as int, i as int),
            forall|k: int|
                0 <= k < spans@.len() ==> {
                    let (a, b) = #[trigger] spans@[k];
                    &&& a <= b <= s@.len()
                    &&& split_commas(s@.subrange(0, i as int))[k] == s@.subrange(a as int, b as int)
                },
        decreases n - i,
    {
        let ghost prev = split_commas(s@.subrange(0, i as int));
        assert(s@.subrange(0, i + 1).drop_last() =~= s@.subrange(0, i as int));
        if s.get_char(i) == ',' {
            spans.push((start, i));
            start = i + 1;
            assert(s@.subrange(start as int, i + 1) =~= Seq::<char>::empty());
        } else {
            assert(s@.subrange(start as int, i + 1) =~= s@.subrange(start as int, i as int).push(
                s@[i as int],
            ));
        }
        i = i + 1;
    }
    spans.push((start, n));
    assert(s@.subrange(0, n as int) =~= s@);
    spans
}

/// Reads a comma-separated input sequence. Each token is trimmed and empty
/// ones are skipped; `wait:<n>` pauses for `n` ms, `<key>:<n>` holds a key
/// for `n` ms and `<key>` alone clicks it. The first bad token fails the
/// whole sequence.
pub fn parse_input_sequence(input: &str, key_mappings: &GbaKeyMappings) -> (r: Result<
    Vec<InputAction>,
    SequenceError,
>)
    ensures
        r matches Ok(v) ==> sequence_of(input@, *key_mappings) == Ok::<Seq<InputAction>, Fault>(
            v@,
        ),
        r matches Err(e) ==> sequence_of(input@, *key_mappings) == Err::<Seq<InputAction>, Fault>(
            e@,
        ),
{
    let spans = comma_spans(input);
    let ghost toks = split_commas(input@);
    let mut actions: Vec<InputAction> = Vec::new();
    let mut k: usize = 0;
    assert(toks.subrange(0, 0).len() == 0);
    while k < spans.len()
        invariant
            toks == split_commas(input@),
            spans@.len() == toks.len(),
            forall|j: int|
                0 <= j < spans@.len() ==> {
                    let (a, b) = #[trigger] spans@[j];
                    &&& a <= b <= input@.len()
                    &&& toks[j] == input@.subrange(a as int, b as int)
                },
            k <= spans@.len(),
            parse_steps(toks.subrange(0, k as int), *key_mappings) == Ok::<
                Seq<InputAction>,
                Fault,
            >(actions@),
        decreases spans@.len() - k,
    {
        let (a, b) = spans[k];
        let piece = input.substring_char(a, b);
        let t = trim(piece);
        let step = parse_token(t, key_mappings);
        assert(toks.subrange(0, k + 1).drop_last() =~= toks.subrange(0, k as int));
        match step {
            Ok(None) => {},
            Ok(Some(act)) => {
                actions.push(act);
            },
            Err(e) => {
                proof {
                    lemma_prefix_failure(toks, k as int + 1, *key_mappings, e@);
                }
                return Err(e);
            },
        }
        k = k + 1;
    }
    assert(toks.subrange(0, k as int) =~= toks);
    Ok(actions)
}

/// A failure in a prefix of the tokens is the failure of all of them.
proof fn lemma_prefix_failure(toks: Seq<Seq<char>>, k: int, m: GbaKeyMappings, f: Fault)
    requires
        0 <= k <= toks.len(),
        parse_steps(toks.subrange(0, k), m) == Err::<Seq<InputAction>, Fault>(f),
    ensures
        parse_steps(toks, m) == Err::<Seq<InputAction>, Fault>(f),
    decreases toks.len() - k,
{
    if k < toks.len() {
        assert(toks.subrange(0, k + 1).drop_last() =~= toks.subrange(0, k));
        lemma_prefix_failure(toks, k + 1, m, f);
    } else {
        assert(toks.subrange(0, k) =~= toks);
    }
}

} // verus!
