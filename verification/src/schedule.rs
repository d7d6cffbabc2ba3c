//! Schedule expressions: `every N seconds|minutes|hours|days`, N at least 1.
//!
//! Parsing ignores the case of letters, takes a unit in the singular or the plural and
//! lets white space stand anywhere between words.
//!
//! Occurrences are anchored to the Unix epoch: the next occurrence after an instant is
//! the smallest multiple of the interval strictly after it. For every real-world interval
//! this equals wall-clock alignment (`every 10 minutes` fires at :00, :10, :20, ...).

use vstd::prelude::*;

use crate::text;
use crate::time::{Timestamp, MAX_NANOSECOND, MIN_SECOND, NANOS_PER_SECOND};

verus! {

/// Ten years: the longest interval.
pub const MAX_INTERVAL_SECONDS: u64 = 315_360_000;

/// What is wrong with an expression.
pub enum Problem {
    Empty,
    Grammar,
    InvalidNumber(Seq<char>),
    ZeroInterval,
    UnknownUnit(Seq<char>),
    TooLarge,
}

/// A word in lower case, a unit in the singular turned into its plural.
pub open spec fn canonical_word(word: Seq<char>) -> Seq<char> {
    let word = text::lowercase(word);
    if word == "second"@ {
        "seconds"@
    } else if word == "minute"@ {
        "minutes"@
    } else if word == "hour"@ {
        "hours"@
    } else if word == "day"@ {
        "days"@
    } else {
        word
    }
}

/// The words of an expression in canonical form.
pub open spec fn tokens(expr: Seq<char>) -> Seq<Seq<char>> {
    Seq::new(text::words(expr).len(), |i: int| canonical_word(text::words(expr)[i]))
}

/// An expression in normal form: its words in canonical form, one space apart.
pub open spec fn normalized(expr: Seq<char>) -> Seq<char> {
    text::joined(tokens(expr), " "@)
}

pub open spec fn unit_seconds(unit: Seq<char>) -> Option<int> {
    if unit == "seconds"@ {
        Some(1)
    } else if unit == "minutes"@ {
        Some(60)
    } else if unit == "hours"@ {
        Some(3600)
    } else if unit == "days"@ {
        Some(86_400)
    } else {
        None
    }
}

/// The interval, in seconds, of a count and a unit.
pub open spec fn interval_of_count(count: Seq<char>, unit: Seq<char>) -> Result<int, Problem> {
    match text::unsigned_value(count, u64::MAX as nat) {
        None => Err(Problem::InvalidNumber(count)),
        Some(n) => if n == 0 {
            Err(Problem::ZeroInterval)
        } else {
            match unit_seconds(unit) {
                None => Err(Problem::UnknownUnit(unit)),
                Some(seconds) => if n * seconds > MAX_INTERVAL_SECONDS {
                    Err(Problem::TooLarge)
                } else {
                    Ok(n * seconds)
                },
            }
        },
    }
}

/// The interval, in seconds, that an expression stands for, or what is wrong with it.
pub open spec fn interval_of(expr: Seq<char>) -> Result<int, Problem> {
    let tokens = tokens(expr);
    if tokens.len() == 0 {
        Err(Problem::Empty)
    } else if tokens.len() != 3 || tokens[0] != "every"@ {
        Err(Problem::Grammar)
    } else {
        interval_of_count(tokens[1], tokens[2])
    }
}

/// The first instant after `t`, both in nanoseconds from the Unix epoch, that lies a
/// whole number of intervals of `interval` seconds from the epoch.
pub open spec fn following(t: int, interval: int) -> int {
    (t / (interval * NANOS_PER_SECOND) + 1) * (interval * NANOS_PER_SECOND)
}

/// What is said of a problem.
pub open spec fn problem_text(problem: Problem) -> Seq<char> {
    match problem {
        Problem::Empty => "expression is empty"@,
        Problem::Grammar => "expected \"every N seconds|minutes|hours|days\""@,
        Problem::InvalidNumber(token) => "\""@ + token + "\" is not a positive integer"@,
        Problem::ZeroInterval => "interval must be at least 1"@,
        Problem::UnknownUnit(unit) => "unknown unit \""@ + unit
            + "\", expected seconds|minutes|hours|days"@,
        Problem::TooLarge => "interval exceeds the 10-year maximum"@,
    }
}

/// A parsed schedule: the expression it was written as, and its interval.
#[derive(Debug, PartialEq, Eq)]
pub struct Schedule {
    expression: String,
    interval_seconds: i64,
}

#[derive(Debug, Clone, PartialEq, Eq)]
enum ErrorKind {
    Empty,
    Grammar,
    InvalidNumber { token: String },
    ZeroInterval,
    UnknownUnit { unit: String },
    TooLarge,
}

/// An expression that is no schedule, and why.
#[derive(Debug, Clone, PartialEq, Eq)]
pub struct ScheduleError {
    expression: String,
    kind: ErrorKind,
}

impl ErrorKind {
    spec fn problem(self) -> Problem {
        match self {
            ErrorKind::Empty => Problem::Empty,
            ErrorKind::Grammar => Problem::Grammar,
            ErrorKind::InvalidNumber { token } => Problem::InvalidNumber(token@),
            ErrorKind::ZeroInterval => Problem::ZeroInterval,
            ErrorKind::UnknownUnit { unit } => Problem::UnknownUnit(unit@),
            ErrorKind::TooLarge => Problem::TooLarge,
        }
    }
}

impl ScheduleError {
    /// The expression as it was given.
    pub closed spec fn expression(self) -> Seq<char> {
        self.expression@
    }

    pub closed spec fn problem(self) -> Problem {
        self.kind.problem()
    }

    /// The message always names the expression as it was given.
    pub open spec fn message(self) -> Seq<char> {
        "cannot parse schedule \""@ + self.expression() + "\": "@ + problem_text(self.problem())
    }

    pub fn to_string(&self) -> (r: String)
        ensures
            r@ == self.message(),
    {
        let detail = match &self.kind {
            ErrorKind::Empty => "expression is empty".to_string(),
            ErrorKind::Grammar => "expected \"every N seconds|minutes|hours|days\"".to_string(),
            ErrorKind::InvalidNumber { token } => "\"".to_string().concat(token.as_str()).concat(
                "\" is not a positive integer",
            ),
            ErrorKind::ZeroInterval => "interval must be at least 1".to_string(),
            ErrorKind::UnknownUnit { unit } => "unknown unit \"".to_string().concat(
                unit.as_str(),
            ).concat("\", expected seconds|minutes|hours|days"),
            ErrorKind::TooLarge => "interval exceeds the 10-year maximum".to_string(),
        };
        "cannot parse schedule \"".to_string().concat(self.expression.as_str()).concat(
            "\": ",
        ).concat(detail.as_str())
    }
}

impl Schedule {
    #[verifier::type_invariant]
    closed spec fn in_bounds(self) -> bool {
        1 <= self.interval_seconds <= MAX_INTERVAL_SECONDS
    }

    /// The expression as it was given.
    pub closed spec fn expression(self) -> Seq<char> {
        self.expression@
    }

    /// The interval in seconds.
    pub closed spec fn interval(self) -> int {
        self.interval_seconds as int
    }

    /// The second that the first occurrence strictly after `t` lies on.
    fn next_second(&self, t: Timestamp) -> (r: i64)
        ensures
            r * NANOS_PER_SECOND == following(t@, self.interval()),
            MIN_SECOND < r,
    {
        proof {
            use_type_invariant(self);
        }
        let n: i64 = self.interval_seconds;
        let second: i64 = t.floor_second();
        let quotient: i64 = if second >= 0 {
            second / n
        } else {
            -((-second - 1) / n) - 1
        };
        proof {
            lemma_floor_quotient(second as int, n as int);
            lemma_following_by_second(t@, n as int);
            lemma_next_multiple(second as int, n as int);
            assert(quotient == second as int / n as int);
        }
        (quotient + 1) * n
    }

    /// The first occurrence strictly after `t`. Occurrences that passed while a tick ran
    /// are never replayed: callers ask what is next from now.
    pub fn next_after(&self, t: Timestamp) -> (r: Timestamp)
        requires
            following(t@, self.interval()) <= MAX_NANOSECOND,
        ensures
            r@ == following(t@, self.interval()),
    {
        Timestamp::from_second(self.next_second(t)).unwrap()
    }

    pub fn interval_seconds(&self) -> (r: i64)
        ensures
            r == self.interval(),
            1 <= r <= MAX_INTERVAL_SECONDS,
    {
        proof {
            use_type_invariant(self);
        }
        self.interval_seconds
    }

    /// The expression as it was given.
    pub fn to_string(&self) -> (r: String)
        ensures
            r@ == self.expression(),
    {
        self.expression.clone()
    }

    /// The first occurrence strictly after `now`, and how many nanoseconds it is away.
    /// `None` where that occurrence lies behind the last instant.
    pub fn wait_after(&self, now: Timestamp) -> (r: Option<(Timestamp, u64)>)
        ensures
            match r {
                Some((next, wait)) => next@ == following(now@, self.interval()) && wait == next@
                    - now@,
                None => following(now@, self.interval()) > MAX_NANOSECOND,
            },
    {
        proof {
            use_type_invariant(self);
            law_next_occurrence(now@, self.interval());
        }
        match Timestamp::from_second(self.next_second(now)) {
            Some(next) => {
                let wait: i128 = next.nanoseconds_since(now);
                Some((next, wait as u64))
            },
            None => None,
        }
    }
}

impl Clone for Schedule {
    fn clone(&self) -> (r: Self)
        ensures
            r == *self,
    {
        proof {
            use_type_invariant(self);
        }
        Schedule { expression: self.expression.clone(), interval_seconds: self.interval_seconds }
    }
}

/// The words of an expression in canonical form.
fn normalized_words(expr: &str) -> (r: Vec<String>)
    ensures
        text::texts(r@) == tokens(expr@),
{
    let words = text::split_words(expr);
    let mut out: Vec<String> = Vec::new();
    for i in 0..words.len()
        invariant
            text::texts(words@) == text::words(expr@),
            text::texts(out@) == tokens(expr@).take(i as int),
    {
        proof {
            assert(text::texts(words@)[i as int] == words@[i as int]@);
        }
        let ghost before = out@;
        let word = text::to_lowercase(words[i].as_str());
        let word = if text::same_text(word.as_str(), "second") {
            "seconds".to_string()
        } else if text::same_text(word.as_str(), "minute") {
            "minutes".to_string()
        } else if text::same_text(word.as_str(), "hour") {
            "hours".to_string()
        } else if text::same_text(word.as_str(), "day") {
            "days".to_string()
        } else {
            word
        };
        let ghost added = word@;
        out.push(word);
        proof {
            assert(text::texts(out@) == text::texts(before).push(added));
            assert(tokens(expr@).take(i + 1) == tokens(expr@).take(i as int).push(added));
        }
    }
    proof {
        assert(text::texts(words@).len() == words@.len());
        assert(tokens(expr@).take(words@.len() as int) == tokens(expr@));
    }
    out
}

/// Trims, lowers the case, collapses white space and turns units into their plural.
/// Purely lexical; garbage passes through for the parser to reject.
pub fn normalize(expr: &str) -> (r: String)
    ensures
        r@ == normalized(expr@),
{
    let words = normalized_words(expr);
    text::join(words.as_slice(), " ")
}

/// Parses an expression.
pub fn parse(expr: &str) -> (r: Result<Schedule, ScheduleError>)
    ensures
        match interval_of(expr@) {
            Ok(interval) => r matches Ok(schedule) && schedule.expression() == expr@
                && schedule.interval() == interval,
            Err(problem) => r matches Err(error) && error.expression() == expr@ && error.problem()
                == problem,
        },
{
    let words = normalized_words(expr);
    proof {
        assert(tokens(expr@).len() == words@.len());
        assert(forall|i: int| 0 <= i < words@.len() ==> tokens(expr@)[i] == #[trigger] words@[i]@);
    }
    let expression = expr.to_string();
    if words.len() == 0 {
        return Err(ScheduleError { expression, kind: ErrorKind::Empty });
    }
    if words.len() != 3 || !text::same_text(words[0].as_str(), "every") {
        return Err(ScheduleError { expression, kind: ErrorKind::Grammar });
    }
    let count: u64 = match text::parse_unsigned(words[1].as_str(), u64::MAX) {
        Some(count) => count,
        None => {
            let token = words[1].clone();
            return Err(ScheduleError { expression, kind: ErrorKind::InvalidNumber { token } });
        },
    };
    if count == 0 {
        return Err(ScheduleError { expression, kind: ErrorKind::ZeroInterval });
    }
    let unit = words[2].as_str();
    let seconds: u64 = if text::same_text(unit, "seconds") {
        1
    } else if text::same_text(unit, "minutes") {
        60
    } else if text::same_text(unit, "hours") {
        3600
    } else if text::same_text(unit, "days") {
        86_400
    } else {
        let unit = words[2].clone();
        return Err(ScheduleError { expression, kind: ErrorKind::UnknownUnit { unit } });
    };
    match count.checked_mul(seconds) {
        Some(interval) if interval <= MAX_INTERVAL_SECONDS => Ok(
            Schedule { expression, interval_seconds: interval as i64 },
        ),
        _ => Err(ScheduleError { expression, kind: ErrorKind::TooLarge }),
    }
}

impl TryFrom<String> for Schedule {
    type Error = ScheduleError;

    fn try_from(value: String) -> (r: Result<Schedule, ScheduleError>)
        ensures
            match interval_of(value@) {
                Ok(interval) => r matches Ok(schedule) && schedule.expression() == value@
                    && schedule.interval() == interval,
                Err(problem) => r matches Err(error) && error.expression() == value@
                    && error.problem() == problem,
            },
    {
        parse(value.as_str())
    }
}

impl vstd::std_specs::convert::TryFromSpecImpl<String> for Schedule {
    open spec fn obeys_try_from_spec() -> bool {
        false
    }

    open spec fn try_from_spec(value: String) -> Result<Schedule, ScheduleError> {
        arbitrary()
    }
}

/// Rounding a quotient down, for a dividend below zero.
proof fn lemma_floor_quotient(s: int, n: int)
    requires
        n > 0,
    ensures
        s < 0 ==> -((-s - 1) / n) - 1 == s / n,
{
    let q = (-s - 1) / n;
    let r = (-s - 1) % n;
    vstd::arithmetic::div_mod::lemma_fundamental_div_mod(-s - 1, n);
    assert(s == n * (-q - 1) + (n - r - 1)) by (nonlinear_arith)
        requires
            -s - 1 == n * q + r,
    ;
    assert(n * (-q - 1) == (-q - 1) * n) by (nonlinear_arith);
    vstd::arithmetic::div_mod::lemma_fundamental_div_mod_converse(s, n, -q - 1, n - r - 1);
}

/// The next multiple of `n` lies after `s`, and at most `n` after it.
proof fn lemma_next_multiple(s: int, n: int)
    requires
        n > 0,
    ensures
        s < (s / n + 1) * n <= s + n,
{
    vstd::arithmetic::div_mod::lemma_fundamental_div_mod(s, n);
    assert((s / n + 1) * n == n * (s / n) + n) by (nonlinear_arith);
}

/// Counting intervals in nanoseconds or in whole seconds comes to the same.
proof fn lemma_following_by_second(t: int, n: int)
    requires
        n > 0,
    ensures
        following(t, n) == ((t / (NANOS_PER_SECOND as int)) / n + 1) * n * NANOS_PER_SECOND,
{
    let b = NANOS_PER_SECOND as int;
    let s = t / b;
    let f = t % b;
    let q = s / n;
    let r = s % n;
    vstd::arithmetic::div_mod::lemma_fundamental_div_mod(t, b);
    vstd::arithmetic::div_mod::lemma_fundamental_div_mod(s, n);
    assert(t == q * (n * b) + (b * r + f) && 0 <= b * r + f < n * b) by (nonlinear_arith)
        requires
            t == b * s + f,
            s == n * q + r,
            0 <= r < n,
            0 <= f < b,
            b == 1_000_000_000,
    ;
    vstd::arithmetic::div_mod::lemma_fundamental_div_mod_converse(t, n * b, q, b * r + f);
    assert((q + 1) * (n * b) == (q + 1) * n * b) by (nonlinear_arith);
}

/// What comes after an instant is the first occurrence strictly after it: it lies a whole
/// number of intervals from the Unix epoch, at most one interval later, and no occurrence
/// lies in between.
pub proof fn law_next_occurrence(t: int, interval: int)
    requires
        interval >= 1,
    ensures
        following(t, interval) % (interval * NANOS_PER_SECOND) == 0,
        t < following(t, interval) <= t + interval * NANOS_PER_SECOND,
        forall|u: int|
            #![trigger u % (interval * NANOS_PER_SECOND)]
            u % (interval * NANOS_PER_SECOND) == 0 && u > t ==> following(t, interval) <= u,
{
    let step = interval * NANOS_PER_SECOND;
    lemma_next_multiple(t, step);
    vstd::arithmetic::div_mod::lemma_mod_multiples_basic(t / step + 1, step);
    assert forall|u: int| #![trigger u % step] u % step == 0 && u > t implies following(t, interval)
        <= u by {
        vstd::arithmetic::div_mod::lemma_fundamental_div_mod(u, step);
        vstd::arithmetic::div_mod::lemma_fundamental_div_mod(t, step);
        let k = u / step;
        assert(k >= t / step + 1) by (nonlinear_arith)
            requires
                u == step * k,
                t == step * (t / step) + t % step,
                0 <= t % step,
                u > t,
                step > 0,
        ;
        assert((t / step + 1) * step <= step * k) by (nonlinear_arith)
            requires
                k >= t / step + 1,
                step > 0,
        ;
    }
}

/// The canonical form of a word is a word, and its own canonical form; the case of the
/// word does not matter to it.
proof fn lemma_canonical_word(word: Seq<char>)
    requires
        text::is_word(word),
    ensures
        text::is_word(canonical_word(word)),
        canonical_word(canonical_word(word)) == canonical_word(word),
        canonical_word(text::lowercase(word)) == canonical_word(word),
{
    reveal_strlit("seconds");
    reveal_strlit("minutes");
    reveal_strlit("hours");
    reveal_strlit("days");
    reveal_strlit("second");
    reveal_strlit("minute");
    reveal_strlit("hour");
    reveal_strlit("day");
    let lowered = text::lowercase(word);
    assert forall|i: int| 0 <= i < lowered.len() implies !text::is_space(#[trigger] lowered[i]) by {
        assert(!text::is_space(word[i]));
    }
    assert(text::lowercase(lowered) == lowered);
    assert(text::lowercase("seconds"@) == "seconds"@);
    assert(text::lowercase("minutes"@) == "minutes"@);
    assert(text::lowercase("hours"@) == "hours"@);
    assert(text::lowercase("days"@) == "days"@);
    assert("days"@[0] != "hour"@[0]);
}

/// The words of an expression's normal form are the expression's words in canonical form.
proof fn lemma_words_of_normalized(expr: Seq<char>)
    ensures
        text::words(normalized(expr)) == tokens(expr),
        tokens(normalized(expr)) == tokens(expr),
{
    text::lemma_words_are_words(expr);
    assert forall|i: int| 0 <= i < tokens(expr).len() implies text::is_word(
        #[trigger] tokens(expr)[i],
    ) && canonical_word(tokens(expr)[i]) == tokens(expr)[i] by {
        lemma_canonical_word(text::words(expr)[i]);
    }
    text::lemma_words_of_joined(tokens(expr));
}

/// Normalizing a normal form changes nothing.
pub proof fn law_normalize_is_idempotent(expr: Seq<char>)
    ensures
        normalized(normalized(expr)) == normalized(expr),
{
    lemma_words_of_normalized(expr);
}

/// Parsing sees the normal form alone: expressions that normalize alike mean the same, or
/// have the same problem. In particular an expression means what its normal form means.
pub proof fn law_parse_sees_the_normal_form(a: Seq<char>, b: Seq<char>)
    requires
        normalized(a) == normalized(b),
    ensures
        interval_of(a) == interval_of(b),
{
    lemma_words_of_normalized(a);
    lemma_words_of_normalized(b);
}

/// The case of letters does not matter, neither to the normal form nor to the meaning.
pub proof fn law_case_does_not_matter(expr: Seq<char>)
    ensures
        normalized(text::lowercase(expr)) == normalized(expr),
        interval_of(text::lowercase(expr)) == interval_of(expr),
{
    text::lemma_words_are_words(expr);
    text::lemma_words_of_lowercase(expr);
    assert forall|i: int| 0 <= i < text::words(expr).len() implies canonical_word(
        text::lowercase(text::words(expr)[i]),
    ) == #[trigger] canonical_word(text::words(expr)[i]) by {
        lemma_canonical_word(text::words(expr)[i]);
    }
    assert(tokens(text::lowercase(expr)) == tokens(expr));
}

/// The grammar: `every`, a count of at least one and a unit, in the singular or the
/// plural, mean that many units, up to the longest interval.
pub proof fn law_every_count_of_units(count: nat, unit: Seq<char>)
    requires
        text::is_word(unit),
        unit_seconds(canonical_word(unit)) is Some,
        1 <= count,
        count * unit_seconds(canonical_word(unit))->0 <= MAX_INTERVAL_SECONDS,
    ensures
        interval_of(text::joined(seq!["every"@, text::decimal(count), unit], " "@)) == Ok::<
            int,
            Problem,
        >(count * unit_seconds(canonical_word(unit))->0),
{
    reveal_strlit("every");
    reveal_strlit("second");
    reveal_strlit("minute");
    reveal_strlit("hour");
    reveal_strlit("day");
    let parts = seq!["every"@, text::decimal(count), unit];
    let number = text::decimal(count);
    text::lemma_decimal_reads_back(count);
    assert(text::is_word(number)) by {
        assert forall|i: int| 0 <= i < number.len() implies !text::is_space(#[trigger] number[i]) by {
            assert(text::is_digit(number[i]));
        }
    }
    assert(text::is_word("every"@));
    text::lemma_words_of_joined(parts);
    assert(text::lowercase("every"@) == "every"@);
    assert(canonical_word("every"@) == "every"@);
    assert(text::lowercase(number) == number) by {
        assert forall|i: int| 0 <= i < number.len() implies text::lower(#[trigger] number[i])
            == number[i] by {
            assert(text::is_digit(number[i]));
        }
    }
    assert(canonical_word(number) == number) by {
        assert(text::is_digit(number[0]));
    }
    assert(text::unsigned_digits(number) == number) by {
        assert(text::is_digit(number[0]));
    }
    let seconds = unit_seconds(canonical_word(unit))->0;
    assert(count <= count * seconds) by (nonlinear_arith)
        requires
            seconds >= 1,
            count >= 1,
    ;
}

/// A schedule never waits longer than ten years, and never less than a second.
pub proof fn law_intervals_are_bounded(expr: Seq<char>)
    ensures
        interval_of(expr) matches Ok(interval) ==> 1 <= interval <= MAX_INTERVAL_SECONDS,
{
    if interval_of(expr) is Ok {
        let n = text::unsigned_value(tokens(expr)[1], u64::MAX as nat)->0;
        let seconds = unit_seconds(tokens(expr)[2])->0;
        assert(n * seconds >= 1) by (nonlinear_arith)
            requires
                n >= 1,
                seconds >= 1,
        ;
    }
}

/// Successive occurrences are exactly one interval apart.
pub proof fn law_occurrences_are_evenly_spaced(t: int, interval: int)
    requires
        interval >= 1,
    ensures
        following(following(t, interval), interval) == following(t, interval) + interval
            * NANOS_PER_SECOND,
{
    let step = interval * NANOS_PER_SECOND;
    let next = following(t, interval);
    vstd::arithmetic::div_mod::lemma_fundamental_div_mod_converse(next, step, t / step + 1, 0);
    assert((t / step + 1 + 1) * step == (t / step + 1) * step + step) by (nonlinear_arith);
}

/// What is next depends on the occurrence ahead alone: asking again at any time before it
/// names the same occurrence, whatever happened in between, a restart included.
pub proof fn law_next_occurrence_is_stable(t: int, later: int, interval: int)
    requires
        interval >= 1,
        t <= later < following(t, interval),
    ensures
        following(later, interval) == following(t, interval),
{
    law_next_occurrence(t, interval);
    law_next_occurrence(later, interval);
}

/// Every error quotes the expression as it was given.
pub proof fn law_errors_quote_the_expression(error: ScheduleError)
    ensures
        text::contains_text(error.message(), "\""@ + error.expression() + "\""@),
{
    let before = "cannot parse schedule "@;
    let quoted = "\""@ + error.expression() + "\""@;
    let after = ": "@ + problem_text(error.problem());
    reveal_strlit("cannot parse schedule \"");
    reveal_strlit("cannot parse schedule ");
    reveal_strlit("\"");
    reveal_strlit("\": ");
    reveal_strlit(": ");
    text::lemma_contains_part(before, quoted, after);
    assert(error.message() == before + quoted + after);
}

/// Whether a word has the letters of `letters`, which are lower-case, each in upper or
/// lower case: a letter from `A` to `Z` stands for the one 32 code points up.
pub open spec fn has_letters(word: Seq<char>, letters: Seq<char>) -> bool {
    &&& word.len() == letters.len()
    &&& forall|i: int|
        #![trigger word[i]]
        0 <= i < word.len() ==> word[i] == letters[i] || 65 <= word[i] as int <= 90
            && word[i] as int + 32 == letters[i] as int
}

/// A word has certain letters exactly when they are its lower-case form.
proof fn lemma_has_letters(word: Seq<char>, letters: Seq<char>)
    requires
        forall|i: int| 0 <= i < letters.len() ==> !(65 <= #[trigger] letters[i] as int <= 90),
    ensures
        has_letters(word, letters) <==> text::lowercase(word) == letters,
{
    let lowered = text::lowercase(word);
    if has_letters(word, letters) {
        assert forall|i: int| 0 <= i < lowered.len() implies lowered[i] == letters[i] by {
            assert(word[i] == letters[i] || 65 <= word[i] as int <= 90);
            assert(!(65 <= letters[i] as int <= 90));
        }
        assert(lowered =~= letters);
    }
    if lowered == letters {
        assert forall|i: int|
            #![trigger word[i]]
            0 <= i < word.len() implies word[i] == letters[i] || 65 <= word[i] as int <= 90
            && word[i] as int + 32 == letters[i] as int by {
            assert(lowered[i] == text::lower(word[i]));
        }
    }
}

proof fn lemma_has_letters_of_grammar(word: Seq<char>)
    ensures
        has_letters(word, "every"@) <==> text::lowercase(word) == "every"@,
        has_letters(word, "second"@) <==> text::lowercase(word) == "second"@,
        has_letters(word, "seconds"@) <==> text::lowercase(word) == "seconds"@,
        has_letters(word, "minute"@) <==> text::lowercase(word) == "minute"@,
        has_letters(word, "minutes"@) <==> text::lowercase(word) == "minutes"@,
        has_letters(word, "hour"@) <==> text::lowercase(word) == "hour"@,
        has_letters(word, "hours"@) <==> text::lowercase(word) == "hours"@,
        has_letters(word, "day"@) <==> text::lowercase(word) == "day"@,
        has_letters(word, "days"@) <==> text::lowercase(word) == "days"@,
        "every"@ != "second"@ && "every"@ != "minute"@ && "every"@ != "hour"@ && "every"@ != "day"@,
        "seconds"@ != "minutes"@ && "seconds"@ != "hours"@ && "seconds"@ != "days"@,
        "minutes"@ != "hours"@ && "minutes"@ != "days"@ && "hours"@ != "days"@,
{
    reveal_strlit("every");
    reveal_strlit("second");
    reveal_strlit("seconds");
    reveal_strlit("minute");
    reveal_strlit("minutes");
    reveal_strlit("hour");
    reveal_strlit("hours");
    reveal_strlit("day");
    reveal_strlit("days");
    lemma_has_letters(word, "every"@);
    lemma_has_letters(word, "second"@);
    lemma_has_letters(word, "seconds"@);
    lemma_has_letters(word, "minute"@);
    lemma_has_letters(word, "minutes"@);
    lemma_has_letters(word, "hour"@);
    lemma_has_letters(word, "hours"@);
    lemma_has_letters(word, "day"@);
    lemma_has_letters(word, "days"@);
    assert("seconds"@[0] != "minutes"@[0]);
    assert("hour"@[0] != "days"@[0]);
    assert("every"@.len() != "day"@.len());
}

/// The case of letters does not matter to a number.
proof fn lemma_number_has_no_case(word: Seq<char>, limit: nat)
    ensures
        text::unsigned_value(text::lowercase(word), limit) == text::unsigned_value(word, limit),
        text::unsigned_value(word, limit) is Some ==> text::lowercase(word) == word,
{
    let lowered = text::lowercase(word);
    let a = text::unsigned_digits(word);
    let b = text::unsigned_digits(lowered);
    if word.len() > 0 {
        assert(lowered[0] == text::lower(word[0]));
    }
    assert(b == text::lowercase(a));
    if forall|i: int| 0 <= i < a.len() ==> text::is_digit(#[trigger] a[i]) {
        assert(b =~= a) by {
            assert forall|i: int| 0 <= i < a.len() implies b[i] == a[i] by {
                assert(text::is_digit(a[i]));
            }
        }
        assert(lowered =~= word) by {
            if word.len() > 0 && word[0] == '+' {
                assert(word == seq!['+'] + a);
                assert(lowered == seq!['+'] + b);
            }
        }
    } else {
        let i = choose|i: int| 0 <= i < a.len() && !text::is_digit(#[trigger] a[i]);
        assert(b[i] == text::lower(a[i]));
        assert(!text::is_digit(b[i]));
    }
}

/// The grammar, and what it means: an expression is a schedule exactly when its words are
/// `every`, a number of at least one and the name of a unit, singular or plural, each
/// letter in upper or lower case, and the interval, so many times the unit, is no longer
/// than ten years.
pub proof fn law_grammar(
    expr: &str,
    words: Vec<String>,
    number: &str,
    count: Option<u64>,
    r: Result<Schedule, ScheduleError>,
    seconds: i64,
)
    requires
        call_ensures(parse, (expr,), r),
        call_ensures(text::split_words, (expr,), words),
        words@.len() > 1 ==> words@[1]@ == number@,
        call_ensures(text::parse_unsigned, (number, u64::MAX), count),
        r matches Ok(schedule) ==> call_ensures(
            Schedule::interval_seconds,
            (&schedule,),
            seconds,
        ),
    ensures
        ({
            let unit = words@[2]@;
            let length: int = if has_letters(unit, "second"@) || has_letters(unit, "seconds"@) {
                1
            } else if has_letters(unit, "minute"@) || has_letters(unit, "minutes"@) {
                60
            } else if has_letters(unit, "hour"@) || has_letters(unit, "hours"@) {
                3600
            } else if has_letters(unit, "day"@) || has_letters(unit, "days"@) {
                86_400
            } else {
                0
            };
            &&& r is Ok <==> words@.len() == 3 && has_letters(words@[0]@, "every"@) && length > 0
                && (count matches Some(n) && n >= 1 && n * length <= 315_360_000)
            &&& r is Ok ==> seconds == count->0 * length
        }),
{
    text::law_split_gives_the_words(expr, words);
    if words@.len() == 3 {
        let all = text::words(expr@);
        assert(words@[0]@ == all[0] && words@[1]@ == all[1] && words@[2]@ == all[2]);
        lemma_has_letters_of_grammar(all[0]);
        lemma_has_letters_of_grammar(all[2]);
        lemma_number_has_no_case(all[1], u64::MAX as nat);
        assert(tokens(expr@)[0] == canonical_word(all[0]));
        assert(tokens(expr@)[2] == canonical_word(all[2]));
        lemma_number_is_its_own_token(all[1]);
        lemma_grammar_words_differ();
    }
}

/// A number is a token as it stands, and what is no number is none as a token.
proof fn lemma_number_is_its_own_token(word: Seq<char>)
    ensures
        text::unsigned_value(canonical_word(word), u64::MAX as nat) == text::unsigned_value(
            word,
            u64::MAX as nat,
        ),
{
    lemma_number_has_no_case(word, u64::MAX as nat);
    let lowered = text::lowercase(word);
    if canonical_word(word) != lowered {
        reveal_strlit("second");
        reveal_strlit("seconds");
        reveal_strlit("minute");
        reveal_strlit("minutes");
        reveal_strlit("hour");
        reveal_strlit("hours");
        reveal_strlit("day");
        reveal_strlit("days");
        assert(!text::is_digit(text::unsigned_digits(lowered)[0]));
        assert(!text::is_digit(text::unsigned_digits(canonical_word(word))[0]));
    }
}

proof fn lemma_grammar_words_differ()
    ensures
        "seconds"@ != "second"@ && "seconds"@ != "minute"@ && "seconds"@ != "hour"@ && "seconds"@
            != "day"@,
        "minutes"@ != "second"@ && "minutes"@ != "minute"@ && "minutes"@ != "hour"@ && "minutes"@
            != "day"@,
        "hours"@ != "second"@ && "hours"@ != "minute"@ && "hours"@ != "hour"@ && "hours"@ != "day"@,
        "days"@ != "second"@ && "days"@ != "minute"@ && "days"@ != "hour"@ && "days"@ != "day"@,
        "every"@ != "seconds"@ && "every"@ != "minutes"@ && "every"@ != "hours"@ && "every"@
            != "days"@,
        "second"@ != "minute"@ && "second"@ != "hour"@ && "second"@ != "day"@,
        "minute"@ != "hour"@ && "minute"@ != "day"@ && "hour"@ != "day"@,
{
    reveal_strlit("every");
    reveal_strlit("second");
    reveal_strlit("seconds");
    reveal_strlit("minute");
    reveal_strlit("minutes");
    reveal_strlit("hour");
    reveal_strlit("hours");
    reveal_strlit("day");
    reveal_strlit("days");
    assert("seconds"@.len() == 7 && "minutes"@.len() == 7 && "second"@.len() == 6 && "minute"@.len()
        == 6 && "hour"@.len() == 4 && "day"@.len() == 3);
    assert("days"@[0] != "hour"@[0]);
    assert("every"@[0] != "hours"@[0]);
    assert("second"@[0] != "minute"@[0]);
}

/// Every way of writing `every N units` is read: with the letters of `every` and of the
/// unit in any case, the unit in the singular or the plural, any white space before,
/// between and after the words, and any count that keeps the interval within ten years.
pub proof fn law_every_way_of_writing_is_read(
    expr: &str,
    spaces: Seq<Seq<char>>,
    every: Seq<char>,
    count: u64,
    digits: String,
    unit: Seq<char>,
    length: int,
    r: Result<Schedule, ScheduleError>,
    seconds: i64,
)
    requires
        call_ensures(parse, (expr,), r),
        call_ensures(text::decimal_text, (count,), digits),
        r matches Ok(schedule) ==> call_ensures(
            Schedule::interval_seconds,
            (&schedule,),
            seconds,
        ),
        spaces.len() == 4 && spaces[1].len() > 0 && spaces[2].len() > 0,
        forall|k: int, i: int|
            0 <= k < 4 && 0 <= i < spaces[k].len() ==> #[trigger] spaces[k][i] == ' '
                || spaces[k][i] == '\t' || spaces[k][i] == '\n',
        expr@ == spaces[0] + every + spaces[1] + digits@ + spaces[2] + unit + spaces[3],
        has_letters(every, "every"@),
        ({
            ||| length == 1 && (has_letters(unit, "second"@) || has_letters(unit, "seconds"@))
            ||| length == 60 && (has_letters(unit, "minute"@) || has_letters(unit, "minutes"@))
            ||| length == 3600 && (has_letters(unit, "hour"@) || has_letters(unit, "hours"@))
            ||| length == 86_400 && (has_letters(unit, "day"@) || has_letters(unit, "days"@))
        }),
        1 <= count,
        count * length <= 315_360_000,
    ensures
        r is Ok,
        seconds == count * length,
{
    let number = digits@;
    text::law_number_is_written(count, digits);
    assert forall|i: int| 0 <= i < number.len() implies !text::is_space(#[trigger] number[i]) by {
        assert(48 <= number[i] as int <= 57);
    }
    lemma_letters_are_no_space(every, unit);
    lemma_blanks_are_space(spaces);
    text::law_word_alone(every);
    text::law_word_alone(number);
    text::law_word_alone(unit);
    lemma_blanks_part(number, spaces[2], unit + spaces[3]);
    lemma_blanks_part(every, spaces[1], number + (spaces[2] + (unit + spaces[3])));
    lemma_blanks_part(
        seq![],
        spaces[0],
        every + (spaces[1] + (number + (spaces[2] + (unit + spaces[3])))),
    );
    assert(expr@ == Seq::<char>::empty() + spaces[0] + (every + (spaces[1] + (number + (spaces[2]
        + (unit + spaces[3]))))));
    assert(every + (spaces[1] + (number + (spaces[2] + (unit + spaces[3])))) == every + spaces[1]
        + (number + (spaces[2] + (unit + spaces[3]))));
    assert(number + (spaces[2] + (unit + spaces[3])) == number + spaces[2] + (unit + spaces[3]));
    text::law_word_alone(Seq::<char>::empty());
    let all = text::words(expr@);
    lemma_last_blank(unit, spaces[3]);
    if spaces[0].len() == 0 {
        assert(expr@ == every + spaces[1] + (number + (spaces[2] + (unit + spaces[3]))));
    }
    assert(text::words(unit + spaces[3]) == seq![unit]);
    assert(text::words(number + (spaces[2] + (unit + spaces[3]))) == seq![number, unit]);
    assert(all == seq![every, number, unit]);
    lemma_has_letters_of_grammar(every);
    lemma_has_letters_of_grammar(unit);
    lemma_grammar_words_differ();
    lemma_number_is_its_own_token(number);
    text::lemma_decimal_reads_back(count as nat);
    assert(text::unsigned_digits(number) == number) by {
        assert(48 <= number[0] as int <= 57);
    }
    assert forall|i: int| 0 <= i < number.len() implies text::is_digit(#[trigger] number[i]) by {
        assert(48 <= number[i] as int <= 57);
    }
    assert(tokens(expr@)[0] == canonical_word(every));
    assert(tokens(expr@)[1] == canonical_word(number));
    assert(tokens(expr@)[2] == canonical_word(unit));
    law_units(unit);
    assert(canonical_word(every) == "every"@);
    assert(text::unsigned_value(number, u64::MAX as nat) == Some(count as nat));
    assert(unit_seconds(canonical_word(unit)) == Some(length));
    assert(interval_of(expr@) == Ok::<int, Problem>(count * length));
}

proof fn lemma_blanks_are_space(spaces: Seq<Seq<char>>)
    requires
        spaces.len() == 4,
        forall|k: int, i: int|
            0 <= k < 4 && 0 <= i < spaces[k].len() ==> #[trigger] spaces[k][i] == ' '
                || spaces[k][i] == '\t' || spaces[k][i] == '\n',
    ensures
        forall|k: int, i: int|
            0 <= k < 4 && 0 <= i < spaces[k].len() ==> text::is_space(#[trigger] spaces[k][i]),
{
}

/// The words of the grammar hold no white space, whatever the case of their letters.
proof fn lemma_letters_are_no_space(every: Seq<char>, unit: Seq<char>)
    requires
        has_letters(every, "every"@),
        has_letters(unit, "second"@) || has_letters(unit, "seconds"@) || has_letters(
            unit,
            "minute"@,
        ) || has_letters(unit, "minutes"@) || has_letters(unit, "hour"@) || has_letters(
            unit,
            "hours"@,
        ) || has_letters(unit, "day"@) || has_letters(unit, "days"@),
    ensures
        every.len() > 0,
        unit.len() > 0,
        forall|i: int| 0 <= i < every.len() ==> !text::is_space(#[trigger] every[i]),
        forall|i: int| 0 <= i < unit.len() ==> !text::is_space(#[trigger] unit[i]),
{
    reveal_strlit("every");
    reveal_strlit("second");
    reveal_strlit("seconds");
    reveal_strlit("minute");
    reveal_strlit("minutes");
    reveal_strlit("hour");
    reveal_strlit("hours");
    reveal_strlit("day");
    reveal_strlit("days");
}

/// A stretch of white space parts words.
proof fn lemma_blanks_part(before: Seq<char>, blanks: Seq<char>, after: Seq<char>)
    requires
        forall|i: int| 0 <= i < blanks.len() ==> text::is_space(#[trigger] blanks[i]),
    ensures
        blanks.len() > 0 ==> text::words(before + blanks + after) == text::words(before)
            + text::words(after),
    decreases blanks.len(),
{
    if blanks.len() > 0 {
        let rest = blanks.drop_last();
        let c = blanks.last();
        assert(text::is_space(blanks[blanks.len() - 1]));
        assert(before + blanks + after == (before + rest) + seq![c] + after);
        text::law_white_space_parts_words(before + rest, c, after);
        if rest.len() > 0 {
            assert forall|i: int| 0 <= i < rest.len() implies text::is_space(
                #[trigger] rest[i],
            ) by {
                assert(rest[i] == blanks[i]);
            }
            lemma_blanks_part(before, rest, seq![]);
            text::law_word_alone(Seq::<char>::empty());
            assert(before + rest + Seq::<char>::empty() == before + rest);
            assert(text::words(before) + Seq::<Seq<char>>::empty() == text::words(before));
        } else {
            assert(before + rest == before);
        }
    }
}

/// White space behind a word adds no word.
proof fn lemma_last_blank(word: Seq<char>, blanks: Seq<char>)
    requires
        forall|i: int| 0 <= i < blanks.len() ==> text::is_space(#[trigger] blanks[i]),
    ensures
        text::words(word + blanks) == text::words(word),
{
    if blanks.len() > 0 {
        lemma_blanks_part(word, blanks, seq![]);
        text::law_word_alone(Seq::<char>::empty());
        assert(word + blanks + Seq::<char>::empty() == word + blanks);
        assert(text::words(word) + Seq::<Seq<char>>::empty() == text::words(word));
    } else {
        assert(word + blanks == word);
    }
}

/// What is said of an expression that is no schedule: the first thing that is wrong with
/// it, behind the expression in quotes.
pub proof fn law_errors_say_what_is_wrong(
    expr: &str,
    words: Vec<String>,
    number: &str,
    count: Option<u64>,
    error: ScheduleError,
    message: String,
)
    requires
        call_ensures(parse, (expr,), Err::<Schedule, ScheduleError>(error)),
        call_ensures(ScheduleError::to_string, (&error,), message),
        call_ensures(text::split_words, (expr,), words),
        words@.len() > 1 ==> words@[1]@ == number@,
        call_ensures(text::parse_unsigned, (number, u64::MAX), count),
    ensures
        message@ == "cannot parse schedule \""@ + expr@ + "\": "@ + if words@.len() == 0 {
            "expression is empty"@
        } else if words@.len() != 3 || !has_letters(words@[0]@, "every"@) {
            "expected \"every N seconds|minutes|hours|days\""@
        } else if count is None {
            "\""@ + canonical_word(words@[1]@) + "\" is not a positive integer"@
        } else if count == Some(0u64) {
            "interval must be at least 1"@
        } else if unit_seconds(canonical_word(words@[2]@)) is None {
            "unknown unit \""@ + canonical_word(words@[2]@)
                + "\", expected seconds|minutes|hours|days"@
        } else {
            "interval exceeds the 10-year maximum"@
        },
{
    text::law_split_gives_the_words(expr, words);
    if words@.len() == 3 {
        let all = text::words(expr@);
        assert(words@[0]@ == all[0] && words@[1]@ == all[1] && words@[2]@ == all[2]);
        lemma_has_letters_of_grammar(all[0]);
        assert(tokens(expr@)[0] == canonical_word(all[0]));
        assert(tokens(expr@)[1] == canonical_word(all[1]));
        assert(tokens(expr@)[2] == canonical_word(all[2]));
        lemma_number_is_its_own_token(all[1]);
        lemma_grammar_words_differ();
    }
}

/// A unit has its length in seconds, and nothing else is a unit.
pub proof fn law_units(word: Seq<char>)
    ensures
        unit_seconds(canonical_word(word)) == if has_letters(word, "second"@) || has_letters(
            word,
            "seconds"@,
        ) {
            Some(1int)
        } else if has_letters(word, "minute"@) || has_letters(word, "minutes"@) {
            Some(60int)
        } else if has_letters(word, "hour"@) || has_letters(word, "hours"@) {
            Some(3600int)
        } else if has_letters(word, "day"@) || has_letters(word, "days"@) {
            Some(86_400int)
        } else {
            None
        },
{
    lemma_has_letters_of_grammar(word);
    lemma_grammar_words_differ();
}

/// A word in canonical form: a unit in the singular becomes its plural; of any other word,
/// every letter from `A` to `Z` becomes the one 32 code points up, and the rest stays.
pub proof fn law_canonical_form(word: Seq<char>, i: int)
    ensures
        has_letters(word, "second"@) ==> canonical_word(word) == "seconds"@,
        has_letters(word, "minute"@) ==> canonical_word(word) == "minutes"@,
        has_letters(word, "hour"@) ==> canonical_word(word) == "hours"@,
        has_letters(word, "day"@) ==> canonical_word(word) == "days"@,
        !(has_letters(word, "second"@) || has_letters(word, "minute"@) || has_letters(
            word,
            "hour"@,
        ) || has_letters(word, "day"@)) ==> {
            &&& canonical_word(word).len() == word.len()
            &&& 0 <= i < word.len() ==> canonical_word(word)[i] as int == word[i] as int + if 65
                <= word[i] as int <= 90 {
                32int
            } else {
                0
            }
        },
{
    lemma_has_letters_of_grammar(word);
    reveal_strlit("second");
    reveal_strlit("minute");
    reveal_strlit("hour");
    reveal_strlit("day");
    assert("second"@[0] != "minute"@[0]);
    assert("second"@.len() == 6 && "minute"@.len() == 6 && "hour"@.len() == 4 && "day"@.len() == 3);
}

/// The normal form of an expression has the same words, in canonical form, one space apart.
pub proof fn law_normal_form(expr: &str, r: String, words: Vec<String>)
    requires
        call_ensures(normalize, (expr,), r),
        call_ensures(text::split_words, (expr,), words),
    ensures
        r@ == text::joined(Seq::new(words@.len(), |i: int| canonical_word(words@[i]@)), " "@),
{
    text::law_split_gives_the_words(expr, words);
    assert(tokens(expr@) == Seq::new(words@.len(), |i: int| canonical_word(words@[i]@))) by {
        assert forall|i: int| 0 <= i < words@.len() implies #[trigger] tokens(expr@)[i]
            == canonical_word(words@[i]@) by {
            assert(words@[i]@ == text::words(expr@)[i]);
        }
    }
}

/// Normalizing twice is normalizing once, and does not change what an expression means.
pub proof fn law_normalizing_changes_nothing(
    expr: &str,
    normal: String,
    again: &str,
    r: String,
    parsed: Result<Schedule, ScheduleError>,
    reparsed: Result<Schedule, ScheduleError>,
    seconds: i64,
    reseconds: i64,
)
    requires
        call_ensures(normalize, (expr,), normal),
        again@ == normal@,
        call_ensures(normalize, (again,), r),
        call_ensures(parse, (expr,), parsed),
        call_ensures(parse, (again,), reparsed),
        parsed matches Ok(schedule) ==> call_ensures(
            Schedule::interval_seconds,
            (&schedule,),
            seconds,
        ),
        reparsed matches Ok(schedule) ==> call_ensures(
            Schedule::interval_seconds,
            (&schedule,),
            reseconds,
        ),
    ensures
        r@ == normal@,
        parsed is Ok <==> reparsed is Ok,
        parsed is Ok ==> seconds == reseconds,
{
    law_normalize_is_idempotent(expr@);
    law_parse_sees_the_normal_form(expr@, again@);
}

/// The next occurrence after an instant: strictly after it, at most one interval later,
/// and a whole number of intervals from the Unix epoch. There is only one such instant.
pub proof fn law_next_after(
    schedule: &Schedule,
    seconds: i64,
    t: Timestamp,
    at: i128,
    r: Timestamp,
    next: i128,
)
    requires
        call_ensures(Schedule::interval_seconds, (schedule,), seconds),
        call_ensures(Timestamp::as_nanosecond, (t,), at),
        call_ensures(Schedule::next_after, (schedule, t), r),
        call_ensures(Timestamp::as_nanosecond, (r,), next),
    ensures
        next as int % (seconds * 1_000_000_000) == 0,
        at < next <= at + seconds * 1_000_000_000,
{
    law_next_occurrence(at as int, seconds as int);
}

/// Waiting ends at the next occurrence, and lasts until then; there is none to wait for
/// only where no whole number of intervals from the epoch is left in time.
pub proof fn law_wait_after(
    schedule: &Schedule,
    seconds: i64,
    now: Timestamp,
    at: i128,
    r: Option<(Timestamp, u64)>,
    next: i128,
    occurrence: int,
)
    requires
        call_ensures(Schedule::interval_seconds, (schedule,), seconds),
        call_ensures(Timestamp::as_nanosecond, (now,), at),
        call_ensures(Schedule::wait_after, (schedule, now), r),
        r matches Some((t, wait)) ==> call_ensures(Timestamp::as_nanosecond, (t,), next),
    ensures
        r matches Some((t, wait)) ==> {
            &&& next as int % (seconds * 1_000_000_000) == 0
            &&& at < next <= at + seconds * 1_000_000_000
            &&& wait == next - at
        },
        r is None && occurrence % (seconds * 1_000_000_000) == 0 && occurrence > at ==> occurrence
            > 253_402_207_200_999_999_999,
{
    law_next_occurrence(at as int, seconds as int);
}

/// A schedule is written as it was given, whichever way it was made; a copy is the same
/// schedule.
pub proof fn law_expression_is_kept(
    expr: &str,
    value: String,
    parsed: Result<Schedule, ScheduleError>,
    made: Result<Schedule, ScheduleError>,
    schedule: Schedule,
    seconds: i64,
    written: String,
    copy: Schedule,
)
    requires
        value@ == expr@,
        call_ensures(parse, (expr,), parsed),
        call_ensures(<Schedule as TryFrom<String>>::try_from, (value,), made),
        parsed == Ok::<Schedule, ScheduleError>(schedule) || made == Ok::<Schedule, ScheduleError>(
            schedule,
        ),
        call_ensures(Schedule::interval_seconds, (&schedule,), seconds),
        call_ensures(Schedule::to_string, (&schedule,), written),
        call_ensures(<Schedule as Clone>::clone, (&schedule,), copy),
    ensures
        parsed is Ok && made is Ok,
        written@ == expr@,
        copy == schedule,
        forall|other: i64|
            #[trigger] call_ensures(Schedule::interval_seconds, (&parsed->Ok_0,), other)
                ==> other == seconds,
        forall|other: i64|
            #[trigger] call_ensures(Schedule::interval_seconds, (&made->Ok_0,), other)
                ==> other == seconds,
{
}

/// Both ways of making a schedule refuse the same expressions, and say the same of them.
pub proof fn law_refusals_agree(
    expr: &str,
    value: String,
    error: ScheduleError,
    other: Result<Schedule, ScheduleError>,
    message: String,
    other_message: String,
)
    requires
        value@ == expr@,
        call_ensures(parse, (expr,), Err::<Schedule, ScheduleError>(error)),
        call_ensures(<Schedule as TryFrom<String>>::try_from, (value,), other),
        call_ensures(ScheduleError::to_string, (&error,), message),
        other matches Err(e) ==> call_ensures(ScheduleError::to_string, (&e,), other_message),
    ensures
        other is Err,
        message@ == other_message@,
{
}

} // verus!
