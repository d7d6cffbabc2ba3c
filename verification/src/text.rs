//! Text: words, letters, numbers and lists, as sequences of characters.

use vstd::prelude::*;

verus! {

/// `String::push` appends one character and changes nothing else.
pub assume_specification[ String::push ](s: &mut String, c: char)
    ensures
        final(s)@ == old(s)@.push(c),
;

/// The contents of a list of strings.
pub open spec fn texts(list: Seq<String>) -> Seq<Seq<char>> {
    Seq::new(list.len(), |i: int| list[i]@)
}

/// The list of texts `parts`, written one after the other with `separator` in between.
pub open spec fn joined(parts: Seq<Seq<char>>, separator: Seq<char>) -> Seq<char>
    decreases parts.len(),
{
    if parts.len() == 0 {
        seq![]
    } else if parts.len() == 1 {
        parts[0]
    } else {
        joined(parts.drop_last(), separator) + separator + parts.last()
    }
}

/// The characters with the Unicode property `White_Space`.
pub open spec fn is_space(c: char) -> bool {
    ||| '\u{9}' <= c <= '\u{d}'
    ||| c == '\u{20}'
    ||| c == '\u{85}'
    ||| c == '\u{a0}'
    ||| c == '\u{1680}'
    ||| '\u{2000}' <= c <= '\u{200a}'
    ||| '\u{2028}' <= c <= '\u{2029}'
    ||| c == '\u{202f}'
    ||| c == '\u{205f}'
    ||| c == '\u{3000}'
}

/// The words of a text: its longest stretches without white space, in order.
pub open spec fn words(text: Seq<char>) -> Seq<Seq<char>>
    decreases text.len(),
{
    if text.len() == 0 {
        seq![]
    } else {
        let before = text.drop_last();
        let c = text.last();
        if is_space(c) {
            words(before)
        } else if before.len() == 0 || is_space(before.last()) {
            words(before).push(seq![c])
        } else {
            words(before).drop_last().push(words(before).last().push(c))
        }
    }
}

/// The lower-case form of an ASCII letter; any other character is its own.
pub open spec fn lower(c: char) -> char {
    if 'A' <= c <= 'Z' {
        (c as u32 + 32) as char
    } else {
        c
    }
}

/// A text with every ASCII letter in lower case.
pub open spec fn lowercase(text: Seq<char>) -> Seq<char> {
    Seq::new(text.len(), |i: int| lower(text[i]))
}

pub open spec fn is_digit(c: char) -> bool {
    '0' <= c <= '9'
}

/// The number that a row of decimal digits stands for.
pub open spec fn digits_value(digits: Seq<char>) -> nat
    decreases digits.len(),
{
    if digits.len() == 0 {
        0
    } else {
        digits_value(digits.drop_last()) * 10 + (digits.last() as nat - '0' as nat) as nat
    }
}

/// What is left of a number's text after its optional plus sign.
pub open spec fn unsigned_digits(text: Seq<char>) -> Seq<char> {
    if text.len() > 0 && text[0] == '+' {
        text.skip(1)
    } else {
        text
    }
}

/// The unsigned number that a text writes in decimal: an optional plus sign, then at
/// least one digit and nothing else. `None` for any other text, and for a number above
/// `limit`.
pub open spec fn unsigned_value(text: Seq<char>, limit: nat) -> Option<nat> {
    let digits = unsigned_digits(text);
    if digits.len() > 0 && (forall|i: int| 0 <= i < digits.len() ==> is_digit(#[trigger] digits[i]))
        && digits_value(digits) <= limit {
        Some(digits_value(digits))
    } else {
        None
    }
}

/// A number in decimal, without leading zeros.
pub open spec fn decimal(n: nat) -> Seq<char>
    decreases n,
{
    if n < 10 {
        seq![('0' as nat + n) as char]
    } else {
        decimal(n / 10).push(('0' as nat + n % 10) as char)
    }
}

/// Whether `part` stands somewhere in `text`.
pub open spec fn contains_text(text: Seq<char>, part: Seq<char>) -> bool {
    exists|at: int|
        0 <= at && at + part.len() <= text.len() && #[trigger] text.subrange(at, at + part.len())
            == part
}

pub fn is_whitespace(c: char) -> (r: bool)
    ensures
        r == is_space(c),
{
    ('\u{9}' <= c && c <= '\u{d}') || c == '\u{20}' || c == '\u{85}' || c == '\u{a0}' || c
        == '\u{1680}' || ('\u{2000}' <= c && c <= '\u{200a}') || ('\u{2028}' <= c && c
        <= '\u{2029}') || c == '\u{202f}' || c == '\u{205f}' || c == '\u{3000}'
}

pub(crate) fn same_text(a: &str, b: &str) -> (r: bool)
    ensures
        r == (a@ == b@),
{
    a.to_string() == b.to_string()
}

/// The characters of a text.
fn characters(text: &str) -> (r: Vec<char>)
    ensures
        r@ == text@,
{
    let mut out: Vec<char> = Vec::new();
    for c in it: text.chars()
        invariant
            it.seq() == text@,
            out@ == text@.take(it.index()),
    {
        out.push(c);
    }
    out
}

/// Splits a text at white space, in order and without empty words.
pub fn split_words(text: &str) -> (r: Vec<String>)
    ensures
        texts(r@) == words(text@),
{
    let mut done: Vec<String> = Vec::new();
    let mut word = String::new();
    for c in it: text.chars()
        invariant
            it.seq() == text@,
            ({
                let seen = text@.take(it.index());
                let open = seen.len() > 0 && !is_space(seen.last());
                &&& open == (word@.len() > 0)
                &&& words(seen) == if open {
                    texts(done@).push(word@)
                } else {
                    texts(done@)
                }
            }),
    {
        let ghost seen = text@.take(it.index());
        let ghost next = text@.take(it.index() + 1);
        let ghost word_before = word@;
        let ghost done_before = done@;
        proof {
            assert(next.drop_last() == seen);
            assert(next.last() == c);
        }
        if is_whitespace(c) {
            if !word.as_str().is_empty() {
                done.push(word);
                word = String::new();
                proof {
                    assert(texts(done@) == texts(done_before).push(word_before));
                }
            }
        } else {
            word.push(c);
            proof {
                if word_before.len() == 0 {
                    assert(word@ == seq![c]);
                } else {
                    assert(texts(done@).push(word_before).drop_last() == texts(done@));
                }
            }
        }
    }
    proof {
        assert(text@.take(text@.len() as int) == text@);
    }
    let ghost done_before = done@;
    let ghost word_before = word@;
    if !word.as_str().is_empty() {
        done.push(word);
        proof {
            assert(texts(done@) == texts(done_before).push(word_before));
        }
    }
    done
}

/// Writes a text with every ASCII letter in lower case.
pub fn to_lowercase(text: &str) -> (r: String)
    ensures
        r@ == lowercase(text@),
{
    let mut out = String::new();
    for c in it: text.chars()
        invariant
            it.seq() == text@,
            out@ == lowercase(text@.take(it.index())),
    {
        let ghost before = out@;
        if 'A' <= c && c <= 'Z' {
            out.push(((c as u8) + 32u8) as char);
        } else {
            out.push(c);
        }
        proof {
            assert(out@ == lowercase(text@.take(it.index() + 1)));
        }
    }
    proof {
        assert(text@.take(text@.len() as int) == text@);
    }
    out
}

/// Writes the texts of a list one after the other with a separator in between.
pub fn join(parts: &[String], separator: &str) -> (r: String)
    ensures
        r@ == joined(texts(parts@), separator@),
{
    let mut out = String::new();
    for i in 0..parts.len()
        invariant
            out@ == joined(texts(parts@).take(i as int), separator@),
    {
        proof {
            let next = texts(parts@).take(i + 1);
            assert(next.drop_last() == texts(parts@).take(i as int));
            assert(next.last() == parts@[i as int]@);
        }
        if i > 0 {
            out.append(separator);
        }
        out.append(parts[i].as_str());
        proof {
            if i == 0 {
                assert(out@ == parts@[0]@);
            }
        }
    }
    proof {
        assert(texts(parts@).take(parts@.len() as int) == texts(parts@));
    }
    out
}

/// A word: at least one character, none of them white space.
pub open spec fn is_word(text: Seq<char>) -> bool {
    &&& text.len() > 0
    &&& forall|i: int| 0 <= i < text.len() ==> !is_space(#[trigger] text[i])
}

/// What a text splits into are words; its last word is open exactly when the text does
/// not end in white space.
pub proof fn lemma_words_are_words(text: Seq<char>)
    ensures
        forall|i: int| 0 <= i < words(text).len() ==> is_word(#[trigger] words(text)[i]),
        text.len() > 0 && !is_space(text.last()) ==> words(text).len() > 0,
    decreases text.len(),
{
    if text.len() > 0 {
        let before = text.drop_last();
        let c = text.last();
        lemma_words_are_words(before);
        assert forall|i: int| 0 <= i < words(text).len() implies is_word(
            #[trigger] words(text)[i],
        ) by {
            if is_space(c) {
            } else if before.len() == 0 || is_space(before.last()) {
                if i < words(before).len() {
                    assert(words(text)[i] == words(before)[i]);
                }
            } else if i < words(before).len() - 1 {
                assert(words(text)[i] == words(before)[i]);
            } else {
                assert(is_word(words(before).last()));
                assert(words(text)[i] == words(before).last().push(c));
            }
        }
    }
}

/// A word set behind white space, or at the start, is one word more.
pub proof fn lemma_words_push(before: Seq<char>, word: Seq<char>)
    requires
        is_word(word),
        before.len() == 0 || is_space(before.last()),
    ensures
        words(before + word) == words(before).push(word),
    decreases word.len(),
{
    let text = before + word;
    assert(text.last() == word.last());
    if word.len() == 1 {
        assert(text.drop_last() == before);
        assert(word == seq![word.last()]);
    } else {
        let shorter = word.drop_last();
        assert forall|i: int| 0 <= i < shorter.len() implies !is_space(#[trigger] shorter[i]) by {
            assert(shorter[i] == word[i]);
        }
        lemma_words_push(before, shorter);
        assert(text.drop_last() == before + shorter);
        assert((before + shorter).last() == shorter.last());
        assert(words(before).push(shorter).drop_last() == words(before));
        assert(shorter.push(word.last()) == word);
    }
}

/// Words written one space apart are read back.
pub proof fn lemma_words_of_joined(parts: Seq<Seq<char>>)
    requires
        forall|i: int| 0 <= i < parts.len() ==> is_word(#[trigger] parts[i]),
    ensures
        words(joined(parts, " "@)) == parts,
    decreases parts.len(),
{
    reveal_strlit(" ");
    if parts.len() == 0 {
    } else if parts.len() == 1 {
        lemma_words_push(seq![], parts[0]);
        assert(seq![] + parts[0] == parts[0]);
        assert(words(seq![]).push(parts[0]) == parts);
    } else {
        let init = parts.drop_last();
        assert forall|i: int| 0 <= i < init.len() implies is_word(#[trigger] init[i]) by {
            assert(init[i] == parts[i]);
        }
        lemma_words_of_joined(init);
        let before = joined(init, " "@) + " "@;
        assert(before.last() == ' ');
        assert(before.drop_last() == joined(init, " "@));
        lemma_words_push(before, parts.last());
        assert(init.push(parts.last()) == parts);
    }
}

/// Lowering the case of a text lowers the case of its words.
pub proof fn lemma_words_of_lowercase(text: Seq<char>)
    ensures
        words(lowercase(text)) == Seq::new(words(text).len(), |i: int| lowercase(words(text)[i])),
    decreases text.len(),
{
    let lowered = lowercase(text);
    if text.len() > 0 {
        let before = text.drop_last();
        let c = text.last();
        lemma_words_of_lowercase(before);
        lemma_words_are_words(before);
        assert(lowered.drop_last() == lowercase(before));
        assert(lowered.last() == lower(c));
        let f = |w: Seq<Seq<char>>| Seq::new(w.len(), |i: int| lowercase(w[i]));
        if is_space(c) {
        } else if before.len() == 0 || is_space(before.last()) {
            assert(lowercase(seq![c]) == seq![lower(c)]);
            assert(words(lowered) == f(words(text)));
        } else {
            assert(lowercase(before).last() == lower(before.last()));
            assert(lowercase(words(before).last().push(c)) == lowercase(
                words(before).last(),
            ).push(lower(c)));
            assert(words(lowered) == f(words(text)));
        }
    } else {
        assert(words(lowered) == Seq::new(words(text).len(), |i: int| lowercase(words(text)[i])));
    }
}

/// A number in decimal is read back.
pub proof fn lemma_decimal_reads_back(n: nat)
    ensures
        decimal(n).len() > 0,
        forall|i: int| 0 <= i < decimal(n).len() ==> is_digit(#[trigger] decimal(n)[i]),
        digits_value(decimal(n)) == n,
    decreases n,
{
    if n < 10 {
        assert(decimal(n).drop_last() == Seq::<char>::empty());
        assert(digits_value(Seq::<char>::empty()) == 0);
    } else {
        lemma_decimal_reads_back(n / 10);
        assert(decimal(n).drop_last() == decimal(n / 10));
    }
}

/// Digits further on only make a number larger.
proof fn lemma_digits_value_grows(digits: Seq<char>, i: int)
    requires
        0 <= i <= digits.len(),
    ensures
        digits_value(digits.take(i)) <= digits_value(digits),
    decreases digits.len(),
{
    if i < digits.len() {
        lemma_digits_value_grows(digits.drop_last(), i);
        assert(digits.drop_last().take(i) == digits.take(i));
    } else {
        assert(digits.take(i) == digits);
    }
}

/// Reads an unsigned decimal number of at most `limit`.
pub fn parse_unsigned(text: &str, limit: u64) -> (r: Option<u64>)
    ensures
        match unsigned_value(text@, limit as nat) {
            Some(n) => r is Some && r->0 == n,
            None => r is None,
        },
{
    let chars = characters(text);
    let mut at: usize = 0;
    if chars.len() > 0 && chars[0] == '+' {
        at = 1;
    }
    let ghost digits = unsigned_digits(text@);
    let ghost start = at as int;
    assert(digits == text@.skip(start));
    if at == chars.len() {
        return None;
    }
    let mut value: u64 = 0;
    while at < chars.len()
        invariant
            chars@ == text@,
            digits == text@.skip(start),
            digits == unsigned_digits(text@),
            0 <= start <= at <= chars.len(),
            forall|i: int| 0 <= i < at - start ==> is_digit(#[trigger] digits[i]),
            value == digits_value(digits.take(at - start)),
            value <= limit,
        decreases chars.len() - at,
    {
        let c = chars[at];
        proof {
            assert(digits[at - start] == c);
            assert(digits.take(at - start + 1).drop_last() == digits.take(at - start));
            lemma_digits_value_grows(digits, at - start + 1);
        }
        if !('0' <= c && c <= '9') {
            return None;
        }
        let digit: u64 = (c as u64) - ('0' as u64);
        if value > limit / 10 || digit > limit - value * 10 {
            return None;
        }
        value = value * 10 + digit;
        at = at + 1;
    }
    proof {
        assert(digits.take(at - start) == digits);
    }
    Some(value)
}

/// Writes a number in decimal.
pub fn decimal_text(n: u64) -> (r: String)
    ensures
        r@ == decimal(n as nat),
    decreases n,
{
    if n < 10 {
        let mut out = String::new();
        out.push(((n as u8) + ('0' as u8)) as char);
        assert(out@ == decimal(n as nat));
        out
    } else {
        let mut out = decimal_text(n / 10);
        out.push((((n % 10) as u8) + ('0' as u8)) as char);
        out
    }
}

/// A text contains what it was put together from.
pub proof fn lemma_contains_part(before: Seq<char>, part: Seq<char>, after: Seq<char>)
    ensures
        contains_text(before + part + after, part),
{
    let text = before + part + after;
    let at = before.len() as int;
    assert(text.subrange(at, at + part.len()) == part);
}

/// A text contains what a part of it contains.
pub proof fn lemma_contains_deeper(
    before: Seq<char>,
    part: Seq<char>,
    after: Seq<char>,
    inner: Seq<char>,
)
    requires
        contains_text(part, inner),
    ensures
        contains_text(before + part + after, inner),
{
    let text = before + part + after;
    let at = choose|at: int|
        0 <= at && at + inner.len() <= part.len() && #[trigger] part.subrange(
            at,
            at + inner.len(),
        ) == inner;
    let start = before.len() + at;
    assert(text.subrange(start, start + inner.len()) == part.subrange(at, at + inner.len()));
}

/// A joined list contains each of its parts.
pub proof fn lemma_joined_contains(parts: Seq<Seq<char>>, separator: Seq<char>, i: int)
    requires
        0 <= i < parts.len(),
    ensures
        contains_text(joined(parts, separator), parts[i]),
    decreases parts.len(),
{
    let whole = joined(parts, separator);
    if parts.len() == 1 {
        lemma_contains_part(seq![], parts[i], seq![]);
        assert(whole == Seq::<char>::empty() + parts[i] + Seq::<char>::empty());
    } else {
        let init = joined(parts.drop_last(), separator);
        if i == parts.len() - 1 {
            lemma_contains_part(init + separator, parts[i], seq![]);
            assert(whole == (init + separator) + parts[i] + Seq::<char>::empty());
        } else {
            lemma_joined_contains(parts.drop_last(), separator, i);
            assert(parts.drop_last()[i] == parts[i]);
            lemma_contains_deeper(seq![], init, separator + parts.last(), parts[i]);
            assert(whole == Seq::<char>::empty() + init + (separator + parts.last()));
        }
    }
}

/// The contents of a list are those of its strings, one for one.
pub proof fn law_texts(list: Seq<String>, i: int)
    requires
        0 <= i < list.len(),
    ensures
        texts(list).len() == list.len(),
        texts(list)[i] == list[i]@,
{
}

/// One text stands somewhere in another exactly when the other is something, then the
/// text, then something.
pub proof fn law_contains_text(text: Seq<char>, part: Seq<char>)
    ensures
        contains_text(text, part) <==> exists|before: Seq<char>, after: Seq<char>|
            text == #[trigger] (before + part + after),
{
    if contains_text(text, part) {
        let at = choose|at: int|
            0 <= at && at + part.len() <= text.len() && #[trigger] text.subrange(
                at,
                at + part.len(),
            ) == part;
        let before = text.take(at);
        let after = text.skip(at + part.len());
        assert(text == before + part + after) by {
            assert forall|i: int| at <= i < at + part.len() implies text[i] == part[i - at] by {
                assert(text.subrange(at, at + part.len())[i - at] == text[i]);
            }
        }
    }
    if exists|before: Seq<char>, after: Seq<char>| text == #[trigger] (before + part + after) {
        let (before, after) = choose|before: Seq<char>, after: Seq<char>|
            text == #[trigger] (before + part + after);
        lemma_contains_part(before, part, after);
    }
}

/// White space is the characters that Unicode calls so, and none else.
pub proof fn law_white_space(c: char, r: bool)
    requires
        call_ensures(is_whitespace, (c,), r),
    ensures
        r == is_space(c),
        r <==> ({
            let point = c as int;
            ||| 0x9 <= point <= 0xd
            ||| point == 0x20
            ||| point == 0x85
            ||| point == 0xa0
            ||| point == 0x1680
            ||| 0x2000 <= point <= 0x200a
            ||| 0x2028 <= point <= 0x2029
            ||| point == 0x202f
            ||| point == 0x205f
            ||| point == 0x3000
        }),
{
}

/// A text splits into its words, in order.
pub proof fn law_split_gives_the_words(text: &str, r: Vec<String>)
    requires
        call_ensures(split_words, (text,), r),
    ensures
        r@.len() == words(text@).len(),
        forall|i: int| 0 <= i < r@.len() ==> (#[trigger] r@[i])@ == words(text@)[i],
{
    assert(texts(r@).len() == r@.len());
    assert forall|i: int| 0 <= i < r@.len() implies (#[trigger] r@[i])@ == words(text@)[i] by {
        assert(texts(r@)[i] == r@[i]@);
    }
}

/// White space parts words, wherever it stands: what is before it and what is after it
/// are split as if they stood alone.
pub proof fn law_white_space_parts_words(before: Seq<char>, c: char, after: Seq<char>)
    requires
        is_space(c),
    ensures
        words(before + seq![c] + after) == words(before) + words(after),
    decreases after.len(),
{
    let text = before + seq![c] + after;
    if after.len() == 0 {
        assert(text.drop_last() == before);
        assert(text.last() == c);
        assert(words(after) == Seq::<Seq<char>>::empty());
        assert(words(before) + words(after) == words(before));
    } else {
        let rest = after.drop_last();
        let d = after.last();
        law_white_space_parts_words(before, c, rest);
        assert(text.drop_last() == before + seq![c] + rest);
        assert(text.last() == d);
        let front = text.drop_last();
        if is_space(d) {
        } else if rest.len() == 0 {
            assert(front.last() == c);
            assert(words(rest) == Seq::<Seq<char>>::empty());
            assert(words(front) == words(before));
            assert(words(after) == seq![seq![d]]);
            assert(words(text) == words(before).push(seq![d]));
        } else {
            assert(front.last() == rest.last());
            if is_space(rest.last()) {
                assert((words(before) + words(rest)).push(seq![d]) == words(before) + words(
                    rest,
                ).push(seq![d]));
            } else {
                lemma_words_are_words(rest);
                assert((words(before) + words(rest)).drop_last() == words(before) + words(
                    rest,
                ).drop_last());
                assert((words(before) + words(rest)).last() == words(rest).last());
                assert(words(text) == words(before) + words(after));
            }
        }
    }
}

/// A text without white space is one word, and an empty text is none.
pub proof fn law_word_alone(text: Seq<char>)
    requires
        forall|i: int| 0 <= i < text.len() ==> !is_space(#[trigger] text[i]),
    ensures
        words(text) == if text.len() == 0 {
            Seq::<Seq<char>>::empty()
        } else {
            seq![text]
        },
    decreases text.len(),
{
    if text.len() > 0 {
        let before = text.drop_last();
        assert(text == before.push(text.last()));
        assert(!is_space(text[text.len() - 1]));
        law_word_alone(before);
        if before.len() == 0 {
            assert(seq![text.last()] == text);
            assert(words(text) == seq![text]);
        } else {
            assert(!is_space(text[text.len() - 2]));
            assert(before.last() == text[text.len() - 2]);
            assert(words(before).drop_last() == Seq::<Seq<char>>::empty());
            assert(words(text) == seq![text]);
        }
    }
}

/// Every letter from `A` to `Z` becomes the one 32 code points up; any other character
/// stays as it is.
pub proof fn law_lower_case(text: &str, r: String)
    requires
        call_ensures(to_lowercase, (text,), r),
    ensures
        r@ == lowercase(text@),
        r@.len() == text@.len(),
        forall|i: int|
            #![trigger r@[i]]
            0 <= i < r@.len() ==> r@[i] as int == text@[i] as int + if 65 <= text@[i] as int <= 90 {
                32int
            } else {
                0
            },
{
}

/// Every letter from `A` to `Z` becomes the one 32 code points up; any other character
/// stays as it is.
pub proof fn law_lower_letter(c: char)
    ensures
        65 <= c as int <= 90 ==> lower(c) as int == c as int + 32,
        !(65 <= c as int <= 90) ==> lower(c) == c,
        lowercase(seq![c]) == seq![lower(c)],
{
}

/// A list joins in two halves as it joins in one; a text alone is joined with nothing, and
/// there is nothing in an empty list.
pub proof fn law_joining(
    front: Seq<Seq<char>>,
    back: Seq<Seq<char>>,
    separator: Seq<char>,
    alone: Seq<char>,
)
    ensures
        front.len() > 0 && back.len() > 0 ==> joined(front + back, separator) == joined(
            front,
            separator,
        ) + separator + joined(back, separator),
        joined(seq![alone], separator) == alone,
        joined(seq![], separator) == Seq::<char>::empty(),
    decreases back.len(),
{
    if front.len() > 0 && back.len() > 0 {
        let whole = front + back;
        assert(whole.last() == back.last());
        if back.len() == 1 {
            assert(whole.drop_last() == front);
            assert(joined(back, separator) == back[0]);
        } else {
            law_joining(front, back.drop_last(), separator, alone);
            assert(whole.drop_last() == front + back.drop_last());
            assert(joined(front, separator) + separator + joined(back.drop_last(), separator)
                + separator + back.last() == joined(front, separator) + separator + joined(
                back,
                separator,
            ));
        }
    }
}

/// A list is joined in order, all of it.
pub proof fn law_join_gives_the_list_joined(parts: &[String], separator: &str, r: String)
    requires
        call_ensures(join, (parts, separator), r),
    ensures
        r@ == joined(Seq::new(parts@.len(), |i: int| parts@[i]@), separator@),
{
    assert(texts(parts@) == Seq::new(parts@.len(), |i: int| parts@[i]@));
}

/// Digits count by their place: those further to the front by ten times as much for every
/// digit behind them; a digit alone is what it says.
pub proof fn law_digits_count_by_place(front: Seq<char>, back: Seq<char>, digit: char)
    requires
        forall|i: int| 0 <= i < back.len() ==> 48 <= #[trigger] back[i] as int <= 57,
        48 <= digit as int <= 57,
    ensures
        digits_value(front + back) == digits_value(front) * vstd::arithmetic::power::pow(
            10,
            back.len(),
        ) + digits_value(back),
        digits_value(seq![digit]) == digit as int - 48,
    decreases back.len(),
{
    assert(seq![digit].drop_last() == Seq::<char>::empty());
    assert(digits_value(Seq::<char>::empty()) == 0);
    if back.len() == 0 {
        vstd::arithmetic::power::lemma_pow0(10);
        assert(front + back == front);
        assert(digits_value(front) * 1 == digits_value(front));
    } else {
        let rest = back.drop_last();
        assert forall|i: int| 0 <= i < rest.len() implies 48 <= #[trigger] rest[i] as int <= 57 by {
            assert(rest[i] == back[i]);
        }
        assert(48 <= back[back.len() - 1] as int <= 57);
        law_digits_count_by_place(front, rest, digit);
        assert((front + back).drop_last() == front + rest);
        assert((front + back).last() == back.last());
        assert(vstd::arithmetic::power::pow(10, back.len()) == 10 * vstd::arithmetic::power::pow(
            10,
            rest.len(),
        )) by {
            reveal(vstd::arithmetic::power::pow);
        }
        let f = digits_value(front) as int;
        let p = vstd::arithmetic::power::pow(10, rest.len());
        assert(f * (10 * p) == (f * p) * 10) by (nonlinear_arith);
    }
}

/// A row of digits is read as the number that it stands for, with or without a plus sign,
/// where that number is within the limit.
pub proof fn law_number_is_read(text: &str, limit: u64, r: Option<u64>, digits: Seq<char>)
    requires
        call_ensures(parse_unsigned, (text, limit), r),
        text@ == digits || text@ == seq!['+'] + digits,
        digits.len() > 0,
        forall|i: int| 0 <= i < digits.len() ==> 48 <= #[trigger] digits[i] as int <= 57,
    ensures
        r is Some <==> digits_value(digits) <= limit,
        r matches Some(n) ==> n == digits_value(digits),
{
    assert(48 <= digits[0] as int <= 57);
    assert((seq!['+'] + digits).skip(1) == digits);
    assert(unsigned_digits(text@) == digits);
    assert forall|i: int| 0 <= i < digits.len() implies is_digit(#[trigger] digits[i]) by {
        assert(48 <= digits[i] as int <= 57);
    }
}

/// What is no row of digits, but for a plus sign in front, is no number.
pub proof fn law_no_number_is_read(text: &str, limit: u64, r: Option<u64>, i: int)
    requires
        call_ensures(parse_unsigned, (text, limit), r),
        text@.len() == 0 || text@ == seq!['+'] || (0 <= i < text@.len() && !(48 <= text@[i] as int
            <= 57) && !(i == 0 && text@[i] == '+')),
    ensures
        r is None,
{
    let digits = unsigned_digits(text@);
    if text@.len() > 0 && text@ != seq!['+'] {
        if text@[0] == '+' {
            assert(digits[i - 1] == text@[i]);
        } else {
            assert(digits[i] == text@[i]);
        }
        assert(!(forall|k: int| 0 <= k < digits.len() ==> is_digit(#[trigger] digits[k]))) by {
            if text@[0] == '+' {
                assert(!is_digit(digits[i - 1]));
            } else {
                assert(!is_digit(digits[i]));
            }
        }
    }
}

/// A number in decimal is a row of digits that stands for it, without leading zeros.
pub proof fn law_number_is_written(n: u64, r: String)
    requires
        call_ensures(decimal_text, (n,), r),
    ensures
        r@ == decimal(n as nat),
        r@.len() > 0,
        forall|i: int| 0 <= i < r@.len() ==> 48 <= #[trigger] r@[i] as int <= 57,
        digits_value(r@) == n,
        r@.len() > 1 ==> r@[0] != '0',
{
    lemma_decimal_reads_back(n as nat);
    lemma_no_leading_zero(n as nat);
    assert forall|i: int| 0 <= i < r@.len() implies 48 <= #[trigger] r@[i] as int <= 57 by {
        assert(is_digit(decimal(n as nat)[i]));
    }
}

/// A number in decimal is a row of digits that stands for it, without leading zeros.
pub proof fn law_decimal(n: nat)
    ensures
        decimal(n).len() > 0,
        forall|i: int| 0 <= i < decimal(n).len() ==> 48 <= #[trigger] decimal(n)[i] as int <= 57,
        digits_value(decimal(n)) == n,
        decimal(n).len() > 1 ==> decimal(n)[0] != '0',
{
    lemma_decimal_reads_back(n);
    lemma_no_leading_zero(n);
    assert forall|i: int| 0 <= i < decimal(n).len() implies 48 <= #[trigger] decimal(n)[i] as int
        <= 57 by {
        assert(is_digit(decimal(n)[i]));
    }
}

proof fn lemma_no_leading_zero(n: nat)
    ensures
        n > 0 ==> decimal(n)[0] != '0',
        n < 10 ==> decimal(n).len() == 1,
    decreases n,
{
    if n >= 10 {
        lemma_no_leading_zero(n / 10);
        lemma_decimal_reads_back(n / 10);
    }
}

/// Texts are the same exactly when they have the same characters in the same places.
pub(crate) proof fn law_same_text(a: &str, b: &str, r: bool)
    requires
        call_ensures(same_text, (a, b), r),
    ensures
        r <==> a@.len() == b@.len() && forall|i: int|
            0 <= i < a@.len() ==> #[trigger] a@[i] == b@[i],
{
    if a@.len() == b@.len() && (forall|i: int| 0 <= i < a@.len() ==> #[trigger] a@[i] == b@[i]) {
        assert(a@ =~= b@);
    }
}

} // verus!
