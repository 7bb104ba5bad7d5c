use pinyin::ToPinyin;
use vstd::prelude::*;

use crate::deepinfra::opt_chars;
use crate::text::{
    chars_of, is_white_space, lemma_occurs_in_context, lemma_occurs_in_trim, occurs_between, occurs_in,
    trim, trim_bounds,
};

verus! {

/// The plain pinyin (no tone marks) that the pinyin tables give for `c`,
/// or `None` for a character they have no reading for.
pub uninterp spec fn plain_pinyin(c: char) -> Option<Seq<char>>;

/// Calls `<char as pinyin::ToPinyin>::to_pinyin` and, when it gives a reading,
/// `pinyin::Pinyin::plain` on it. Claimed: the result is `plain_pinyin(c)`,
/// a fixed function of `c` (the crate looks it up in static tables).
#[verifier::external_body]
fn char_plain_pinyin(c: char) -> (r: Option<String>)
    ensures
        opt_chars(r) == plain_pinyin(c),
{
    match c.to_pinyin() {
        Some(p) => Some(p.plain().to_string()),
        None => None,
    }
}

/// What one reading adds to the pinyin line: the reading and a space, or
/// nothing for a character with no reading.
pub open spec fn reading_piece(reading: Option<Seq<char>>) -> Seq<char> {
    match reading {
        Some(p) => p.push(' '),
        None => Seq::empty(),
    }
}

/// What one character adds to the pinyin line.
pub open spec fn pinyin_piece(c: char) -> Seq<char> {
    reading_piece(plain_pinyin(c))
}

/// The line made of a list of readings, one per character.
pub open spec fn readings_line(readings: Seq<Option<Seq<char>>>) -> Seq<char>
    decreases readings.len(),
{
    if readings.len() == 0 {
        Seq::empty()
    } else {
        readings_line(readings.drop_last()) + reading_piece(readings.last())
    }
}

/// The readings of the characters of `s`, one per character.
pub open spec fn pinyin_readings(s: Seq<char>) -> Seq<Option<Seq<char>>> {
    s.map_values(|c: char| plain_pinyin(c))
}

/// What a list of optional strings holds, as character sequences.
pub open spec fn reading_views(v: Seq<Option<String>>) -> Seq<Option<Seq<char>>> {
    v.map_values(|r: Option<String>| opt_chars(r))
}

/// The readings of the characters of `s` that have one, each followed by a space.
pub open spec fn pinyin_line(s: Seq<char>) -> Seq<char>
    decreases s.len(),
{
    if s.len() == 0 {
        Seq::empty()
    } else {
        pinyin_line(s.drop_last()) + pinyin_piece(s.last())
    }
}

/// The reading of the phrase the bot watches for.
pub open spec fn mingan_pinyin() -> Seq<char> {
    "bai deng qi zi xing che shuai dao"@
}

/// Whether `message`, read as pinyin, contains the watched phrase.
pub open spec fn is_mingan(message: Seq<char>) -> bool {
    occurs_in(mingan_pinyin(), trim(pinyin_line(message)))
}

/// Whether the line of `readings`, trimmed, contains the watched phrase.
pub open spec fn mingan_in(readings: Seq<Option<Seq<char>>>) -> bool {
    occurs_in(mingan_pinyin(), trim(readings_line(readings)))
}

/// The line of the readings of a text is its pinyin line.
pub proof fn lemma_readings_line(s: Seq<char>)
    ensures
        readings_line(pinyin_readings(s)) == pinyin_line(s),
    decreases s.len(),
{
    if s.len() > 0 {
        assert(pinyin_readings(s).drop_last() =~= pinyin_readings(s.drop_last()));
        lemma_readings_line(s.drop_last());
    }
}

fn push_all(v: &mut Vec<char>, s: &Vec<char>)
    ensures
        final(v)@ == old(v)@ + s@,
{
    let n = s.len();
    for j in 0..n
        invariant
            n == s@.len(),
            v@ == old(v)@ + s@.take(j as int),
    {
        v.push(s[j]);
        assert(s@.take(j + 1) =~= s@.take(j as int).push(s@[j as int]));
        assert(v@ =~= old(v)@ + s@.take(j + 1));
    }
    assert(s@.take(n as int) =~= s@);
}

/// Whether a list of readings, one per character of a message, touches the
/// watched phrase: the readings are joined with a space after each, the line
/// is trimmed and searched for the phrase.
pub fn mingan_in_readings(readings: &Vec<Option<String>>) -> (hit: bool)
    ensures
        hit == mingan_in(reading_views(readings@)),
{
    let ghost views = reading_views(readings@);
    let n = readings.len();
    let mut line: Vec<char> = Vec::new();
    for i in 0..n
        invariant
            n == readings@.len(),
            views == reading_views(readings@),
            line@ == readings_line(views.take(i as int)),
    {
        assert(views[i as int] == opt_chars(readings@[i as int]));
        match &readings[i] {
            Some(p) => {
                let pc = chars_of(p.as_str());
                push_all(&mut line, &pc);
                line.push(' ');
            },
            None => {},
        }
        assert(line@ =~= readings_line(views.take(i as int)) + reading_piece(views[i as int]));
        assert(views.take(i + 1).drop_last() =~= views.take(i as int));
    }
    assert(views.take(n as int) =~= views);
    let (lo, hi) = trim_bounds(&line);
    let phrase = chars_of("bai deng qi zi xing che shuai dao");
    occurs_between(&phrase, &line, lo, hi)
}

/// Whether a group message touches the watched phrase: each character is
/// read as pinyin, and the readings are searched as `mingan_in_readings` does.
pub fn check_mingan(raw_message: &str) -> (hit: bool)
    ensures
        hit == is_mingan(raw_message@),
{
    let chars = chars_of(raw_message);
    let n = chars.len();
    let mut readings: Vec<Option<String>> = Vec::new();
    for i in 0..n
        invariant
            n == chars@.len(),
            reading_views(readings@) == pinyin_readings(chars@.take(i as int)),
    {
        let r = char_plain_pinyin(chars[i]);
        let ghost before = readings@;
        readings.push(r);
        assert(reading_views(readings@) =~= reading_views(before).push(opt_chars(r)));
        assert(pinyin_readings(chars@.take(i + 1)) =~= pinyin_readings(chars@.take(i as int)).push(
            plain_pinyin(chars@[i as int]),
        ));
    }
    assert(chars@.take(n as int) =~= chars@);
    proof {
        lemma_readings_line(chars@);
    }
    mingan_in_readings(&readings)
}

/// The pinyin line of two texts one after the other is the line of the
/// first followed by the line of the second.
pub proof fn lemma_pinyin_line_concat(a: Seq<char>, b: Seq<char>)
    ensures
        pinyin_line(a + b) == pinyin_line(a) + pinyin_line(b),
    decreases b.len(),
{
    if b.len() == 0 {
        assert(a + b =~= a);
        assert(pinyin_line(a) + pinyin_line(b) =~= pinyin_line(a));
    } else {
        assert((a + b).drop_last() =~= a + b.drop_last());
        assert((a + b).last() == b.last());
        lemma_pinyin_line_concat(a, b.drop_last());
        assert(pinyin_line(a + b) =~= pinyin_line(a) + pinyin_line(b));
    }
}

proof fn lemma_pinyin_line_single(c: char)
    ensures
        pinyin_line(seq![c]) == pinyin_piece(c),
{
    assert(seq![c].drop_last() =~= Seq::<char>::empty());
    assert(pinyin_line(Seq::<char>::empty()) + pinyin_piece(c) =~= pinyin_piece(c));
}

/// A character with no pinyin reading (a latin letter, a digit, a space, a
/// punctuation mark, an emoji...) can be put in or taken out anywhere in a
/// message without changing whether the message touches the watched phrase.
pub proof fn law_mingan_ignores_unreadable_chars(before: Seq<char>, c: char, after: Seq<char>)
    requires
        plain_pinyin(c) is None,
    ensures
        is_mingan(before + seq![c] + after) == is_mingan(before + after),
{
    lemma_pinyin_line_concat(before + seq![c], after);
    lemma_pinyin_line_concat(before, seq![c]);
    lemma_pinyin_line_concat(before, after);
    lemma_pinyin_line_single(c);
    assert(pinyin_line(before) + pinyin_line(seq![c]) =~= pinyin_line(before));
}

/// Replacing a character by another with the same toneless reading does not
/// change whether the message touches the watched phrase.
pub proof fn law_mingan_same_reading_swap(before: Seq<char>, c: char, d: char, after: Seq<char>)
    requires
        plain_pinyin(c) == plain_pinyin(d),
    ensures
        is_mingan(before + seq![c] + after) == is_mingan(before + seq![d] + after),
{
    lemma_pinyin_line_concat(before + seq![c], after);
    lemma_pinyin_line_concat(before, seq![c]);
    lemma_pinyin_line_concat(before + seq![d], after);
    lemma_pinyin_line_concat(before, seq![d]);
    lemma_pinyin_line_single(c);
    lemma_pinyin_line_single(d);
}

/// Two messages whose characters read the same, one by one, touch the watched
/// phrase alike.
pub proof fn law_mingan_same_readings(m1: Seq<char>, m2: Seq<char>)
    requires
        m1.len() == m2.len(),
        forall|i: int| 0 <= i < m1.len() ==> plain_pinyin(#[trigger] m1[i]) == plain_pinyin(m2[i]),
    ensures
        is_mingan(m1) == is_mingan(m2),
{
    lemma_same_readings_line(m1, m2);
}

proof fn lemma_same_readings_line(m1: Seq<char>, m2: Seq<char>)
    requires
        m1.len() == m2.len(),
        forall|i: int| 0 <= i < m1.len() ==> plain_pinyin(#[trigger] m1[i]) == plain_pinyin(m2[i]),
    ensures
        pinyin_line(m1) == pinyin_line(m2),
    decreases m1.len(),
{
    if m1.len() > 0 {
        let n = m1.len() - 1;
        assert(plain_pinyin(m1[n]) == plain_pinyin(m2[n]));
        lemma_same_readings_line(m1.drop_last(), m2.drop_last());
    }
}

/// The line of two lists of readings one after the other is the line of
/// the first followed by the line of the second.
pub proof fn lemma_readings_line_concat(a: Seq<Option<Seq<char>>>, b: Seq<Option<Seq<char>>>)
    ensures
        readings_line(a + b) == readings_line(a) + readings_line(b),
    decreases b.len(),
{
    if b.len() == 0 {
        assert(a + b =~= a);
        assert(readings_line(a) + readings_line(b) =~= readings_line(a));
    } else {
        assert((a + b).drop_last() =~= a + b.drop_last());
        assert((a + b).last() == b.last());
        lemma_readings_line_concat(a, b.drop_last());
        assert(readings_line(a + b) =~= readings_line(a) + readings_line(b));
    }
}

/// The watched phrase is not empty, and neither begins nor ends with white space.
proof fn lemma_phrase_ends()
    ensures
        mingan_pinyin().len() > 0,
        !is_white_space(mingan_pinyin()[0]),
        !is_white_space(mingan_pinyin().last()),
{
    reveal_strlit("bai deng qi zi xing che shuai dao");
}

/// A message is flagged exactly when the watched phrase occurs somewhere in
/// its pinyin line: at its start, in its middle or at its end.
pub proof fn law_mingan_anywhere_in_line(message: Seq<char>)
    ensures
        is_mingan(message) <==> exists|i: int|
            0 <= i && i + mingan_pinyin().len() <= pinyin_line(message).len()
                && #[trigger] pinyin_line(message).subrange(i, i + mingan_pinyin().len())
                == mingan_pinyin(),
{
    lemma_phrase_ends();
    lemma_occurs_in_trim(mingan_pinyin(), pinyin_line(message));
}

/// A flagged message stays flagged whatever text is put before and after it.
pub proof fn law_mingan_kept_in_context(before: Seq<char>, message: Seq<char>, after: Seq<char>)
    requires
        is_mingan(message),
    ensures
        is_mingan(before + message + after),
{
    lemma_phrase_ends();
    lemma_occurs_in_trim(mingan_pinyin(), pinyin_line(message));
    lemma_pinyin_line_concat(before + message, after);
    lemma_pinyin_line_concat(before, message);
    lemma_occurs_in_context(mingan_pinyin(), pinyin_line(before), pinyin_line(message), pinyin_line(after));
    lemma_occurs_in_trim(mingan_pinyin(), pinyin_line(before + message + after));
}

/// A list of readings is flagged exactly when the watched phrase occurs
/// somewhere in its line.
pub proof fn law_mingan_in_anywhere_in_line(readings: Seq<Option<Seq<char>>>)
    ensures
        mingan_in(readings) <==> exists|i: int|
            0 <= i && i + mingan_pinyin().len() <= readings_line(readings).len()
                && #[trigger] readings_line(readings).subrange(i, i + mingan_pinyin().len())
                == mingan_pinyin(),
{
    lemma_phrase_ends();
    lemma_occurs_in_trim(mingan_pinyin(), readings_line(readings));
}

/// Flagged readings stay flagged whatever readings come before and after them.
pub proof fn law_mingan_in_kept_in_context(
    before: Seq<Option<Seq<char>>>,
    readings: Seq<Option<Seq<char>>>,
    after: Seq<Option<Seq<char>>>,
)
    requires
        mingan_in(readings),
    ensures
        mingan_in(before + readings + after),
{
    lemma_phrase_ends();
    lemma_occurs_in_trim(mingan_pinyin(), readings_line(readings));
    lemma_readings_line_concat(before + readings, after);
    lemma_readings_line_concat(before, readings);
    lemma_occurs_in_context(
        mingan_pinyin(),
        readings_line(before),
        readings_line(readings),
        readings_line(after),
    );
    lemma_occurs_in_trim(mingan_pinyin(), readings_line(before + readings + after));
}

} // verus!
