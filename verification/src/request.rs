//! The request by which an operator asks for new durations.
//!
//! A request is the byte string `on=<seconds>&off=<seconds>`. Each
//! `<seconds>` is a decimal number; the durations asked for are a thousand
//! times these, in milliseconds. Nothing else is taken: this module says
//! for every byte string whether it is a request, what it asks for if it
//! is, and what is wrong with it if it is not.

use crate::config::{Durations, TimerConfig, MAX_SECONDS};
use vstd::prelude::*;
use vstd::slice::slice_subrange;

verus! {

/// The byte `&`, which separates the pairs of a request.
pub const PAIR_SEPARATOR: u8 = 0x26;

/// The byte `+`, which a number may carry in front of its digits.
pub const PLUS_SIGN: u8 = 0x2b;

/// The byte `0`, the first of the ten digits.
pub const DIGIT_ZERO: u8 = 0x30;

/// The byte `9`, the last of the ten digits.
pub const DIGIT_NINE: u8 = 0x39;

/// Why a request was turned down.
#[derive(Clone, Copy, Debug, PartialEq, Eq, Structural)]
pub enum UpdateError {
    /// The request does not consist of exactly two pairs.
    PairCount,
    /// The first pair does not begin with `on=`, or the second not with
    /// `off=`.
    MissingKey,
    /// What follows a key is not a decimal number.
    NotANumber,
    /// A duration of zero seconds was asked for.
    ZeroDuration,
    /// A duration was asked for whose milliseconds do not fit 32 bits.
    TooLong,
}

/// `b` is one of the ten decimal digits.
pub open spec fn is_digit(b: u8) -> bool {
    DIGIT_ZERO <= b <= DIGIT_NINE
}

/// Every byte of `s` is a decimal digit.
pub open spec fn all_digits(s: Seq<u8>) -> bool {
    forall|i: int| 0 <= i < s.len() ==> is_digit(#[trigger] s[i])
}

/// The number that the digits of `s` write in base ten; zero for no digits.
pub open spec fn digits_value(s: Seq<u8>) -> nat
    decreases s.len(),
{
    if s.len() == 0 {
        0
    } else {
        10 * digits_value(s.drop_last()) + (s.last() - DIGIT_ZERO) as nat
    }
}

/// `s` without the plus sign that it may begin with.
pub open spec fn unsigned_part(s: Seq<u8>) -> Seq<u8> {
    if s.len() > 0 && s[0] == PLUS_SIGN {
        s.skip(1)
    } else {
        s
    }
}

/// `s` is a decimal number: one or more digits, after at most one plus
/// sign.
pub open spec fn is_number(s: Seq<u8>) -> bool {
    unsigned_part(s).len() > 0 && all_digits(unsigned_part(s))
}

/// The number that `s` writes.
pub open spec fn number_value(s: Seq<u8>) -> nat {
    digits_value(unsigned_part(s))
}

/// The count of seconds that the text of a value asks for, or why the text
/// is turned down.
pub open spec fn seconds_of(text: Seq<u8>) -> Result<nat, UpdateError> {
    if !is_number(text) {
        Err(UpdateError::NotANumber)
    } else if number_value(text) == 0 {
        Err(UpdateError::ZeroDuration)
    } else if number_value(text) > MAX_SECONDS {
        Err(UpdateError::TooLong)
    } else {
        Ok(number_value(text))
    }
}

/// Position of the first separator in `s`; the length of `s` where it
/// holds none.
pub open spec fn first_separator(s: Seq<u8>) -> nat
    decreases s.len(),
{
    if s.len() == 0 || s[0] == PAIR_SEPARATOR {
        0
    } else {
        1 + first_separator(s.skip(1))
    }
}

/// The pieces that the separators cut `s` into, in order. There is one
/// piece more than there are separators, and a piece may be empty.
pub open spec fn pairs(s: Seq<u8>) -> Seq<Seq<u8>>
    decreases s.len(),
{
    let cut = first_separator(s);
    if cut >= s.len() {
        seq![s]
    } else {
        seq![s.take(cut as int)] + pairs(s.skip(cut as int + 1))
    }
}

/// The bytes `on=`.
pub open spec fn on_key() -> Seq<u8> {
    seq![0x6fu8, 0x6eu8, 0x3du8]
}

/// The bytes `off=`.
pub open spec fn off_key() -> Seq<u8> {
    seq![0x6fu8, 0x66u8, 0x66u8, 0x3du8]
}

/// The milliseconds that one pair asks for under `key`, or why the pair is
/// turned down.
pub open spec fn pair_millis(pair: Seq<u8>, key: Seq<u8>) -> Result<nat, UpdateError> {
    if !key.is_prefix_of(pair) {
        Err(UpdateError::MissingKey)
    } else {
        match seconds_of(pair.skip(key.len() as int)) {
            Ok(seconds) => Ok(seconds * 1000),
            Err(e) => Err(e),
        }
    }
}

/// The durations that a request asks for, or why it is turned down. The
/// first shortcoming found decides: the count of pairs, then the `on`
/// pair, then the `off` pair; within a pair its key, then its number.
pub open spec fn parsed(body: Seq<u8>) -> Result<Durations, UpdateError> {
    let found = pairs(body);
    if found.len() != 2 {
        Err(UpdateError::PairCount)
    } else {
        match pair_millis(found[0], on_key()) {
            Err(e) => Err(e),
            Ok(on_ms) => match pair_millis(found[1], off_key()) {
                Err(e) => Err(e),
                Ok(off_ms) => Ok(Durations { on_ms, off_ms }),
            },
        }
    }
}

/// The request that asks for the two values written as `on_text` and
/// `off_text`: `on=`, the first text, `&`, `off=`, the second text.
pub open spec fn request(on_text: Seq<u8>, off_text: Seq<u8>) -> Seq<u8> {
    on_key() + on_text + seq![PAIR_SEPARATOR] + off_key() + off_text
}

/// What the texts of two values ask for together: both lengths in
/// milliseconds, or the first shortcoming.
pub open spec fn durations_of(on_text: Seq<u8>, off_text: Seq<u8>) -> Result<
    Durations,
    UpdateError,
> {
    match seconds_of(on_text) {
        Err(e) => Err(e),
        Ok(on_s) => match seconds_of(off_text) {
            Err(e) => Err(e),
            Ok(off_s) => Ok(Durations { on_ms: on_s * 1000, off_ms: off_s * 1000 }),
        },
    }
}

/// `body` is the request written with the two numbers `on_text` and
/// `off_text`, both between one and [`MAX_SECONDS`].
pub open spec fn is_request_of(body: Seq<u8>, on_text: Seq<u8>, off_text: Seq<u8>) -> bool {
    &&& body == request(on_text, off_text)
    &&& is_number(on_text)
    &&& is_number(off_text)
    &&& 0 < number_value(on_text) <= MAX_SECONDS
    &&& 0 < number_value(off_text) <= MAX_SECONDS
}

/// The byte that fills the unused part of a request buffer.
pub const PADDING: u8 = 0;

/// How many bytes the buffer has that a request is read into.
pub const REQUEST_CAPACITY: usize = 16;

/// `s` without the padding bytes at its two ends.
pub open spec fn unpadded(s: Seq<u8>) -> Seq<u8>
    decreases s.len(),
{
    if s.len() == 0 {
        s
    } else if s[0] == PADDING {
        unpadded(s.skip(1))
    } else if s.last() == PADDING {
        unpadded(s.drop_last())
    } else {
        s
    }
}

/// Appending one digit multiplies the value by ten and adds the digit.
proof fn lemma_digits_value_step(s: Seq<u8>, k: int)
    requires
        0 <= k < s.len(),
    ensures
        digits_value(s.take(k + 1)) == 10 * digits_value(s.take(k)) + (s[k] - DIGIT_ZERO) as nat,
{
    assert(s.take(k + 1).drop_last() == s.take(k));
}

/// The first separator is where a separator stands with none before it.
proof fn lemma_first_separator(s: Seq<u8>, k: int)
    requires
        0 <= k <= s.len(),
        forall|j: int| 0 <= j < k ==> s[j] != PAIR_SEPARATOR,
        k == s.len() || s[k] == PAIR_SEPARATOR,
    ensures
        first_separator(s) == k,
    decreases k,
{
    if k > 0 {
        lemma_first_separator(s.skip(1), k - 1);
    }
}

/// Splitting always yields at least one piece.
proof fn lemma_pairs_nonempty(s: Seq<u8>)
    ensures
        pairs(s).len() >= 1,
    decreases s.len(),
{
    let cut = first_separator(s);
    if cut < s.len() {
        lemma_pairs_nonempty(s.skip(cut as int + 1));
    }
}

/// What is left of `s` between two positions, where nothing but padding
/// lies outside them and no padding stands directly inside them.
proof fn lemma_unpadded(s: Seq<u8>, start: int, end: int)
    requires
        0 <= start <= end <= s.len(),
        forall|j: int| 0 <= j < start ==> s[j] == PADDING,
        forall|j: int| end <= j < s.len() ==> s[j] == PADDING,
        start < end ==> s[start] != PADDING && s[end - 1] != PADDING,
    ensures
        unpadded(s) == s.subrange(start, end),
    decreases s.len(),
{
    if s.len() == 0 {
        assert(s =~= s.subrange(start, end));
    } else if s[0] == PADDING {
        if start > 0 {
            lemma_unpadded(s.skip(1), start - 1, end - 1);
            assert(s.skip(1).subrange(start - 1, end - 1) =~= s.subrange(start, end));
        } else {
            lemma_unpadded(s.skip(1), 0, 0);
            assert(s.skip(1).subrange(0, 0) =~= s.subrange(start, end));
        }
    } else if s.last() == PADDING {
        lemma_unpadded(s.drop_last(), start, end);
        assert(s.drop_last().subrange(start, end) =~= s.subrange(start, end));
    } else {
        assert(s =~= s.subrange(start, end));
    }
}

/// Reads the text of one value: a decimal number of seconds from one to
/// [`MAX_SECONDS`].
pub fn parse_seconds(text: &[u8]) -> (r: Result<u32, UpdateError>)
    ensures
        match r {
            Ok(seconds) => 0 < seconds <= MAX_SECONDS && seconds_of(text@) == Ok::<
                nat,
                UpdateError,
            >(seconds as nat),
            Err(e) => seconds_of(text@) == Err::<nat, UpdateError>(e),
        },
{
    let n: usize = text.len();
    let start: usize = if n > 0 && text[0] == PLUS_SIGN {
        1
    } else {
        0
    };
    if start == n {
        return Err(UpdateError::NotANumber);
    }
    let ghost digits = unsigned_part(text@);
    assert(digits == text@.subrange(start as int, n as int));
    let mut i: usize = start;
    let mut total: u32 = 0;
    let mut too_long: bool = false;
    while i < n
        invariant
            n == text.len(),
            start <= i <= n,
            digits == unsigned_part(text@),
            digits == text@.subrange(start as int, n as int),
            all_digits(digits.take(i - start)),
            total <= MAX_SECONDS,
            !too_long ==> total == digits_value(digits.take(i - start)),
            too_long ==> digits_value(digits.take(i - start)) > MAX_SECONDS,
        decreases n - i,
    {
        let b: u8 = text[i];
        if b < DIGIT_ZERO || b > DIGIT_NINE {
            assert(!is_digit(digits[i - start]));
            return Err(UpdateError::NotANumber);
        }
        proof {
            lemma_digits_value_step(digits, i - start);
        }
        if !too_long {
            let d: u32 = (b - DIGIT_ZERO) as u32;
            let next: u32 = total * 10 + d;
            if next > MAX_SECONDS {
                too_long = true;
            } else {
                total = next;
            }
        }
        i = i + 1;
    }
    assert(digits.take(n - start) == digits);
    if too_long {
        Err(UpdateError::TooLong)
    } else if total == 0 {
        Err(UpdateError::ZeroDuration)
    } else {
        Ok(total)
    }
}

/// Finds the first separator.
fn find_separator(s: &[u8]) -> (cut: usize)
    ensures
        cut == first_separator(s@),
        cut <= s.len(),
{
    let n: usize = s.len();
    let mut i: usize = 0;
    while i < n && s[i] != PAIR_SEPARATOR
        invariant
            n == s.len(),
            i <= n,
            forall|j: int| 0 <= j < i ==> s@[j] != PAIR_SEPARATOR,
        decreases n - i,
    {
        i = i + 1;
    }
    proof {
        lemma_first_separator(s@, i as int);
    }
    i
}

/// What follows `key` in `pair`, where `pair` begins with `key`.
fn value_after<'a>(pair: &'a [u8], key: &[u8]) -> (r: Option<&'a [u8]>)
    ensures
        r is Some <==> key@.is_prefix_of(pair@),
        r matches Some(text) ==> text@ == pair@.skip(key@.len() as int),
{
    let k: usize = key.len();
    let n: usize = pair.len();
    if n < k {
        return None;
    }
    let mut i: usize = 0;
    while i < k
        invariant
            k == key.len(),
            n == pair.len(),
            k <= n,
            i <= k,
            forall|j: int| 0 <= j < i ==> key@[j] == pair@[j],
        decreases k - i,
    {
        if key[i] != pair[i] {
            assert(pair@.subrange(0, k as int)[i as int] != key@[i as int]);
            return None;
        }
        i = i + 1;
    }
    assert(key@ =~= pair@.subrange(0, k as int));
    Some(slice_subrange(pair, k, n))
}

/// Reads one pair under `key`, giving its duration in seconds.
fn parse_pair(pair: &[u8], key: &[u8]) -> (r: Result<u32, UpdateError>)
    ensures
        match r {
            Ok(seconds) => 0 < seconds <= MAX_SECONDS && pair_millis(pair@, key@) == Ok::<
                nat,
                UpdateError,
            >((seconds * 1000) as nat),
            Err(e) => pair_millis(pair@, key@) == Err::<nat, UpdateError>(e),
        },
{
    match value_after(pair, key) {
        None => Err(UpdateError::MissingKey),
        Some(text) => parse_seconds(text),
    }
}

/// Reads a request. Nothing but `on=<seconds>&off=<seconds>` is taken,
/// where each `<seconds>` is a decimal number from one to
/// [`MAX_SECONDS`]; the configuration made holds those lengths in
/// milliseconds.
pub fn parse_update(body: &[u8]) -> (r: Result<TimerConfig, UpdateError>)
    ensures
        match r {
            Ok(config) => parsed(body@) == Ok::<Durations, UpdateError>(config@),
            Err(e) => parsed(body@) == Err::<Durations, UpdateError>(e),
        },
{
    let n: usize = body.len();
    let cut: usize = find_separator(body);
    if cut >= n {
        return Err(UpdateError::PairCount);
    }
    let first: &[u8] = slice_subrange(body, 0, cut);
    let rest: &[u8] = slice_subrange(body, cut + 1, n);
    let cut_again: usize = find_separator(rest);
    proof {
        assert(first@ == body@.take(cut as int));
        assert(rest@ == body@.skip(cut + 1));
        assert(pairs(body@) == seq![first@] + pairs(rest@));
        if cut_again < rest.len() {
            let beyond = rest@.skip(cut_again + 1);
            lemma_pairs_nonempty(beyond);
            assert(pairs(rest@) == seq![rest@.take(cut_again as int)] + pairs(beyond));
        } else {
            assert(pairs(rest@) == seq![rest@]);
            assert(pairs(body@) =~= seq![first@, rest@]);
        }
    }
    if cut_again < rest.len() {
        return Err(UpdateError::PairCount);
    }
    let on_text: [u8; 3] = [0x6f, 0x6e, 0x3d];
    let off_text: [u8; 4] = [0x6f, 0x66, 0x66, 0x3d];
    assert(on_text@ =~= on_key());
    assert(off_text@ =~= off_key());
    match parse_pair(first, on_text.as_slice()) {
        Err(e) => Err(e),
        Ok(on_s) => match parse_pair(rest, off_text.as_slice()) {
            Err(e) => Err(e),
            Ok(off_s) => Ok(TimerConfig::of_seconds(on_s, off_s)),
        },
    }
}

/// The request in a buffer: the buffer without the padding at its ends.
pub fn strip_padding(buffer: &[u8]) -> (body: &[u8])
    ensures
        body@ == unpadded(buffer@),
{
    let n: usize = buffer.len();
    let mut start: usize = 0;
    while start < n && buffer[start] == PADDING
        invariant
            n == buffer.len(),
            start <= n,
            forall|j: int| 0 <= j < start ==> buffer@[j] == PADDING,
        decreases n - start,
    {
        start = start + 1;
    }
    let mut end: usize = n;
    while end > start && buffer[end - 1] == PADDING
        invariant
            n == buffer.len(),
            start <= end <= n,
            forall|j: int| end <= j < n ==> buffer@[j] == PADDING,
        decreases end,
    {
        end = end - 1;
    }
    proof {
        lemma_unpadded(buffer@, start as int, end as int);
    }
    slice_subrange(buffer, start, end)
}

/// Whatever a request asks for and gets is a valid pair of durations:
/// each length is positive and fits 32 bits.
pub proof fn lemma_parsed_is_valid(body: Seq<u8>)
    ensures
        parsed(body) matches Ok(asked) ==> asked.valid(),
{
}

/// No separator stands before the first separator, and one stands there
/// unless the sequence holds none.
proof fn lemma_first_separator_is_first(s: Seq<u8>)
    ensures
        first_separator(s) <= s.len(),
        forall|j: int| 0 <= j < first_separator(s) ==> s[j] != PAIR_SEPARATOR,
        first_separator(s) < s.len() ==> s[first_separator(s) as int] == PAIR_SEPARATOR,
    decreases s.len(),
{
    if s.len() > 0 && s[0] != PAIR_SEPARATOR {
        let tail = s.skip(1);
        lemma_first_separator_is_first(tail);
        assert forall|j: int| 0 <= j < first_separator(s) implies s[j] != PAIR_SEPARATOR by {
            if j > 0 {
                assert(s[j] == tail[j - 1]);
            }
        }
    }
}

/// A number holds no separator.
proof fn lemma_number_has_no_separator(s: Seq<u8>)
    requires
        is_number(s),
    ensures
        forall|j: int| 0 <= j < s.len() ==> s[j] != PAIR_SEPARATOR,
{
    let digits = unsigned_part(s);
    assert forall|j: int| 0 <= j < s.len() implies s[j] != PAIR_SEPARATOR by {
        if s[0] == PLUS_SIGN {
            if j > 0 {
                assert(is_digit(digits[j - 1]));
            }
        } else {
            assert(is_digit(digits[j]));
        }
    }
}

/// A request written as `on=<number>&off=<number>` is read as those two
/// numbers: it is taken where both lie between one and [`MAX_SECONDS`],
/// and then gives a thousand times each.
pub proof fn lemma_request_of_numbers(on_text: Seq<u8>, off_text: Seq<u8>)
    requires
        is_number(on_text),
        is_number(off_text),
    ensures
        pairs(request(on_text, off_text)) == seq![on_key() + on_text, off_key() + off_text],
        parsed(request(on_text, off_text)) == durations_of(on_text, off_text),
{
    let first = on_key() + on_text;
    let rest = off_key() + off_text;
    let body = request(on_text, off_text);
    let cut = first.len() as int;
    lemma_number_has_no_separator(on_text);
    lemma_number_has_no_separator(off_text);
    assert(body =~= first + seq![PAIR_SEPARATOR] + rest);
    assert forall|j: int| 0 <= j < cut implies body[j] != PAIR_SEPARATOR by {
        if j >= 3 {
            assert(body[j] == on_text[j - 3]);
        }
    }
    assert forall|j: int| 0 <= j < rest.len() implies rest[j] != PAIR_SEPARATOR by {
        if j >= 4 {
            assert(rest[j] == off_text[j - 4]);
        }
    }
    lemma_first_separator(body, cut);
    lemma_first_separator(rest, rest.len() as int);
    assert(body.take(cut) =~= first);
    assert(body.skip(cut + 1) =~= rest);
    assert(pairs(rest) == seq![rest]);
    assert(pairs(body) =~= seq![first, rest]);
    assert(on_key() =~= first.subrange(0, 3));
    assert(first.skip(3) =~= on_text);
    assert(off_key() =~= rest.subrange(0, 4));
    assert(rest.skip(4) =~= off_text);
}

/// Nothing else is taken. A request that is taken is written as
/// `on=<number>&off=<number>`, with both numbers between one and
/// [`MAX_SECONDS`].
pub proof fn lemma_accepted_is_request_of_numbers(body: Seq<u8>)
    requires
        parsed(body) is Ok,
    ensures
        exists|on_text: Seq<u8>, off_text: Seq<u8>| is_request_of(body, on_text, off_text),
{
    let cut = first_separator(body) as int;
    lemma_first_separator_is_first(body);
    assert(cut < body.len());
    let first = body.take(cut);
    let rest = body.skip(cut + 1);
    let again = first_separator(rest) as int;
    lemma_first_separator_is_first(rest);
    if again < rest.len() {
        lemma_pairs_nonempty(rest.skip(again + 1));
        assert(pairs(rest).len() >= 2);
    }
    assert(pairs(rest) == seq![rest]);
    assert(pairs(body) =~= seq![first, rest]);
    let on_text = first.skip(3);
    let off_text = rest.skip(4);
    assert(first =~= on_key() + on_text);
    assert(rest =~= off_key() + off_text);
    assert(body =~= request(on_text, off_text));
    assert(is_request_of(body, on_text, off_text));
}

} // verus!
