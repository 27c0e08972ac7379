//! Text helpers shared by the codec and the command engine: reading the
//! characters of a string, the lower-case form of a word, and decimal
//! numerals in both directions.

use vstd::prelude::*;
use vstd::std_specs::iter::IteratorSpec;
use vstd::string::StringExecFns;
use vstd::utf8::{decode_utf8, is_ascii_chars, valid_utf8};

verus! {

/// The views of a run of values, in order: of strings, their texts.
pub open spec fn texts<T: View>(items: Seq<T>) -> Seq<T::V> {
    Seq::new(items.len(), |i: int| items[i]@)
}

/// Some texts with a single space between each two neighbours.
pub open spec fn join_spaced(parts: Seq<Seq<char>>) -> Seq<char>
    decreases parts.len(),
{
    if parts.len() == 0 {
        Seq::empty()
    } else if parts.len() == 1 {
        parts[0]
    } else {
        join_spaced(parts.drop_last()) + seq![' '] + parts.last()
    }
}

/// The lower-case form of an ASCII capital; every other character is itself.
pub open spec fn lower(c: char) -> char {
    if 'A' <= c && c <= 'Z' {
        ((c as u8 + 32) as u8) as char
    } else {
        c
    }
}

/// A text with each ASCII capital replaced by its lower-case form.
pub open spec fn ascii_lower(s: Seq<char>) -> Seq<char> {
    Seq::new(s.len(), |i: int| lower(s[i]))
}

/// What `str::to_lowercase` makes of a text: its lower-case form by the
/// rules of Unicode.
pub uninterp spec fn lowercased(s: Seq<char>) -> Seq<char>;

/// The lower-case form of a text. Of a text within ASCII it is the text with
/// its capitals replaced; of any other text it is what the standard library
/// makes of it.
pub open spec fn folded(s: Seq<char>) -> Seq<char> {
    if is_ascii_chars(s) {
        ascii_lower(s)
    } else {
        lowercased(s)
    }
}

/// The character that writes the digit `d`, for `d` below ten.
pub open spec fn digit(d: nat) -> char {
    ((48 + d) as u8) as char
}

/// The decimal numeral of `n`: no sign, no leading zero.
pub open spec fn decimal(n: nat) -> Seq<char>
    decreases n,
{
    if n < 10 {
        seq![digit(n)]
    } else {
        decimal(n / 10).push(digit(n % 10))
    }
}

/// Whether `c` is one of the ten decimal digits.
pub open spec fn is_digit(c: char) -> bool {
    '0' <= c && c <= '9'
}

/// The number that one decimal digit writes; zero for any other character.
pub open spec fn digit_value(c: char) -> nat {
    if is_digit(c) {
        (c as nat - 48) as nat
    } else {
        0
    }
}

/// The number that a run of decimal digits writes; zero for the empty run.
pub open spec fn digits_value(s: Seq<char>) -> nat
    decreases s.len(),
{
    if s.len() == 0 {
        0
    } else {
        digits_value(s.drop_last()) * 10 + digit_value(s.last())
    }
}

/// The digits of a numeral: the text without one leading `+` or `-`.
pub open spec fn numeral_digits(s: Seq<char>) -> Seq<char> {
    if s.len() > 0 && (s[0] == '-' || s[0] == '+') {
        s.skip(1)
    } else {
        s
    }
}

/// The number that a numeral writes, sign applied.
pub open spec fn numeral_value(s: Seq<char>) -> int {
    if s.len() > 0 && s[0] == '-' {
        -(digits_value(numeral_digits(s)) as int)
    } else {
        digits_value(numeral_digits(s)) as int
    }
}

/// What a text means as a signed 64-bit integer: an optional sign, then one
/// or more decimal digits and nothing else, with a value that fits. Every
/// other text means nothing.
pub open spec fn parse_int(s: Seq<char>) -> Option<i64> {
    let body = numeral_digits(s);
    if body.len() == 0 || !(forall|i: int| 0 <= i < body.len() ==> is_digit(#[trigger] body[i])) {
        None
    } else if i64::MIN <= numeral_value(s) <= i64::MAX {
        Some(numeral_value(s) as i64)
    } else {
        None
    }
}

/// `String::from_utf8`: the text that a run of bytes encodes, and nothing
/// where the bytes are not UTF-8. The contract is believed, not proved.
#[verifier::external_body]
pub(crate) fn from_utf8(bytes: Vec<u8>) -> (text: Option<String>)
    ensures
        text is Some <==> valid_utf8(bytes@),
        text matches Some(t) ==> t@ == decode_utf8(bytes@),
{
    match String::from_utf8(bytes) {
        Ok(t) => Some(t),
        Err(_) => None,
    }
}

/// The lower-case form of one character.
pub fn to_lower(c: char) -> (r: char)
    ensures
        r == lower(c),
{
    if c >= 'A' && c <= 'Z' {
        let b: u8 = c as u8;
        (b + 32) as char
    } else {
        c
    }
}

/// The characters of a string, in order.
pub fn chars_of(s: &str) -> (v: Vec<char>)
    ensures
        v@ == s@,
{
    broadcast use vstd::string::group_string_axioms;

    let n = s.unicode_len();
    let mut v: Vec<char> = Vec::new();
    let mut it = s.chars();
    while v.len() < n
        invariant
            n == s@.len(),
            it.obeys_prophetic_iter_laws(),
            v@ + it.remaining() == s@,
        decreases n - v.len(),
    {
        match it.next() {
            Some(c) => {
                v.push(c);
            },
            None => {},
        }
    }
    assert(v@ == s@);
    v
}

/// `str::to_lowercase`: the lower-case form of a string. The result is
/// named, not described; the contract is believed, not proved.
#[verifier::external_body]
pub(crate) fn to_lowercase(s: &str) -> (lowered: String)
    ensures
        lowered@ == lowercased(s@),
{
    s.to_lowercase()
}

/// The characters of the lower-case form of a string.
pub fn fold(s: &str) -> (word: Vec<char>)
    ensures
        word@ == folded(s@),
{
    if s.is_ascii() {
        let chars = chars_of(s);
        let mut word: Vec<char> = Vec::new();
        let mut i: usize = 0;
        while i < chars.len()
            invariant
                i <= chars@.len(),
                word@.len() == i,
                forall|j: int| 0 <= j < i ==> word@[j] == lower(chars@[j]),
            decreases chars@.len() - i,
        {
            word.push(to_lower(chars[i]));
            i += 1;
        }
        assert(word@ =~= ascii_lower(s@));
        word
    } else {
        let lowered = to_lowercase(s);
        chars_of(lowered.as_str())
    }
}

/// Whether some characters spell exactly the text of a string.
pub fn chars_are(chars: &Vec<char>, word: &str) -> (same: bool)
    ensures
        same == (chars@ == word@),
{
    let n = word.unicode_len();
    if chars.len() != n {
        return false;
    }
    let mut i: usize = 0;
    while i < n
        invariant
            i <= n,
            n == chars@.len(),
            n == word@.len(),
            forall|j: int| 0 <= j < i ==> chars@[j] == word@[j],
        decreases n - i,
    {
        if chars[i] != word.get_char(i) {
            return false;
        }
        i += 1;
    }
    assert(chars@ =~= word@);
    true
}

/// The one-character string of a digit.
fn digit_str(d: usize) -> (s: &'static str)
    requires
        d < 10,
    ensures
        s@ == seq![digit(d as nat)],
{
    proof {
        reveal_strlit("0");
        reveal_strlit("1");
        reveal_strlit("2");
        reveal_strlit("3");
        reveal_strlit("4");
        reveal_strlit("5");
        reveal_strlit("6");
        reveal_strlit("7");
        reveal_strlit("8");
        reveal_strlit("9");
    }
    let s = if d == 0 {
        "0"
    } else if d == 1 {
        "1"
    } else if d == 2 {
        "2"
    } else if d == 3 {
        "3"
    } else if d == 4 {
        "4"
    } else if d == 5 {
        "5"
    } else if d == 6 {
        "6"
    } else if d == 7 {
        "7"
    } else if d == 8 {
        "8"
    } else {
        "9"
    };
    assert(s@ =~= seq![digit(d as nat)]);
    s
}

/// Appends the decimal numeral of `n` to `out`.
pub fn push_decimal(out: &mut String, n: usize)
    ensures
        final(out)@ == old(out)@ + decimal(n as nat),
    decreases n,
{
    if n >= 10 {
        push_decimal(out, n / 10);
    }
    out.append(digit_str(n % 10));
    proof {
        if n >= 10 {
            assert(old(out)@ + decimal((n / 10) as nat) + seq![digit((n % 10) as nat)] =~= old(
                out,
            )@ + decimal(n as nat));
        }
    }
}

/// Joins strings with a single space between each two neighbours.
pub fn join(parts: &Vec<String>) -> (joined: String)
    ensures
        joined@ == join_spaced(texts(parts@)),
{
    let ghost all = texts(parts@);
    let mut joined = String::new();
    let mut i: usize = 0;
    assert(all.take(0) =~= Seq::<Seq<char>>::empty());
    while i < parts.len()
        invariant
            i <= parts@.len(),
            all == texts(parts@),
            joined@ == join_spaced(all.take(i as int)),
        decreases parts@.len() - i,
    {
        let ghost before = joined@;
        if i > 0 {
            joined.append(" ");
        }
        joined.append(parts[i].as_str());
        proof {
            let next = all.take(i + 1);
            assert(next.drop_last() =~= all.take(i as int));
            assert(next.last() == parts@[i as int]@);
            reveal_strlit(" ");
            assert(" "@ =~= seq![' ']);
            if i == 0 {
                assert(before =~= Seq::<char>::empty());
                assert(joined@ =~= next[0]);
            } else {
                assert(joined@ =~= before + seq![' '] + next.last());
            }
        }
        i += 1;
    }
    assert(all.take(parts@.len() as int) =~= all);
    joined
}

/// A run of digits writes at least what any of its prefixes writes.
proof fn lemma_digits_value_grows(s: Seq<char>, k: int)
    requires
        0 <= k <= s.len(),
    ensures
        digits_value(s.take(k)) <= digits_value(s),
    decreases s.len(),
{
    if k == s.len() {
        assert(s.take(k) =~= s);
    } else {
        lemma_digits_value_grows(s.drop_last(), k);
        assert(s.drop_last().take(k) =~= s.take(k));
    }
}

/// Reads a signed 64-bit integer from its decimal numeral.
pub fn parse_i64(s: &str) -> (r: Option<i64>)
    ensures
        r == parse_int(s@),
{
    let cs = chars_of(s);
    let n = cs.len();
    let negative = n > 0 && cs[0] == '-';
    let start: usize = if n > 0 && (cs[0] == '-' || cs[0] == '+') {
        1
    } else {
        0
    };
    let ghost body = numeral_digits(s@);
    assert(body =~= cs@.skip(start as int));
    if start == n {
        return None;
    }
    let limit: u64 = if negative {
        9223372036854775808
    } else {
        9223372036854775807
    };
    let mut acc: u64 = 0;
    let mut i: usize = start;
    assert(body.take(0) =~= Seq::<char>::empty());
    while i < n
        invariant
            start <= i <= n,
            n == cs@.len(),
            body == cs@.skip(start as int),
            acc == digits_value(body.take(i - start)),
            acc <= limit,
            cs@ == s@,
            body == numeral_digits(s@),
            negative == (s@.len() > 0 && s@[0] == '-'),
            limit == if negative {
                9223372036854775808u64
            } else {
                9223372036854775807u64
            },
            forall|j: int| 0 <= j < i - start ==> is_digit(#[trigger] body[j]),
        decreases n - i,
    {
        let c = cs[i];
        assert(c == body[i - start]);
        if c < '0' || c > '9' {
            return None;
        }
        let d: u64 = (c as u8 - 48) as u64;
        proof {
            let next = body.take(i - start + 1);
            assert(next.drop_last() =~= body.take(i - start));
            assert(next.last() == c);
            assert(digits_value(next) == acc * 10 + d);
            lemma_digits_value_grows(body, i - start + 1);
        }
        if acc > (limit - d) / 10 {
            return None;
        }
        acc = acc * 10 + d;
        i += 1;
    }
    assert(body.take(n - start) =~= body);
    if negative {
        if acc == 9223372036854775808 {
            Some(i64::MIN)
        } else {
            Some(-(acc as i64))
        }
    } else {
        Some(acc as i64)
    }
}

} // verus!
