//! Texts as sequences of characters: building, comparing, searching, numbering.
use vstd::arithmetic::power::pow;
use vstd::prelude::*;

verus! {

/// `String::push` appends its character at the end.
pub assume_specification[ String::push ](string: &mut String, ch: char)
    ensures
        final(string)@ == old(string)@.push(ch),
;

/// The characters of a text, in order.
pub fn chars_of(text: &str) -> (chars: Vec<char>)
    ensures
        chars@ == text@,
{
    let mut chars: Vec<char> = Vec::new();
    for c in iter: text.chars()
        invariant
            iter.seq() == text@,
            chars@ == text@.take(iter.index() as int),
    {
        chars.push(c);
        assert(chars@ =~= text@.take(iter.index() + 1));
    }
    assert(chars@ =~= text@);
    chars
}

/// The text with the given characters.
pub fn text_of(chars: &Vec<char>) -> (text: String)
    ensures
        text@ == chars@,
{
    let mut text: String = String::new();
    let mut i: usize = 0;
    while i < chars.len()
        invariant
            i <= chars.len(),
            text@ == chars@.take(i as int),
        decreases chars.len() - i,
    {
        text.push(chars[i]);
        i = i + 1;
        assert(text@ =~= chars@.take(i as int));
    }
    assert(text@ =~= chars@);
    text
}

/// Whether two texts hold the same characters.
pub fn same_text(a: &str, b: &str) -> (same: bool)
    ensures
        same == (a@ == b@),
{
    a.to_owned() == b.to_owned()
}

/// The digit for a value below ten.
pub open spec fn digit(value: nat) -> char {
    if value == 0 { '0' }
    else if value == 1 { '1' }
    else if value == 2 { '2' }
    else if value == 3 { '3' }
    else if value == 4 { '4' }
    else if value == 5 { '5' }
    else if value == 6 { '6' }
    else if value == 7 { '7' }
    else if value == 8 { '8' }
    else { '9' }
}

/// A number in decimal notation, without leading zeros.
pub open spec fn decimal(number: nat) -> Seq<char>
    decreases number,
{
    if number < 10 {
        seq![digit(number)]
    } else {
        decimal(number / 10).push(digit(number % 10))
    }
}

fn digit_char(value: u64) -> (c: char)
    requires
        value < 10,
    ensures
        c == digit(value as nat),
{
    match value {
        0 => '0',
        1 => '1',
        2 => '2',
        3 => '3',
        4 => '4',
        5 => '5',
        6 => '6',
        7 => '7',
        8 => '8',
        _ => '9',
    }
}

/// Append a number in decimal notation.
pub fn push_decimal(text: &mut String, number: u64)
    ensures
        final(text)@ == old(text)@ + decimal(number as nat),
    decreases number,
{
    if number < 10 {
        text.push(digit_char(number));
        assert(text@ =~= old(text)@ + decimal(number as nat));
    } else {
        push_decimal(text, number / 10);
        text.push(digit_char(number % 10));
        assert(text@ =~= old(text)@ + decimal(number as nat));
    }
}

/// The hexadecimal digit for a value below sixteen.
pub open spec fn hex_digit(value: nat) -> char {
    if value < 10 {
        digit(value)
    } else if value == 10 {
        'a'
    } else if value == 11 {
        'b'
    } else if value == 12 {
        'c'
    } else if value == 13 {
        'd'
    } else if value == 14 {
        'e'
    } else {
        'f'
    }
}

/// The last digits of a number in hexadecimal notation, with leading zeros.
pub open spec fn hexadecimal(number: nat, digits: nat) -> Seq<char>
    decreases digits,
{
    if digits == 0 {
        Seq::empty()
    } else {
        hexadecimal(number / 16, (digits - 1) as nat).push(hex_digit(number % 16))
    }
}

fn hex_char(value: u32) -> (c: char)
    requires
        value < 16,
    ensures
        c == hex_digit(value as nat),
{
    match value {
        10 => 'a',
        11 => 'b',
        12 => 'c',
        13 => 'd',
        14 => 'e',
        15 => 'f',
        _ => digit_char(value as u64),
    }
}

/// Append the last digits of a number in hexadecimal notation.
pub fn push_hexadecimal(text: &mut String, number: u32, digits: u32)
    ensures
        final(text)@ == old(text)@ + hexadecimal(number as nat, digits as nat),
    decreases digits,
{
    if digits == 0 {
        assert(text@ =~= old(text)@ + hexadecimal(number as nat, 0));
    } else {
        push_hexadecimal(text, number / 16, digits - 1);
        text.push(hex_char(number % 16));
        assert(text@ =~= old(text)@ + hexadecimal(number as nat, digits as nat));
    }
}

/// Where `wanted` first occurs, or the length where it does not.
pub open spec fn first_index(chars: Seq<char>, wanted: char) -> int
    decreases chars.len(),
{
    if chars.len() == 0 || chars[0] == wanted {
        0
    } else {
        1 + first_index(chars.skip(1), wanted)
    }
}

/// The first occurrence is in range, holds the character, and nothing before it does.
pub proof fn lemma_first_index(chars: Seq<char>, wanted: char)
    ensures
        0 <= first_index(chars, wanted) <= chars.len(),
        forall|i: int| 0 <= i < first_index(chars, wanted) ==> chars[i] != wanted,
        first_index(chars, wanted) < chars.len() ==> chars[first_index(chars, wanted)] == wanted,
    decreases chars.len(),
{
    if chars.len() > 0 && chars[0] != wanted {
        lemma_first_index(chars.skip(1), wanted);
        assert forall|i: int| 0 <= i < first_index(chars, wanted) implies chars[i] != wanted by {
            if i > 0 {
                assert(chars[i] == chars.skip(1)[i - 1]);
            }
        }
    }
}

/// An index that holds the character, with none before it, is the first one.
pub proof fn lemma_first_index_is(chars: Seq<char>, wanted: char, at: int)
    requires
        0 <= at <= chars.len(),
        forall|i: int| 0 <= i < at ==> chars[i] != wanted,
        at < chars.len() ==> chars[at] == wanted,
    ensures
        first_index(chars, wanted) == at,
{
    lemma_first_index(chars, wanted);
}

/// The position of the first `wanted` at or after `from`, or the length.
pub fn find_char(chars: &Vec<char>, from: usize, wanted: char) -> (at: usize)
    requires
        from <= chars.len(),
    ensures
        from <= at <= chars.len(),
        at == from + first_index(chars@.skip(from as int), wanted),
{
    let mut at: usize = from;
    while at < chars.len() && chars[at] != wanted
        invariant
            from <= at <= chars.len(),
            forall|i: int| from <= i < at ==> chars@[i] != wanted,
        decreases chars.len() - at,
    {
        at = at + 1;
    }
    proof {
        let rest = chars@.skip(from as int);
        assert forall|i: int| 0 <= i < at - from implies rest[i] != wanted by {
            assert(rest[i] == chars@[from + i]);
        }
        lemma_first_index_is(rest, wanted, at - from);
    }
    at
}

/// Whether a text begins with another.
pub open spec fn begins(text: Seq<char>, prefix: Seq<char>) -> bool {
    prefix.len() <= text.len() && text.take(prefix.len() as int) == prefix
}

/// Whether `prefix` stands at position `from`.
pub fn begins_at(chars: &Vec<char>, from: usize, prefix: &Vec<char>) -> (yes: bool)
    requires
        from <= chars.len(),
    ensures
        yes == begins(chars@.skip(from as int), prefix@),
{
    let ghost rest = chars@.skip(from as int);
    if chars.len() - from < prefix.len() {
        return false;
    }
    let mut i: usize = 0;
    while i < prefix.len()
        invariant
            i <= prefix.len() <= chars.len() - from,
            from <= chars.len(),
            rest == chars@.skip(from as int),
            forall|j: int| 0 <= j < i ==> rest[j] == prefix@[j],
        decreases prefix.len() - i,
    {
        if chars[from + i] != prefix[i] {
            proof {
                assert(rest[i as int] != prefix@[i as int]);
                assert(rest.take(prefix.len() as int)[i as int] == rest[i as int]);
            }
            return false;
        }
        assert(rest[i as int] == prefix@[i as int]);
        i = i + 1;
    }
    assert(rest.take(prefix.len() as int) =~= prefix@);
    true
}

/// A copy of the characters from `from` up to `to`.
pub fn slice_text(chars: &Vec<char>, from: usize, to: usize) -> (text: String)
    requires
        from <= to <= chars.len(),
    ensures
        text@ == chars@.subrange(from as int, to as int),
{
    let mut text: String = String::new();
    let mut i: usize = from;
    while i < to
        invariant
            from <= i <= to <= chars.len(),
            text@ == chars@.subrange(from as int, i as int),
        decreases to - i,
    {
        text.push(chars[i]);
        i = i + 1;
        assert(text@ =~= chars@.subrange(from as int, i as int));
    }
    text
}

/// A path with a relative path below it: a separator is added unless the base
/// is empty or already ends in one; an absolute second path stands alone.
pub open spec fn joined(base: Seq<char>, below: Seq<char>) -> Seq<char> {
    if below.len() > 0 && below[0] == '/' {
        below
    } else if base.len() == 0 || base.last() == '/' {
        base + below
    } else {
        base.push('/') + below
    }
}

/// Put `below` under `base`.
pub fn join_path(base: &str, below: &str) -> (path: String)
    ensures
        path@ == joined(base@, below@),
{
    let lead: Vec<char> = chars_of(below);
    if lead.len() > 0 && lead[0] == '/' {
        return below.to_owned();
    }
    let chars: Vec<char> = chars_of(base);
    let mut path: String = base.to_owned();
    if chars.len() > 0 && chars[chars.len() - 1] != '/' {
        path.push('/');
    }
    path.append(below);
    path
}

// ── Laws ────────────────────────────────────────────────────────────────────

/// What a digit is worth: the ten figures, then the first letters.
pub open spec fn worth(c: char) -> int {
    if '0' <= c && c <= '9' {
        c as int - 48
    } else if 'a' <= c && c <= 'f' {
        c as int - 97 + 10
    } else {
        -1
    }
}

/// The number that digits write in a base.
pub open spec fn written(digits: Seq<char>, base: int) -> int
    decreases digits.len(),
{
    if digits.len() == 0 {
        0
    } else {
        written(digits.drop_last(), base) * base + worth(digits.last())
    }
}

/// Decimal notation writes its number, in figures alone and without leading zeros.
pub proof fn decimals_write_their_number(number: nat)
    ensures
        written(decimal(number), 10) == number,
        decimal(number).len() >= 1,
        decimal(number).len() > 1 ==> decimal(number)[0] != '0',
        forall|i: int|
            0 <= i < decimal(number).len() ==> '0' <= #[trigger] decimal(number)[i]
                && decimal(number)[i] <= '9',
        number > 0 ==> decimal(number)[0] != '0',
    decreases number,
{
    reveal_with_fuel(written, 2);
    if number < 10 {
        assert(decimal(number) =~= seq![digit(number)]);
        assert(decimal(number).drop_last() =~= Seq::<char>::empty());
    } else {
        let before = decimal(number / 10);
        decimals_write_their_number(number / 10);
        assert(decimal(number) == before.push(digit(number % 10)));
        assert(decimal(number).drop_last() =~= before);
        assert(decimal(number)[0] == before[0]);
        assert forall|i: int| 0 <= i < decimal(number).len() implies '0' <= #[trigger] decimal(
            number,
        )[i] && decimal(number)[i] <= '9' by {
            if i < before.len() {
                assert(decimal(number)[i] == before[i]);
            }
        }
    }
}

/// Hexadecimal notation has as many digits as it is asked for, and writes its number
/// where that has room.
pub proof fn hexadecimals_write_their_number(number: nat, digits: nat)
    ensures
        hexadecimal(number, digits).len() == digits,
        number < pow(16, digits) ==> written(hexadecimal(number, digits), 16) == number,
    decreases digits,
{
    if digits > 0 {
        let fewer = (digits - 1) as nat;
        let before = hexadecimal(number / 16, fewer);
        hexadecimals_write_their_number(number / 16, fewer);
        assert(hexadecimal(number, digits).drop_last() =~= before);
        assert(worth(hex_digit(number % 16)) == number % 16);
        assert(pow(16, digits) == 16 * pow(16, fewer)) by {
            reveal(pow);
        }
        if number < pow(16, digits) {
            assert(number / 16 < pow(16, fewer));
        }
    } else {
        assert(pow(16, 0) == 1) by {
            reveal(pow);
        }
    }
}

/// Two bytes with the same two hexadecimal digits are one byte.
pub proof fn byte_digits_tell_bytes_apart(a: u8, b: u8)
    requires
        hexadecimal(a as nat, 2) == hexadecimal(b as nat, 2),
    ensures
        a == b,
{
    assert(pow(16, 2) == 256) by {
        reveal_with_fuel(pow, 3);
    }
    hexadecimals_write_their_number(a as nat, 2);
    hexadecimals_write_their_number(b as nat, 2);
}

/// A joined path is the one below where that starts at the root, and otherwise goes
/// through the base, with exactly one separator more where the base has none at its end.
pub proof fn joined_paths_go_through_the_base(base: Seq<char>, below: Seq<char>)
    ensures
        below.len() > 0 && below[0] == '/' ==> joined(base, below) == below,
        !(below.len() > 0 && below[0] == '/') ==> {
            &&& begins(joined(base, below), base)
            &&& joined(base, below).len() - below.len() >= base.len()
            &&& joined(base, below).skip(joined(base, below).len() - below.len()) == below
            &&& base.len() > 0 && base.last() != '/' ==> joined(base, below).len() == base.len() + 1
                + below.len() && joined(base, below)[base.len() as int] == '/'
            &&& base.len() == 0 || base.last() == '/' ==> joined(base, below).len() == base.len()
                + below.len()
        },
{
    let path = joined(base, below);
    if !(below.len() > 0 && below[0] == '/') {
        assert(path.take(base.len() as int) =~= base);
        assert(path.skip(path.len() - below.len()) =~= below);
    }
}

/// A text begins with a prefix exactly where the prefix is what it starts with.
pub proof fn beginnings_are_prefixes(text: Seq<char>, prefix: Seq<char>, rest: Seq<char>)
    ensures
        begins(prefix + rest, prefix),
        begins(text, prefix) ==> text == prefix + text.skip(prefix.len() as int),
        text.len() < prefix.len() ==> !begins(text, prefix),
{
    assert((prefix + rest).take(prefix.len() as int) =~= prefix);
    if begins(text, prefix) {
        assert(text =~= text.take(prefix.len() as int) + text.skip(prefix.len() as int));
    }
}

} // verus!
