//! Text: decimal and hexadecimal numerals, comma-separated rows, file names.

use vstd::prelude::*;

verus! {

/// `String::push` of std: appends one character at the end and changes nothing else.
pub assume_specification[ String::push ](s: &mut String, c: char)
    ensures
        final(s)@ == old(s)@.push(c),
;

/// The character of a decimal digit.
pub open spec fn digit_char(d: nat) -> char {
    (48 + d) as char
}

/// The decimal numeral of a number, without leading zeros.
pub open spec fn decimal(n: nat) -> Seq<char>
    decreases n,
{
    if n < 10 {
        seq![digit_char(n)]
    } else {
        decimal(n / 10).push(digit_char(n % 10))
    }
}

/// The character of a hexadecimal digit, letters in lower case.
pub open spec fn hex_char(d: u8) -> char {
    if d < 10 {
        (48 + d) as char
    } else {
        (87 + d) as char
    }
}

/// `0x`, then two hexadecimal digits for each byte, the high one first.
pub open spec fn hex(bytes: Seq<u8>) -> Seq<char> {
    seq!['0', 'x'] + Seq::new(
        2 * bytes.len(),
        |i: int|
            hex_char(
                if i % 2 == 0 {
                    bytes[i / 2] / 16
                } else {
                    bytes[i / 2] % 16
                },
            ),
    )
}

/// Whether the extension of a file name is `json`: the part after its last dot, where that dot is
/// not the name's first character.
pub open spec fn json_extension(name: Seq<char>) -> bool {
    name.len() > 5 && name.subrange(name.len() - 5, name.len() as int) =~= seq![
        '.',
        'j',
        's',
        'o',
        'n',
    ]
}

/// The texts of some strings.
pub open spec fn texts(strings: Seq<String>) -> Seq<Seq<char>> {
    strings.map_values(|s: String| s@)
}

/// The fields in order, with a comma between each two.
pub open spec fn joined(fields: Seq<Seq<char>>) -> Seq<char>
    decreases fields.len(),
{
    if fields.len() == 0 {
        Seq::empty()
    } else if fields.len() == 1 {
        fields[0]
    } else {
        joined(fields.drop_last()).push(',') + fields.last()
    }
}

/// How many commas a text holds.
pub open spec fn comma_count(s: Seq<char>) -> nat
    decreases s.len(),
{
    if s.len() == 0 {
        0
    } else {
        comma_count(s.drop_last()) + if s.last() == ',' {
            1nat
        } else {
            0nat
        }
    }
}

/// Appends the decimal numeral of `n`.
pub(crate) fn push_decimal(out: &mut String, n: u64)
    ensures
        final(out)@ == old(out)@ + decimal(n as nat),
    decreases n,
{
    if n >= 10 {
        push_decimal(out, n / 10);
    }
    let d: u8 = (n % 10) as u8;
    let c: char = (48u8 + d) as char;
    out.push(c);
    proof {
        assert(c == digit_char((n as nat) % 10));
        assert(out@ =~= old(out)@ + decimal(n as nat));
    }
}

/// The characters of a text, in order.
pub fn chars_of(s: &str) -> (chars: Vec<char>)
    ensures
        chars@ == s@,
{
    let mut chars: Vec<char> = Vec::new();
    for c in it: s.chars()
        invariant
            it.seq() == s@,
            chars@ == s@.take(it.index() as int),
    {
        chars.push(c);
    }
    chars
}

/// The decimal numeral of `n`.
pub fn decimal_text(n: u64) -> (text: String)
    ensures
        text@ == decimal(n as nat),
{
    let mut text = String::new();
    push_decimal(&mut text, n);
    assert(text@ =~= decimal(n as nat));
    text
}

/// The character of a hexadecimal digit.
fn hex_digit(d: u8) -> (c: char)
    requires
        d < 16,
    ensures
        c == hex_char(d),
{
    if d < 10 {
        (48u8 + d) as char
    } else {
        (87u8 + d) as char
    }
}

/// `0x` and the hexadecimal digits of some bytes.
pub fn hex_text(bytes: &[u8]) -> (text: String)
    ensures
        text@ == hex(bytes@),
{
    let mut text = String::new();
    text.push('0');
    text.push('x');
    let mut i: usize = 0;
    while i < bytes.len()
        invariant
            i <= bytes.len(),
            text@ == hex(bytes@.take(i as int)),
        decreases bytes.len() - i,
    {
        let ghost before = text@;
        text.push(hex_digit(bytes[i] / 16));
        text.push(hex_digit(bytes[i] % 16));
        proof {
            let next = hex(bytes@.take(i + 1));
            assert(text@.len() == next.len());
            assert forall|j: int| 0 <= j < next.len() implies text@[j] == next[j] by {
                if j < before.len() {
                    assert(before[j] == hex(bytes@.take(i as int))[j]);
                    if j >= 2 {
                        assert((j - 2) / 2 < i);
                    }
                }
            }
            assert(text@ =~= next);
        }
        i = i + 1;
    }
    assert(bytes@.take(bytes.len() as int) =~= bytes@);
    text
}

/// Whether the extension of a file name is `json`.
pub fn has_json_extension(name: &str) -> (yes: bool)
    ensures
        yes == json_extension(name@),
{
    let c = chars_of(name);
    let n: usize = c.len();
    n > 5 && c[n - 5] == '.' && c[n - 4] == 'j' && c[n - 3] == 's' && c[n - 2] == 'o' && c[n - 1]
        == 'n'
}

/// The fields in order, with a comma between each two.
pub(crate) fn join(fields: &Vec<String>) -> (row: String)
    ensures
        row@ == joined(texts(fields@)),
{
    let ghost all = texts(fields@);
    let mut row = String::new();
    let mut i: usize = 0;
    while i < fields.len()
        invariant
            i <= fields.len(),
            all == texts(fields@),
            row@ == joined(all.take(i as int)),
        decreases fields.len() - i,
    {
        if i > 0 {
            row.push(',');
        }
        row.append(fields[i].as_str());
        proof {
            assert(all.take(i + 1).drop_last() =~= all.take(i as int));
            assert(row@ =~= joined(all.take(i + 1)));
        }
        i = i + 1;
    }
    assert(all.take(fields.len() as int) =~= all);
    row
}

/// The commas of two texts, one behind the other.
proof fn comma_count_of_concat(a: Seq<char>, b: Seq<char>)
    ensures
        comma_count(a + b) == comma_count(a) + comma_count(b),
    decreases b.len(),
{
    if b.len() == 0 {
        assert(a + b =~= a);
    } else {
        assert((a + b).drop_last() =~= a + b.drop_last());
        comma_count_of_concat(a, b.drop_last());
    }
}

/// A text that holds no comma has none to count.
proof fn comma_count_without_commas(s: Seq<char>)
    requires
        !s.contains(','),
    ensures
        comma_count(s) == 0,
    decreases s.len(),
{
    if s.len() > 0 {
        assert(s[s.len() - 1] != ',');
        assert forall|i: int| 0 <= i < s.len() - 1 implies s.drop_last()[i] != ',' by {
            assert(s[i] != ',');
        }
        comma_count_without_commas(s.drop_last());
    }
}

/// A row of fields without commas holds one comma less than it has fields, so that it splits back
/// into as many.
pub proof fn commas_separate_fields(fields: Seq<Seq<char>>)
    requires
        fields.len() > 0,
        forall|i: int| 0 <= i < fields.len() ==> !(#[trigger] fields[i]).contains(','),
    ensures
        comma_count(joined(fields)) == fields.len() - 1,
    decreases fields.len(),
{
    comma_count_without_commas(fields.last());
    if fields.len() > 1 {
        let rest = fields.drop_last();
        assert forall|i: int| 0 <= i < rest.len() implies !(#[trigger] rest[i]).contains(',') by {
            assert(rest[i] == fields[i]);
        }
        commas_separate_fields(rest);
        assert(joined(rest).push(',').drop_last() =~= joined(rest));
        comma_count_of_concat(joined(rest).push(','), fields.last());
    }
}

/// Rows can be read back: two rows of fields without commas are the same only if their fields are.
pub proof fn joined_is_injective(a: Seq<Seq<char>>, b: Seq<Seq<char>>)
    requires
        a.len() > 0,
        b.len() > 0,
        forall|i: int| 0 <= i < a.len() ==> !(#[trigger] a[i]).contains(','),
        forall|i: int| 0 <= i < b.len() ==> !(#[trigger] b[i]).contains(','),
        joined(a) == joined(b),
    ensures
        a == b,
    decreases a.len(),
{
    commas_separate_fields(a);
    commas_separate_fields(b);
    if a.len() > 1 {
        let row = joined(a);
        let x = joined(a.drop_last());
        let y = joined(b.drop_last());
        assert(row[x.len() as int] == ',');
        assert(row[y.len() as int] == ',');
        if x.len() < y.len() {
            assert(a.last()[y.len() - x.len() - 1] == ',');
            assert(a[a.len() - 1].contains(','));
        }
        if y.len() < x.len() {
            assert(b.last()[x.len() - y.len() - 1] == ',');
            assert(b[b.len() - 1].contains(','));
        }
        assert(x =~= row.take(x.len() as int));
        assert(y =~= row.take(x.len() as int));
        assert(a.last() =~= row.skip(x.len() as int + 1));
        assert(b.last() =~= row.skip(x.len() as int + 1));
        assert forall|i: int| 0 <= i < a.len() - 1 implies !(
        #[trigger] a.drop_last()[i]).contains(',') by {
            assert(a.drop_last()[i] == a[i]);
        }
        assert forall|i: int| 0 <= i < b.len() - 1 implies !(
        #[trigger] b.drop_last()[i]).contains(',') by {
            assert(b.drop_last()[i] == b[i]);
        }
        joined_is_injective(a.drop_last(), b.drop_last());
        assert(a =~= a.drop_last().push(a.last()));
        assert(b =~= b.drop_last().push(b.last()));
    } else {
        assert(a =~= b);
    }
}

/// Two byte strings with the same hexadecimal numeral are the same.
pub proof fn hex_is_injective(a: Seq<u8>, b: Seq<u8>)
    requires
        hex(a) == hex(b),
    ensures
        a == b,
{
    assert(hex(a).len() == 2 + 2 * a.len());
    assert(hex(b).len() == 2 + 2 * b.len());
    assert forall|i: int| 0 <= i < a.len() implies a[i] == b[i] by {
        assert(hex(a)[2 + 2 * i] == hex_char(a[i] / 16));
        assert(hex(b)[2 + 2 * i] == hex_char(b[i] / 16));
        assert(hex(a)[3 + 2 * i] == hex_char(a[i] % 16));
        assert(hex(b)[3 + 2 * i] == hex_char(b[i] % 16));
        hex_char_is_injective(a[i] / 16, b[i] / 16);
        hex_char_is_injective(a[i] % 16, b[i] % 16);
    }
    assert(a =~= b);
}

proof fn hex_char_is_injective(a: u8, b: u8)
    requires
        a < 16,
        b < 16,
        hex_char(a) == hex_char(b),
    ensures
        a == b,
{
}

/// A decimal numeral holds no comma.
pub proof fn decimal_has_no_comma(n: nat)
    ensures
        !decimal(n).contains(','),
    decreases n,
{
    if n >= 10 {
        decimal_has_no_comma(n / 10);
        assert forall|i: int| 0 <= i < decimal(n).len() implies decimal(n)[i] != ',' by {
            if i < decimal(n / 10).len() {
                assert(decimal(n)[i] == decimal(n / 10)[i]);
            }
        }
    }
}

/// A hexadecimal numeral holds no comma.
pub proof fn hex_has_no_comma(bytes: Seq<u8>)
    ensures
        !hex(bytes).contains(','),
{
}

/// Two numbers with the same decimal numeral are the same.
pub proof fn decimal_is_injective(a: nat, b: nat)
    requires
        decimal(a) == decimal(b),
    ensures
        a == b,
    decreases a,
{
    let x = decimal(a);
    let y = decimal(b);
    assert(x.last() == digit_char(a % 10));
    assert(y.last() == digit_char(b % 10));
    assert(a % 10 == b % 10);
    decimal_is_not_empty(a / 10);
    decimal_is_not_empty(b / 10);
    if a >= 10 && b >= 10 {
        assert(x.drop_last() =~= decimal(a / 10));
        assert(y.drop_last() =~= decimal(b / 10));
        decimal_is_injective(a / 10, b / 10);
    }
}

proof fn decimal_is_not_empty(n: nat)
    ensures
        decimal(n).len() > 0,
{
}

/// The digits, in the order of their values.
proof fn digits_in_order(d: nat)
    requires
        d < 10,
    ensures
        "0123456789"@[d as int] == digit_char(d),
{
    reveal_strlit("0123456789");
    let s = "0123456789"@;
    assert(s[0] == '0' && s[1] == '1' && s[2] == '2' && s[3] == '3' && s[4] == '4');
    assert(s[5] == '5' && s[6] == '6' && s[7] == '7' && s[8] == '8' && s[9] == '9');
}

/// The hexadecimal digits, in the order of their values.
proof fn hex_digits_in_order(d: u8)
    requires
        d < 16,
    ensures
        "0123456789abcdef"@[d as int] == hex_char(d),
{
    reveal_strlit("0123456789abcdef");
    let s = "0123456789abcdef"@;
    assert(s[0] == '0' && s[1] == '1' && s[2] == '2' && s[3] == '3' && s[4] == '4');
    assert(s[5] == '5' && s[6] == '6' && s[7] == '7' && s[8] == '8' && s[9] == '9');
    assert(s[10] == 'a' && s[11] == 'b' && s[12] == 'c' && s[13] == 'd' && s[14] == 'e');
    assert(s[15] == 'f');
}

/// A number below ten is written as its digit, and ten times a number, with a digit added to it, as
/// that number with the digit behind it.
pub proof fn numerals_are_positional(n: nat, d: nat)
    requires
        d < 10,
    ensures
        decimal(d) == seq!["0123456789"@[d as int]],
        n > 0 ==> decimal((10 * n + d) as nat) == decimal(n).push("0123456789"@[d as int]),
{
    digits_in_order(d);
    assert((10 * n + d) / 10 == n && (10 * n + d) % 10 == d);
}

/// The numeral that is written for a number is the one of its tenth part with its last digit behind
/// it, and a number below ten has one digit.
pub proof fn written_numerals_are_positional(n: u64, text: String, tenth: String)
    requires
        call_ensures(decimal_text, (n,), text),
        call_ensures(decimal_text, (n / 10,), tenth),
    ensures
        n < 10 ==> text@ == seq!["0123456789"@[n as int]],
        n >= 10 ==> text@ == tenth@.push("0123456789"@[n as int % 10]),
{
    digits_in_order(n as nat % 10);
}

/// The hexadecimal numeral of some bytes is `0x` and then, for each byte in turn, the digit of its
/// high half and that of its low half.
pub proof fn hex_spells_out_the_bytes(bytes: Seq<u8>)
    ensures
        hex(bytes).len() == 2 + 2 * bytes.len(),
        hex(bytes)[0] == '0' && hex(bytes)[1] == 'x',
        forall|i: int|
            #![trigger bytes[i]]
            0 <= i < bytes.len() ==> hex(bytes)[2 + 2 * i] == "0123456789abcdef"@[bytes[i] as int / 16]
                && hex(bytes)[3 + 2 * i] == "0123456789abcdef"@[bytes[i] as int % 16],
{
    assert forall|i: int|
        #![trigger bytes[i]]
        0 <= i < bytes.len() implies hex(bytes)[2 + 2 * i] == "0123456789abcdef"@[bytes[i] as int / 16]
        && hex(bytes)[3 + 2 * i] == "0123456789abcdef"@[bytes[i] as int % 16] by {
        hex_digits_in_order(bytes[i] / 16);
        hex_digits_in_order(bytes[i] % 16);
    }
}

/// What is written for some bytes is their hexadecimal numeral.
pub proof fn written_hex_spells_out_the_bytes(bytes: &[u8], text: String)
    requires
        call_ensures(hex_text, (bytes,), text),
    ensures
        text@.len() == 2 + 2 * bytes@.len(),
        text@[0] == '0' && text@[1] == 'x',
        forall|i: int|
            #![trigger bytes@[i]]
            0 <= i < bytes@.len() ==> text@[2 + 2 * i] == "0123456789abcdef"@[bytes@[i] as int / 16]
                && text@[3 + 2 * i] == "0123456789abcdef"@[bytes@[i] as int % 16],
{
    hex_spells_out_the_bytes(bytes@);
}

/// The names with the extension `json` are those that are made of some text, which is not empty, and
/// `.json`.
pub proof fn json_names_end_in_json(name: Seq<char>)
    ensures
        json_extension(name) <==> exists|stem: Seq<char>|
            stem.len() > 0 && name == #[trigger] (stem + ".json"@),
{
    reveal_strlit(".json");
    let end = ".json"@;
    assert(end =~= seq!['.', 'j', 's', 'o', 'n']);
    if json_extension(name) {
        let stem = name.take(name.len() - 5);
        assert(name =~= stem + end) by {
            assert forall|i: int| name.len() - 5 <= i < name.len() implies name[i] == (stem
                + end)[i] by {
                assert(name[i] == name.subrange(name.len() - 5, name.len() as int)[i - (name.len()
                    - 5)]);
            }
        }
    }
    if exists|stem: Seq<char>| stem.len() > 0 && name == #[trigger] (stem + end) {
        let stem = choose|stem: Seq<char>| stem.len() > 0 && name == #[trigger] (stem + end);
        assert(name.subrange(name.len() - 5, name.len() as int) =~= end);
    }
}

/// A file name is taken for one of JSON exactly if it is made of some text, which is not empty, and
/// `.json`.
pub proof fn files_in_json_are_told_by_name(name: &str, yes: bool)
    requires
        call_ensures(has_json_extension, (name,), yes),
    ensures
        yes <==> exists|stem: Seq<char>| stem.len() > 0 && name@ == #[trigger] (stem + ".json"@),
{
    json_names_end_in_json(name@);
}

/// The texts of some strings are theirs, one for one.
pub proof fn texts_are_of_the_strings(strings: Seq<String>)
    ensures
        texts(strings).len() == strings.len(),
        forall|i: int| 0 <= i < strings.len() ==> #[trigger] texts(strings)[i] == strings[i]@,
{
}

/// A row of no fields is empty, a row of one field is that field, and a row of two lists of fields,
/// neither of them empty, is the row of the one, a comma, and the row of the other.
pub proof fn rows_are_joined_by_commas(a: Seq<Seq<char>>, b: Seq<Seq<char>>, field: Seq<char>)
    ensures
        joined(Seq::empty()) == Seq::<char>::empty(),
        joined(seq![field]) == field,
        a.len() > 0 && b.len() > 0 ==> joined(a + b) == joined(a) + seq![','] + joined(b),
    decreases b.len(),
{
    if a.len() > 0 && b.len() > 0 {
        assert((a + b).drop_last() =~= a + b.drop_last());
        assert((a + b).last() == b.last());
        if b.len() == 1 {
            assert(a + b.drop_last() =~= a);
            assert(joined(a + b) =~= joined(a) + seq![','] + joined(b));
        } else {
            rows_are_joined_by_commas(a, b.drop_last(), field);
            assert(joined(a + b) =~= joined(a) + seq![','] + joined(b));
        }
    }
}

} // verus!
