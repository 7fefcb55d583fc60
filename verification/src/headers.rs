//! The RPC headers given on the command line, one `Key:Value` text each.

use vstd::prelude::*;
use vstd::utf8::encode_utf8;

use crate::outside::{header_name, header_value, insert_header, new_header_map};
use crate::outside::{
    header_entries, header_name_text, header_value_bytes, is_header_name, is_header_value,
    is_token_char, lower_case, no_headers,
};
use crate::text::{chars_of, texts};

verus! {

/// A character with the Unicode property `White_Space`.
pub open spec fn is_white_space(c: char) -> bool {
    let u = c as u32;
    ||| 0x9 <= u <= 0xd || u == 0x20 || u == 0x85 || u == 0xa0 || u == 0x1680
    ||| 0x2000 <= u <= 0x200a || u == 0x2028 || u == 0x2029 || u == 0x202f || u == 0x205f
    ||| u == 0x3000
}

/// A text without the white space that it begins with.
pub open spec fn trimmed_start(s: Seq<char>) -> Seq<char>
    decreases s.len(),
{
    if s.len() > 0 && is_white_space(s[0]) {
        trimmed_start(s.drop_first())
    } else {
        s
    }
}

/// A text without the white space that it ends with.
pub open spec fn trimmed_end(s: Seq<char>) -> Seq<char>
    decreases s.len(),
{
    if s.len() > 0 && is_white_space(s.last()) {
        trimmed_end(s.drop_last())
    } else {
        s
    }
}

/// A text without the white space at both its ends.
pub open spec fn trimmed(s: Seq<char>) -> Seq<char> {
    trimmed_end(trimmed_start(s))
}

/// How many characters stand before a text's first colon.
pub open spec fn before_colon(s: Seq<char>) -> nat
    decreases s.len(),
{
    if s.len() == 0 || s[0] == ':' {
        0
    } else {
        1 + before_colon(s.drop_first())
    }
}

/// Why a line is no header.
pub enum LineFault {
    /// There is no colon in it.
    MissingColon,
    /// What stands before the first colon is no header name.
    Name,
    /// What stands behind the first colon is no header value.
    Value,
}

/// The header that a line gives: the name before the first colon, in lower case, and the bytes of
/// the value behind it, both without the white space at their ends.
pub open spec fn header_of(line: Seq<char>) -> Result<(Seq<char>, Seq<u8>), LineFault> {
    let colon = before_colon(line) as int;
    if colon == line.len() {
        Err(LineFault::MissingColon)
    } else {
        let name = trimmed(line.take(colon));
        let value = trimmed(line.skip(colon + 1));
        if !is_header_name(name) {
            Err(LineFault::Name)
        } else if !is_header_value(value) {
            Err(LineFault::Value)
        } else {
            Ok((lower_case(name), encode_utf8(value)))
        }
    }
}

/// Whether `c` is white space.
pub fn white_space(c: char) -> (yes: bool)
    ensures
        yes == is_white_space(c),
{
    let u: u32 = c as u32;
    (0x9 <= u && u <= 0xd) || u == 0x20 || u == 0x85 || u == 0xa0 || u == 0x1680 || (0x2000 <= u
        && u <= 0x200a) || u == 0x2028 || u == 0x2029 || u == 0x202f || u == 0x205f || u == 0x3000
}

/// A text without the white space at both its ends.
pub fn trim(s: &str) -> (part: &str)
    ensures
        part@ == trimmed(s@),
{
    let chars = chars_of(s);
    let mut from: usize = 0;
    assert(s@.skip(0) =~= s@);
    while from < chars.len() && white_space(chars[from])
        invariant
            from <= chars.len(),
            chars@ == s@,
            trimmed_start(s@) == trimmed_start(s@.skip(from as int)),
        decreases chars.len() - from,
    {
        assert(s@.skip(from as int).drop_first() =~= s@.skip(from + 1));
        from = from + 1;
    }
    assert(trimmed_start(s@) == s@.skip(from as int));
    let mut to: usize = chars.len();
    assert(s@.subrange(from as int, to as int) =~= s@.skip(from as int));
    while from < to && white_space(chars[to - 1])
        invariant
            from <= to <= chars.len(),
            chars@ == s@,
            trimmed(s@) == trimmed_end(s@.subrange(from as int, to as int)),
        decreases to - from,
    {
        assert(s@.subrange(from as int, to as int).drop_last() =~= s@.subrange(
            from as int,
            to - 1,
        ));
        to = to - 1;
    }
    s.substring_char(from, to)
}

/// How many characters stand before the first colon of `chars`.
fn find_colon(chars: &Vec<char>) -> (colon: usize)
    ensures
        colon == before_colon(chars@),
        colon <= chars.len(),
{
    let mut at: usize = 0;
    assert(chars@.skip(0) =~= chars@);
    while at < chars.len() && chars[at] != ':'
        invariant
            at <= chars.len(),
            before_colon(chars@) == at + before_colon(chars@.skip(at as int)),
        decreases chars.len() - at,
    {
        assert(chars@.skip(at as int).drop_first() =~= chars@.skip(at + 1));
        at = at + 1;
    }
    at
}

/// Why the header lines were refused.
pub enum HeaderError {
    /// This line holds no colon.
    MissingColon(String),
    /// The name in a line is no header name.
    Name(http::header::InvalidHeaderName),
    /// The value in a line is no header value.
    Value(http::header::InvalidHeaderValue),
    /// There are more names than a header map holds.
    TooMany(http::header::MaxSizeReached),
}

impl HeaderError {
    /// Whether this is the error that reports `fault` in `line`.
    pub open spec fn reports(self, fault: LineFault, line: Seq<char>) -> bool {
        match fault {
            LineFault::MissingColon => self matches HeaderError::MissingColon(l) && l@ == line,
            LineFault::Name => self is Name,
            LineFault::Value => self is Value,
        }
    }
}

/// The header that a `Key:Value` line gives.
pub fn parse_header_line(line: &str) -> (result: Result<
    (http::HeaderName, http::HeaderValue),
    HeaderError,
>)
    ensures
        match header_of(line@) {
            Ok(header) => result matches Ok(found) && header_name_text(found.0) == header.0
                && header_value_bytes(found.1) == header.1,
            Err(fault) => result matches Err(error) && error.reports(fault, line@),
        },
{
    let chars = chars_of(line);
    let colon: usize = find_colon(&chars);
    if colon == chars.len() {
        return Err(HeaderError::MissingColon(line.to_owned()));
    }
    let before = line.substring_char(0, colon);
    let behind = line.substring_char(colon + 1, chars.len());
    assert(before@ =~= line@.take(colon as int));
    assert(behind@ =~= line@.skip(colon + 1));
    let name = match header_name(trim(before)) {
        Ok(name) => name,
        Err(error) => return Err(HeaderError::Name(error)),
    };
    match header_value(trim(behind)) {
        Ok(value) => Ok((name, value)),
        Err(error) => Err(HeaderError::Value(error)),
    }
}

/// Whether every line gives a header.
pub open spec fn all_headers(lines: Seq<Seq<char>>) -> bool {
    forall|i: int| 0 <= i < lines.len() ==> header_of(#[trigger] lines[i]) is Ok
}

/// The headers that some lines give, entered one after the other: a later line takes the place of
/// an earlier one with the same name.
pub open spec fn header_table(lines: Seq<Seq<char>>) -> Map<Seq<char>, Seq<Seq<u8>>>
    decreases lines.len(),
{
    if lines.len() == 0 {
        no_headers()
    } else {
        let header = header_of(lines.last())->Ok_0;
        header_table(lines.drop_last()).insert(header.0, seq![header.1])
    }
}

/// A table holds at most one name for each line.
proof fn header_table_is_small(lines: Seq<Seq<char>>)
    ensures
        header_table(lines).dom().finite(),
        header_table(lines).dom().len() <= lines.len(),
    decreases lines.len(),
{
    if lines.len() > 0 {
        header_table_is_small(lines.drop_last());
    }
}

/// More lines make a table no smaller.
proof fn header_table_grows(lines: Seq<Seq<char>>, i: int)
    requires
        0 <= i <= lines.len(),
    ensures
        header_table(lines.take(i)).dom().len() <= header_table(lines).dom().len(),
    decreases lines.len(),
{
    if i == lines.len() {
        assert(lines.take(i) =~= lines);
    } else {
        assert(lines.drop_last().take(i) =~= lines.take(i));
        header_table_grows(lines.drop_last(), i);
        header_table_is_small(lines.drop_last());
    }
}

impl HeaderError {
    /// Whether this is how some lines can be refused: with the fault of the first line that gives no
    /// header, or for want of room, which is there for the first 6554 names.
    pub open spec fn refuses(self, lines: Seq<Seq<char>>) -> bool {
        if self is TooMany {
            &&& lines.len() > 6554
            &&& exists|i: int|
                0 <= i < lines.len() && all_headers(#[trigger] lines.take(i)) && header_table(
                    lines.take(i),
                ).dom().len() > 6553
        } else {
            exists|i: int|
                0 <= i < lines.len() && all_headers(lines.take(i)) && (#[trigger] header_of(
                    lines[i],
                ) matches Err(fault) && self.reports(fault, lines[i]))
        }
    }
}

/// The headers of the `Key:Value` lines. The first line that gives no header is reported, and a map
/// that has no more room, which does not happen before 6554 different names were entered.
pub fn parse_rpc_headers(lines: &[String]) -> (result: Result<
    http::HeaderMap<http::HeaderValue>,
    HeaderError,
>)
    ensures
        result matches Ok(map) ==> all_headers(texts(lines@)) && header_entries(map)
            == header_table(texts(lines@)),
        result matches Err(error) ==> error.refuses(texts(lines@)),
        header_table(texts(lines@)).dom().len() <= 6553 ==> (result is Ok <==> all_headers(
            texts(lines@),
        )),
        lines@.len() <= 6554 ==> (result is Ok <==> all_headers(texts(lines@))),
{
    let ghost all = texts(lines@);
    let mut map = new_header_map();
    let mut i: usize = 0;
    while i < lines.len()
        invariant
            i <= lines.len(),
            all == texts(lines@),
            all_headers(all.take(i as int)),
            header_entries(map) == header_table(all.take(i as int)),
        decreases lines.len() - i,
    {
        assert(all[i as int] == lines@[i as int]@);
        match parse_header_line(lines[i].as_str()) {
            Err(error) => {
                assert(header_of(all[i as int]) is Err);
                return Err(error);
            },
            Ok(header) => {
                proof {
                    header_table_is_small(all.take(i as int));
                    assert(all.take(i + 1).drop_last() =~= all.take(i as int));
                    assert forall|j: int| 0 <= j < i + 1 implies header_of(
                        #[trigger] all.take(i + 1)[j],
                    ) is Ok by {
                        if j < i {
                            assert(all.take(i + 1)[j] == all.take(i as int)[j]);
                        }
                    }
                }
                match insert_header(&mut map, header.0, header.1) {
                    Ok(()) => (),
                    Err(error) => {
                        proof {
                            header_table_grows(all, i as int);
                        }
                        return Err(HeaderError::TooMany(error));
                    },
                }
            },
        }
        i = i + 1;
    }
    assert(all.take(lines.len() as int) =~= all);
    Ok(map)
}

/// The message that refuses a line without a colon.
pub fn missing_colon_message(line: &str) -> (message: String)
    ensures
        message@ == "bad header: "@ + line@,
{
    let mut message = "bad header: ".to_owned();
    message.append(line);
    message
}

/// Of the lines that give the same name, the last one gives the value.
pub proof fn last_line_of_a_name_wins(lines: Seq<Seq<char>>, i: int)
    requires
        all_headers(lines),
        0 <= i < lines.len(),
        forall|j: int|
            i < j < lines.len() ==> (header_of(#[trigger] lines[j])->Ok_0).0 != (header_of(
                lines[i],
            )->Ok_0).0,
    ensures
        header_table(lines).dom().contains((header_of(lines[i])->Ok_0).0),
        header_table(lines)[(header_of(lines[i])->Ok_0).0] == seq![(header_of(lines[i])->Ok_0).1],
    decreases lines.len(),
{
    let rest = lines.drop_last();
    if i < rest.len() {
        assert forall|j: int| 0 <= j < rest.len() implies header_of(#[trigger] rest[j]) is Ok by {
            assert(rest[j] == lines[j]);
        }
        assert forall|j: int| i < j < rest.len() implies (header_of(#[trigger] rest[j])->Ok_0).0
            != (header_of(rest[i])->Ok_0).0 by {
            assert(rest[j] == lines[j]);
        }
        last_line_of_a_name_wins(rest, i);
        assert(lines[lines.len() - 1] == lines.last());
    }
}

/// No name is in the table that no line gives.
pub proof fn table_names_are_given(lines: Seq<Seq<char>>, name: Seq<char>)
    requires
        all_headers(lines),
        header_table(lines).dom().contains(name),
    ensures
        exists|i: int|
            0 <= i < lines.len() && (header_of(#[trigger] lines[i])->Ok_0).0 == name,
    decreases lines.len(),
{
    if lines.len() > 0 {
        let rest = lines.drop_last();
        if (header_of(lines.last())->Ok_0).0 == name {
            assert((header_of(lines[lines.len() - 1])->Ok_0).0 == name);
        } else {
            assert forall|j: int| 0 <= j < rest.len() implies header_of(#[trigger] rest[j]) is Ok by {
                assert(rest[j] == lines[j]);
            }
            table_names_are_given(rest, name);
            let i = choose|i: int|
                0 <= i < rest.len() && (header_of(#[trigger] rest[i])->Ok_0).0 == name;
            assert(lines[i] == rest[i]);
        }
    }
}

/// White space is made of these characters, and no other.
pub proof fn white_space_is_listed(c: char, yes: bool)
    requires
        call_ensures(white_space, (c,), yes),
    ensures
        yes == is_white_space(c),
        is_white_space(c) <==> seq![
            0x9u32,
            0xa,
            0xb,
            0xc,
            0xd,
            0x20,
            0x85,
            0xa0,
            0x1680,
            0x2000,
            0x2001,
            0x2002,
            0x2003,
            0x2004,
            0x2005,
            0x2006,
            0x2007,
            0x2008,
            0x2009,
            0x200a,
            0x2028,
            0x2029,
            0x202f,
            0x205f,
            0x3000,
        ].contains(c as u32),
{
    let u = c as u32;
    let all = seq![
        0x9u32,
        0xa,
        0xb,
        0xc,
        0xd,
        0x20,
        0x85,
        0xa0,
        0x1680,
        0x2000,
        0x2001,
        0x2002,
        0x2003,
        0x2004,
        0x2005,
        0x2006,
        0x2007,
        0x2008,
        0x2009,
        0x200a,
        0x2028,
        0x2029,
        0x202f,
        0x205f,
        0x3000,
    ];
    if is_white_space(c) {
        assert(all[0] == 0x9 && all[1] == 0xa && all[2] == 0xb && all[3] == 0xc && all[4] == 0xd);
        assert(all[5] == 0x20 && all[6] == 0x85 && all[7] == 0xa0 && all[8] == 0x1680);
        assert(all[9] == 0x2000 && all[10] == 0x2001 && all[11] == 0x2002 && all[12] == 0x2003);
        assert(all[13] == 0x2004 && all[14] == 0x2005 && all[15] == 0x2006 && all[16] == 0x2007);
        assert(all[17] == 0x2008 && all[18] == 0x2009 && all[19] == 0x200a && all[20] == 0x2028);
        assert(all[21] == 0x2029 && all[22] == 0x202f && all[23] == 0x205f && all[24] == 0x3000);
    }
}

proof fn start_is_trimmed(s: Seq<char>) -> (n: int)
    ensures
        0 <= n <= s.len(),
        trimmed_start(s) == s.skip(n),
        forall|i: int| 0 <= i < n ==> is_white_space(#[trigger] s[i]),
        n < s.len() ==> !is_white_space(s[n]),
    decreases s.len(),
{
    if s.len() > 0 && is_white_space(s[0]) {
        let m = start_is_trimmed(s.drop_first());
        assert(s.drop_first().skip(m) =~= s.skip(m + 1));
        assert forall|i: int| 0 <= i < m + 1 implies is_white_space(#[trigger] s[i]) by {
            if i > 0 {
                assert(s.drop_first()[i - 1] == s[i]);
            }
        }
        m + 1
    } else {
        assert(s.skip(0) =~= s);
        0
    }
}

proof fn end_is_trimmed(s: Seq<char>) -> (n: int)
    ensures
        0 <= n <= s.len(),
        trimmed_end(s) == s.take(n),
        forall|i: int| n <= i < s.len() ==> is_white_space(#[trigger] s[i]),
        n > 0 ==> !is_white_space(s[n - 1]),
    decreases s.len(),
{
    if s.len() > 0 && is_white_space(s.last()) {
        let m = end_is_trimmed(s.drop_last());
        assert(s.drop_last().take(m) =~= s.take(m));
        assert forall|i: int| m <= i < s.len() implies is_white_space(#[trigger] s[i]) by {
            if i < s.len() - 1 {
                assert(s.drop_last()[i] == s[i]);
            }
        }
        m
    } else {
        assert(s.take(s.len() as int) =~= s);
        s.len() as int
    }
}

/// To trim a text takes white space away at both ends, and all of it: the text is white space, the
/// trimmed text, and white space, and what is left neither begins nor ends with any.
pub proof fn trimming_takes_white_space_only(s: Seq<char>)
    ensures
        exists|from: int, to: int|
            0 <= from <= to <= s.len() && trimmed(s) == #[trigger] s.subrange(from, to) && (forall|
                i: int,
            |
                0 <= i < from || to <= i < s.len() ==> is_white_space(#[trigger] s[i])),
        trimmed(s).len() > 0 ==> !is_white_space(trimmed(s)[0]) && !is_white_space(
            trimmed(s).last(),
        ),
{
    let from = start_is_trimmed(s);
    let rest = s.skip(from);
    let n = end_is_trimmed(rest);
    assert(rest.take(n) =~= s.subrange(from, from + n));
    assert forall|i: int| 0 <= i < from || from + n <= i < s.len() implies is_white_space(
        #[trigger] s[i],
    ) by {
        if i >= from {
            assert(rest[i - from] == s[i]);
        }
    }
    if n > 0 {
        assert(trimmed(s)[0] == s[from]);
        assert(trimmed(s).last() == rest[n - 1]);
    }
}

/// What is left of a text that is trimmed is the text without the white space at both ends.
pub proof fn trimmed_texts_lose_white_space_only(s: &str, part: &str)
    requires
        call_ensures(trim, (s,), part),
    ensures
        part@ == trimmed(s@),
        exists|from: int, to: int|
            0 <= from <= to <= s@.len() && part@ == #[trigger] s@.subrange(from, to) && (forall|
                i: int,
            |
                0 <= i < from || to <= i < s@.len() ==> is_white_space(#[trigger] s@[i])),
        part@.len() > 0 ==> !is_white_space(part@[0]) && !is_white_space(part@.last()),
{
    trimming_takes_white_space_only(s@);
}

proof fn colon_is_found(before: Seq<char>, behind: Seq<char>)
    requires
        !before.contains(':'),
    ensures
        before_colon(before) == before.len(),
        before_colon(before + seq![':'] + behind) == before.len(),
    decreases before.len(),
{
    if before.len() > 0 {
        let rest = before.drop_first();
        assert forall|i: int| 0 <= i < rest.len() implies rest[i] != ':' by {
            assert(before[i + 1] != ':');
        }
        colon_is_found(rest, behind);
        assert(before[0] != ':');
        assert((before + seq![':'] + behind).drop_first() =~= rest + seq![':'] + behind);
    }
}

/// A line without a colon gives no header.
pub proof fn lines_need_a_colon(line: Seq<char>)
    requires
        !line.contains(':'),
    ensures
        header_of(line) == Err::<(Seq<char>, Seq<u8>), LineFault>(LineFault::MissingColon),
{
    colon_is_found(line, Seq::empty());
}

/// A line is split at its first colon. What stands before it, trimmed and in lower case, is the name,
/// and what stands behind it, trimmed, is the value; where either is none, the line gives no header,
/// and the name is looked at first.
pub proof fn lines_are_split_at_the_first_colon(before: Seq<char>, behind: Seq<char>)
    requires
        !before.contains(':'),
    ensures
        ({
            let found = header_of(before + seq![':'] + behind);
            if !is_header_name(trimmed(before)) {
                found matches Err(LineFault::Name)
            } else if !is_header_value(trimmed(behind)) {
                found matches Err(LineFault::Value)
            } else {
                found matches Ok(header) && header.0 == lower_case(trimmed(before)) && header.1
                    == encode_utf8(trimmed(behind))
            }
        }),
{
    colon_is_found(before, behind);
    let line = before + seq![':'] + behind;
    assert(line.take(before.len() as int) =~= before);
    assert(line.skip(before.len() as int + 1) =~= behind);
}

/// A header name is not empty, has at most 65535 characters, and each of them is a letter, a digit or
/// one of these marks.
pub proof fn header_names_are_made_of_these(name: Seq<char>)
    ensures
        is_header_name(name) <==> 0 < name.len() < 65_536 && forall|i: int|
            0 <= i < name.len() ==> (('a' <= #[trigger] name[i] && name[i] <= 'z') || ('A'
                <= name[i] && name[i] <= 'Z') || ('0' <= name[i] && name[i] <= '9')
                || "!#$%&'*+-.^_`|~"@.contains(name[i])),
{
    reveal_strlit("!#$%&'*+-.^_`|~");
    let marks = "!#$%&'*+-.^_`|~"@;
    assert(marks[0] == '!' && marks[1] == '#' && marks[2] == '$' && marks[3] == '%');
    assert(marks[4] == '&' && marks[5] == '\'' && marks[6] == '*' && marks[7] == '+');
    assert(marks[8] == '-' && marks[9] == '.' && marks[10] == '^' && marks[11] == '_');
    assert(marks[12] == '`' && marks[13] == '|' && marks[14] == '~');
    assert forall|c: char| is_token_char(c) implies (('a' <= c && c <= 'z') || ('A' <= c && c <= 'Z')
        || ('0' <= c && c <= '9') || #[trigger] marks.contains(c)) by {}
}

/// A header value is made of tabs and of characters from the space on, but for the one with the
/// number 127.
pub proof fn header_values_hold_no_control_character(value: Seq<char>)
    ensures
        is_header_value(value) <==> forall|i: int|
            0 <= i < value.len() ==> #[trigger] value[i] == '\t' || (value[i] >= ' ' && value[i]
                != '\u{7f}'),
{
    assert forall|i: int| 0 <= i < value.len() implies (#[trigger] value[i]) as u32 == value[
        i
    ] as int by {
        character_has_its_number(value[i]);
    }
}

proof fn character_has_its_number(c: char)
    ensures
        c as u32 == c as int,
{
}

/// In lower case, the letters A to Z become a to z, and every other character stays.
pub proof fn lower_case_changes_capitals_only(s: Seq<char>, i: int, k: int)
    requires
        0 <= i < s.len(),
        0 <= k < 26,
    ensures
        lower_case(s).len() == s.len(),
        s[i] as int == 65 + k ==> lower_case(s)[i] as int == 97 + k,
        !(65 <= s[i] as int <= 90) ==> lower_case(s)[i] == s[i],
{
}

/// Some lines are all headers exactly if each of them is.
pub proof fn lines_are_headers_one_by_one(lines: Seq<Seq<char>>, line: Seq<char>)
    ensures
        all_headers(Seq::empty()),
        all_headers(lines.push(line)) <==> all_headers(lines) && header_of(line) is Ok,
{
    let more = lines.push(line);
    assert(more[lines.len() as int] == line);
    if all_headers(more) {
        assert forall|i: int| 0 <= i < lines.len() implies header_of(#[trigger] lines[i]) is Ok by {
            assert(more[i] == lines[i]);
        }
    }
}

/// A header line that is read gives the header that stands in it: the name before the first colon and
/// the value behind it. A line without a colon is reported whole.
pub proof fn header_lines_are_read(
    line: &str,
    before: Seq<char>,
    behind: Seq<char>,
    result: Result<(http::HeaderName, http::HeaderValue), HeaderError>,
)
    requires
        call_ensures(parse_header_line, (line,), result),
        !before.contains(':'),
        line@ == before || line@ == before + seq![':'] + behind,
    ensures
        if line@ == before {
            result matches Err(HeaderError::MissingColon(whole)) && whole@ == line@
        } else if !is_header_name(trimmed(before)) {
            result matches Err(HeaderError::Name(_))
        } else if !is_header_value(trimmed(behind)) {
            result matches Err(HeaderError::Value(_))
        } else {
            result matches Ok(found) && header_name_text(found.0) == lower_case(trimmed(before))
                && header_value_bytes(found.1) == encode_utf8(trimmed(behind))
        },
{
    if line@ == before {
        lines_need_a_colon(before);
    } else {
        lines_are_split_at_the_first_colon(before, behind);
    }
}

/// Lines that are read give headers each, and under each name stands the value of the last line that
/// gives it, alone; no other name is there.
pub proof fn headers_are_those_of_the_lines(
    lines: &[String],
    map: http::HeaderMap<http::HeaderValue>,
    i: int,
)
    requires
        call_ensures(
            parse_rpc_headers,
            (lines,),
            Ok::<http::HeaderMap<http::HeaderValue>, HeaderError>(map),
        ),
        0 <= i < lines@.len(),
    ensures
        header_of(lines@[i]@) is Ok,
        (forall|j: int|
            i < j < lines@.len() ==> (header_of((#[trigger] lines@[j])@)->Ok_0).0 != (header_of(
                lines@[i]@,
            )->Ok_0).0) ==> header_entries(map).dom().contains((header_of(lines@[i]@)->Ok_0).0)
            && header_entries(map)[(header_of(lines@[i]@)->Ok_0).0] == seq![
            (header_of(lines@[i]@)->Ok_0).1,
        ],
        forall|name: Seq<char>| #[trigger]
            header_entries(map).dom().contains(name) ==> exists|j: int|
                0 <= j < lines@.len() && (header_of((#[trigger] lines@[j])@)->Ok_0).0 == name,
{
    let all = texts(lines@);
    assert(all[i] == lines@[i]@);
    if forall|j: int|
        i < j < lines@.len() ==> (header_of((#[trigger] lines@[j])@)->Ok_0).0 != (header_of(
            lines@[i]@,
        )->Ok_0).0 {
        assert forall|j: int| i < j < all.len() implies (header_of(#[trigger] all[j])->Ok_0).0 != (
        header_of(all[i])->Ok_0).0 by {
            assert(all[j] == lines@[j]@);
        }
        last_line_of_a_name_wins(all, i);
    }
    assert forall|name: Seq<char>| #[trigger]
        header_entries(map).dom().contains(name) implies exists|j: int|
        0 <= j < lines@.len() && (header_of((#[trigger] lines@[j])@)->Ok_0).0 == name by {
        table_names_are_given(all, name);
        let j = choose|j: int| 0 <= j < all.len() && (header_of(#[trigger] all[j])->Ok_0).0 == name;
        assert(lines@[j]@ == all[j]);
    }
}

/// Lines of which one gives no header are refused, for the first such line, unless there is no more
/// room before it, as there always is for 6554 lines; if it has no colon, it is reported whole.
pub proof fn the_first_bad_line_is_reported(
    lines: &[String],
    result: Result<http::HeaderMap<http::HeaderValue>, HeaderError>,
    i: int,
)
    requires
        call_ensures(parse_rpc_headers, (lines,), result),
        lines@.len() <= 6554 || !(result matches Err(HeaderError::TooMany(_))),
        0 <= i < lines@.len(),
        header_of(lines@[i]@) is Err,
        forall|j: int| 0 <= j < i ==> header_of((#[trigger] lines@[j])@) is Ok,
    ensures
        match header_of(lines@[i]@)->Err_0 {
            LineFault::MissingColon => result matches Err(HeaderError::MissingColon(line)) && line@
                == lines@[i]@,
            LineFault::Name => result matches Err(HeaderError::Name(_)),
            LineFault::Value => result matches Err(HeaderError::Value(_)),
        },
{
    let all = texts(lines@);
    assert(all[i] == lines@[i]@);
    let error = result->Err_0;
    let k = choose|k: int|
        0 <= k < all.len() && all_headers(all.take(k)) && (#[trigger] header_of(all[k]) matches Err(
            fault,
        ) && error.reports(fault, all[k]));
    if k > i {
        assert(all.take(k)[i] == all[i]);
    }
    if k < i {
        assert(all[k] == lines@[k]@);
    }
}

/// A line without a colon is refused with a message that gives it.
pub proof fn bad_lines_are_given_in_the_message(line: &str, message: String)
    requires
        call_ensures(missing_colon_message, (line,), message),
    ensures
        message@ == "bad header: "@ + line@,
{
}

/// Up to 6554 lines that each give a header are accepted.
pub proof fn good_lines_are_accepted(
    lines: &[String],
    result: Result<http::HeaderMap<http::HeaderValue>, HeaderError>,
)
    requires
        call_ensures(parse_rpc_headers, (lines,), result),
        lines@.len() <= 6554,
        forall|i: int| 0 <= i < lines@.len() ==> header_of((#[trigger] lines@[i])@) is Ok,
    ensures
        result is Ok,
{
    let all = texts(lines@);
    assert forall|i: int| 0 <= i < all.len() implies header_of(#[trigger] all[i]) is Ok by {
        assert(all[i] == lines@[i]@);
    }
}

/// However many lines there are, those that are refused for want of room are more than 6554, and
/// those before the refused one give more than 6553 names.
pub proof fn there_is_room_for_many_names(lines: &[String], error: http::header::MaxSizeReached)
    requires
        call_ensures(
            parse_rpc_headers,
            (lines,),
            Err::<http::HeaderMap<http::HeaderValue>, HeaderError>(HeaderError::TooMany(error)),
        ),
    ensures
        lines@.len() > 6554,
        header_table(texts(lines@)).dom().len() > 6553,
{
    let all = texts(lines@);
    let i = choose|i: int|
        0 <= i < all.len() && all_headers(#[trigger] all.take(i)) && header_table(
            all.take(i),
        ).dom().len() > 6553;
    header_table_grows(all, i);
}

} // verus!
