//! Texts: decimal numerals, and the fields of header values.

use vstd::prelude::*;

use crate::text_laws::{is_numeral, law_numeral_denotes_its_number, numeral_value};

verus! {

/// The ASCII code of the space.
const SPACE: u8 = 0x20;

/// The ASCII code of the tab.
const TAB: u8 = 0x09;

/// The ASCII code of the comma.
const COMMA: u8 = 0x2c;

/// The digit that stands for `d`.
pub open spec fn digit(d: nat) -> char {
    ('0' as nat + d) as char
}

/// The decimal numeral of `n`, without leading zeros.
pub open spec fn decimal(n: nat) -> Seq<char>
    decreases n,
{
    if n < 10 {
        seq![digit(n)]
    } else {
        decimal(n / 10).push(digit(n % 10))
    }
}

/// The numeral of a single digit.
fn digit_text(d: u64) -> (text: &'static str)
    requires
        d < 10,
    ensures
        text@ == seq![digit(d as nat)],
{
    proof {
        reveal_strlit("0");
        reveal_strlit("1");
        reveal_strlit("2");
        reveal_strlit("3");
        reveal_strlit("4");
        reveal_strlit("5");
        reveal_strlit("6");
        reveal_strlit("7");
        reveal_strlit("8");
        reveal_strlit("9");
    }
    if d == 0 {
        "0"
    } else if d == 1 {
        "1"
    } else if d == 2 {
        "2"
    } else if d == 3 {
        "3"
    } else if d == 4 {
        "4"
    } else if d == 5 {
        "5"
    } else if d == 6 {
        "6"
    } else if d == 7 {
        "7"
    } else if d == 8 {
        "8"
    } else {
        "9"
    }
}

/// Writes `n` in decimal.
pub fn to_decimal(n: u64) -> (text: String)
    ensures
        text@ == decimal(n as nat),
        is_numeral(text@),
        numeral_value(text@) == n,
    decreases n,
{
    proof {
        law_numeral_denotes_its_number(n as nat);
    }
    if n < 10 {
        digit_text(n).to_owned()
    } else {
        let mut text = to_decimal(n / 10);
        text.append(digit_text(n % 10));
        text
    }
}

/// Whether `c` may occur in the text of a header value: a visible ASCII character, a space or a
/// tab.
pub open spec fn is_field_char(c: char) -> bool {
    ' ' <= c <= '~' || c == '\t'
}

/// Whether every character of `text` may occur in the text of a header value.
pub open spec fn is_field_text(text: Seq<char>) -> bool {
    forall|i: int| 0 <= i < text.len() ==> is_field_char(#[trigger] text[i])
}

/// Whether `c` is white space, among the characters of header values.
pub open spec fn is_blank(c: char) -> bool {
    c == ' ' || c == '\t'
}

/// `text` without the white space at its start.
pub open spec fn trim_start(text: Seq<char>) -> Seq<char>
    decreases text.len(),
{
    if text.len() > 0 && is_blank(text.first()) {
        trim_start(text.drop_first())
    } else {
        text
    }
}

/// `text` without the white space at its end.
pub open spec fn trim_end(text: Seq<char>) -> Seq<char>
    decreases text.len(),
{
    if text.len() > 0 && is_blank(text.last()) {
        trim_end(text.drop_last())
    } else {
        text
    }
}

/// `text` without the white space at both ends.
pub open spec fn trim(text: Seq<char>) -> Seq<char> {
    trim_end(trim_start(text))
}

/// What precedes the first comma of `text`, or all of it if it has none.
pub open spec fn first_item(text: Seq<char>) -> Seq<char>
    decreases text.len(),
{
    if text.len() == 0 || text.first() == ',' {
        Seq::empty()
    } else {
        seq![text.first()] + first_item(text.drop_first())
    }
}

/// Strips the white space from both ends.
pub fn trimmed(text: &str) -> (part: &str)
    requires
        is_field_text(text@),
    ensures
        part@ == trim(text@),
        is_field_text(part@),
{
    let len = text.unicode_len();
    let ghost all = text@;
    let mut from: usize = 0;
    assert(all.subrange(0, len as int) =~= all);
    while from < len && (text.get_ascii(from) == SPACE || text.get_ascii(from) == TAB)
        invariant
            from <= len == all.len(),
            all == text@,
            is_field_text(all),
            trim_start(all.subrange(from as int, len as int)) == trim_start(all),
        ensures
            from < len ==> !is_blank(all[from as int]),
        decreases len - from,
    {
        assert(all.subrange(from as int, len as int).drop_first() =~= all.subrange(
            from + 1,
            len as int,
        ));
        from += 1;
    }
    assert(trim_start(all) == all.subrange(from as int, len as int));
    let mut to: usize = len;
    while from < to && (text.get_ascii(to - 1) == SPACE || text.get_ascii(to - 1) == TAB)
        invariant
            from <= to <= len == all.len(),
            all == text@,
            is_field_text(all),
            trim_end(all.subrange(from as int, to as int)) == trim(all),
        ensures
            from < to ==> !is_blank(all[to - 1]),
        decreases to,
    {
        assert(all.subrange(from as int, to as int).drop_last() =~= all.subrange(
            from as int,
            to - 1,
        ));
        to -= 1;
    }
    text.substring_ascii(from, to)
}

/// Cuts `text` at its first comma.
pub fn before_comma(text: &str) -> (part: &str)
    requires
        is_field_text(text@),
    ensures
        part@ == first_item(text@),
        is_field_text(part@),
        part@.len() <= text@.len(),
        part@ == text@.subrange(0, part@.len() as int),
        forall|i: int| 0 <= i < part@.len() ==> #[trigger] text@[i] != ',',
        part@.len() < text@.len() ==> text@[part@.len() as int] == ',',
{
    let len = text.unicode_len();
    let ghost all = text@;
    let mut to: usize = 0;
    assert(all.subrange(0, len as int) =~= all);
    while to < len && text.get_ascii(to) != COMMA
        invariant
            to <= len == all.len(),
            all == text@,
            is_field_text(all),
            forall|i: int| 0 <= i < to ==> #[trigger] all[i] != ',',
            first_item(all) =~= all.subrange(0, to as int) + first_item(
                all.subrange(to as int, len as int),
            ),
        ensures
            to < len ==> all[to as int] == ',',
        decreases len - to,
    {
        assert(all.subrange(to as int, len as int).drop_first() =~= all.subrange(
            to + 1,
            len as int,
        ));
        to += 1;
    }
    assert(first_item(all.subrange(to as int, len as int)) =~= Seq::empty());
    text.substring_ascii(0, to)
}

} // verus!
