//! What the functions on texts are for, told by the characters themselves.

use vstd::prelude::*;

use crate::client::{client_of, field_text, first_text, sender};
use crate::text::{decimal, first_item, trim, trim_end, trim_start};

verus! {

/// The number that a numeral denotes, read from the left: ten times what has been read so far,
/// plus the next digit.
pub open spec fn numeral_value(text: Seq<char>) -> int
    decreases text.len(),
{
    if text.len() == 0 {
        0
    } else {
        10 * numeral_value(text.drop_last()) + (text.last() as int - 48)
    }
}

/// Whether `text` consists of the digits from `0` to `9`.
pub open spec fn is_numeral(text: Seq<char>) -> bool {
    text.len() > 0 && forall|i: int|
        0 <= i < text.len() ==> 48 <= #[trigger] text[i] as int <= 57
}

/// A numeral denotes its number: read digit by digit it gives that number back. It has no
/// leading zero, except that zero itself is one digit.
pub proof fn law_numeral_denotes_its_number(n: nat)
    ensures
        is_numeral(decimal(n)),
        numeral_value(decimal(n)) == n,
        decimal(n).len() > 1 ==> decimal(n)[0] as int != 48,
        n == 0 ==> decimal(n).len() == 1,
    decreases n,
{
    let text = decimal(n);
    assert(numeral_value(Seq::<char>::empty()) == 0);
    if n < 10 {
        assert(text.drop_last() =~= Seq::<char>::empty());
    } else {
        law_numeral_denotes_its_number(n / 10);
        let front = decimal(n / 10);
        assert(text.drop_last() =~= front);
        assert forall|i: int| 0 <= i < text.len() implies 48 <= #[trigger] text[i] as int
            <= 57 by {
            if i < front.len() {
                assert(text[i] == front[i]);
            }
        }
        if front.len() == 1 {
            assert(front.drop_last() =~= Seq::<char>::empty());
            assert(numeral_value(front) == front[0] as int - 48);
        }
        assert(text[0] == front[0]);
    }
}

/// Different numbers have different numerals.
pub proof fn law_numerals_differ(left: nat, right: nat)
    requires
        decimal(left) == decimal(right),
    ensures
        left == right,
{
    law_numeral_denotes_its_number(left);
    law_numeral_denotes_its_number(right);
}

/// Whether every character of `text` from `from` up to `to` is a space or a tab.
pub open spec fn all_blank(text: Seq<char>, from: int, to: int) -> bool {
    forall|i: int| from <= i < to ==> (#[trigger] text[i] == ' ' || text[i] == '\t')
}

/// Whether `part` begins and ends with something else than a space or a tab, if it is not empty.
pub open spec fn has_bare_ends(part: Seq<char>) -> bool {
    part.len() > 0 ==> {
        &&& part[0] != ' ' && part[0] != '\t'
        &&& part[part.len() - 1] != ' ' && part[part.len() - 1] != '\t'
    }
}

/// Trimming the start cuts off white space and stops at the first other character.
proof fn lemma_start_cut(text: Seq<char>) -> (from: int)
    ensures
        0 <= from <= text.len(),
        trim_start(text) == text.subrange(from, text.len() as int),
        all_blank(text, 0, from),
        from < text.len() ==> text[from] != ' ' && text[from] != '\t',
    decreases text.len(),
{
    if text.len() > 0 && (text[0] == ' ' || text[0] == '\t') {
        let rest = text.drop_first();
        let n = lemma_start_cut(rest);
        assert(rest.subrange(n, rest.len() as int) =~= text.subrange(n + 1, text.len() as int));
        assert forall|i: int| 0 <= i < n + 1 implies (#[trigger] text[i] == ' ' || text[i]
            == '\t') by {
            if i > 0 {
                assert(rest[i - 1] == text[i]);
            }
        }
        n + 1
    } else {
        assert(text.subrange(0, text.len() as int) =~= text);
        0
    }
}

/// Trimming the end cuts off white space and stops at the last other character.
proof fn lemma_end_cut(text: Seq<char>) -> (to: int)
    ensures
        0 <= to <= text.len(),
        trim_end(text) == text.subrange(0, to),
        all_blank(text, to, text.len() as int),
        to > 0 ==> text[to - 1] != ' ' && text[to - 1] != '\t',
    decreases text.len(),
{
    if text.len() > 0 && (text.last() == ' ' || text.last() == '\t') {
        let rest = text.drop_last();
        let n = lemma_end_cut(rest);
        assert(rest.subrange(0, n) =~= text.subrange(0, n));
        assert forall|i: int| n <= i < text.len() implies (#[trigger] text[i] == ' ' || text[i]
            == '\t') by {
            if i < rest.len() {
                assert(rest[i] == text[i]);
            }
        }
        n
    } else {
        assert(text.subrange(0, text.len() as int) =~= text);
        text.len() as int
    }
}

/// Trimming cuts a text out of its surrounding spaces and tabs and takes nothing else away.
pub proof fn law_trim_takes_blanks_only(text: Seq<char>) -> (cut: (int, int))
    ensures
        0 <= cut.0 <= cut.1 <= text.len(),
        trim(text) == text.subrange(cut.0, cut.1),
        all_blank(text, 0, cut.0),
        all_blank(text, cut.1, text.len() as int),
        has_bare_ends(trim(text)),
{
    let from = lemma_start_cut(text);
    let rest = trim_start(text);
    let n = lemma_end_cut(rest);
    assert(rest.subrange(0, n) =~= text.subrange(from, from + n));
    assert forall|i: int| from + n <= i < text.len() implies (#[trigger] text[i] == ' ' || text[i]
        == '\t') by {
        assert(rest[i - from] == text[i]);
    }
    if n > 0 {
        assert(rest[0] == text[from]);
    }
    (from, from + n)
}

/// The first item of a list reaches to its first comma, or to its end.
pub proof fn law_first_item_reaches_to_comma(text: Seq<char>)
    ensures
        first_item(text).len() <= text.len(),
        first_item(text) == text.subrange(0, first_item(text).len() as int),
        forall|i: int| 0 <= i < first_item(text).len() ==> #[trigger] text[i] != ',',
        first_item(text).len() < text.len() ==> text[first_item(text).len() as int] == ',',
    decreases text.len(),
{
    if text.len() > 0 && text[0] != ',' {
        let rest = text.drop_first();
        law_first_item_reaches_to_comma(rest);
        let n = first_item(rest).len() as int;
        assert(first_item(text) =~= text.subrange(0, n + 1)) by {
            assert(first_item(text).len() == n + 1);
            assert forall|i: int| 0 <= i < n + 1 implies first_item(text)[i] == text[i] by {
                if i > 0 {
                    assert(first_item(text)[i] == first_item(rest)[i - 1]);
                    assert(rest[i - 1] == text[i]);
                }
            }
        }
        assert forall|i: int| 0 <= i < n + 1 implies #[trigger] text[i] != ',' by {
            if i > 0 {
                assert(rest[i - 1] == text[i]);
            }
        }
        if n + 1 < text.len() {
            assert(rest[n] == text[n + 1]);
        }
    }
}

/// A header value is text exactly if all its bytes are tabs or lie between the space and the
/// tilde, and its text has these bytes as characters.
pub proof fn law_field_text_is_the_bytes(value: Seq<u8>)
    ensures
        field_text(value) is Some <==> forall|i: int|
            0 <= i < value.len() ==> (32 <= #[trigger] value[i] <= 126 || value[i] == 9),
        field_text(value) matches Some(text) ==> {
            &&& text.len() == value.len()
            &&& forall|i: int| 0 <= i < value.len() ==> #[trigger] text[i] as int == value[i] as int
        },
{
    let text = Seq::new(value.len(), |i: int| value[i] as char);
    assert(forall|i: int| 0 <= i < value.len() ==> #[trigger] text[i] as int == value[i] as int);
    if field_text(value) is Some {
        assert forall|i: int| 0 <= i < value.len() implies (32 <= #[trigger] value[i] <= 126
            || value[i] == 9) by {
            assert(text[i] as int == value[i] as int);
        }
    }
}

/// Whether `part` is what stands in `text` from `from` up to `to`, alone between spaces and tabs
/// at the start of the text and at `end`, with no comma before `end`, where the text ends or has
/// a comma.
pub open spec fn is_first_entry(
    text: Seq<char>,
    part: Seq<char>,
    from: int,
    to: int,
    end: int,
) -> bool {
    &&& 0 <= from <= to <= end <= text.len()
    &&& part == text.subrange(from, to)
    &&& has_bare_ends(part)
    &&& all_blank(text, 0, from)
    &&& all_blank(text, to, end)
    &&& forall|i: int| 0 <= i < end ==> #[trigger] text[i] != ','
    &&& end < text.len() ==> text[end] == ','
}

/// A request whose `X-Forwarded-For` is not blank is counted under what precedes the first comma
/// there, without the spaces and tabs around it, whatever other characters it holds.
pub proof fn law_client_is_first_address(
    list: Seq<char>,
    api_key: Option<Seq<char>>,
    seen: int,
) -> (cut: (int, int, int))
    requires
        0 <= seen < list.len(),
        list[seen] != ' ' && list[seen] != '\t',
    ensures
        is_first_entry(list, client_of(Some(list), api_key), cut.0, cut.1, cut.2),
{
    let outer = law_trim_takes_blanks_only(list);
    let inner = trim(list);
    if inner.len() == 0 {
        assert(outer.0 == outer.1);
        assert(list[seen] == ' ' || list[seen] == '\t');
    }
    law_first_item_reaches_to_comma(inner);
    let item = first_item(inner);
    let n = item.len() as int;
    let own = law_trim_takes_blanks_only(item);
    let from = outer.0 + own.0;
    let to = outer.0 + own.1;
    let end = if n < inner.len() {
        outer.0 + n
    } else {
        list.len() as int
    };
    assert(forall|i: int| 0 <= i < inner.len() ==> #[trigger] inner[i] == list[outer.0 + i]);
    assert(forall|i: int| 0 <= i < n ==> #[trigger] item[i] == list[outer.0 + i]);
    assert(trim(item) =~= list.subrange(from, to));
    assert forall|i: int| 0 <= i < from implies (#[trigger] list[i] == ' ' || list[i]
        == '\t') by {
        if i >= outer.0 {
            assert(item[i - outer.0] == list[i]);
        }
    }
    assert forall|i: int| to <= i < end implies (#[trigger] list[i] == ' ' || list[i] == '\t') by {
        if i < outer.0 + n {
            assert(item[i - outer.0] == list[i]);
        }
    }
    assert forall|i: int| 0 <= i < end implies #[trigger] list[i] != ',' by {
        if outer.0 <= i < outer.0 + n {
            assert(inner[i - outer.0] == list[i]);
        }
    }
    if n < inner.len() {
        assert(inner[n] == list[end]);
    }
    (from, to, end)
}

/// A request without an address is counted under its whole key, without the spaces and tabs
/// around it.
pub proof fn law_client_is_whole_key(forwarded_for: Option<Seq<char>>, key: Seq<char>) -> (cut: (
    int,
    int,
))
    requires
        forwarded_for matches Some(list) ==> all_blank(list, 0, list.len() as int),
    ensures
        0 <= cut.0 <= cut.1 <= key.len(),
        client_of(forwarded_for, Some(key)) == key.subrange(cut.0, cut.1),
        all_blank(key, 0, cut.0),
        all_blank(key, cut.1, key.len() as int),
        has_bare_ends(client_of(forwarded_for, Some(key))),
{
    lemma_blank_trims_to_nothing(forwarded_for);
    law_trim_takes_blanks_only(key)
}

/// A request that names neither address nor key is counted under `unknown`.
pub proof fn law_nameless_client_is_unknown(forwarded_for: Option<Seq<char>>)
    requires
        forwarded_for matches Some(list) ==> all_blank(list, 0, list.len() as int),
    ensures
        client_of(forwarded_for, None) == seq!['u', 'n', 'k', 'n', 'o', 'w', 'n'],
{
    lemma_blank_trims_to_nothing(forwarded_for);
    reveal_strlit("unknown");
    assert("unknown"@ =~= seq!['u', 'n', 'k', 'n', 'o', 'w', 'n']);
}

/// Nothing is left of a blank text.
proof fn lemma_blank_trims_to_nothing(text: Option<Seq<char>>)
    requires
        text matches Some(list) ==> all_blank(list, 0, list.len() as int),
    ensures
        text matches Some(list) ==> trim(list).len() == 0,
{
    if let Some(list) = text {
        let cut = law_trim_takes_blanks_only(list);
        if cut.0 < cut.1 {
            assert(trim(list)[0] == list[cut.0]);
        }
    }
}

/// Whether `value` can be read as text: every byte is a tab or lies between the space and the
/// tilde.
pub open spec fn is_text(value: Seq<u8>) -> bool {
    forall|i: int| 0 <= i < value.len() ==> (32 <= #[trigger] value[i] <= 126 || value[i] == 9)
}

/// Whether every byte of `value` from `from` up to `to` is a space or a tab.
pub open spec fn all_blank_bytes(value: Seq<u8>, from: int, to: int) -> bool {
    forall|i: int| from <= i < to ==> (#[trigger] value[i] == 32 || value[i] == 9)
}

/// Whether `client` has the bytes of `value` from `from` up to `to` as its characters, with
/// nothing blank at its ends.
pub open spec fn is_spelled(client: Seq<char>, value: Seq<u8>, from: int, to: int) -> bool {
    &&& 0 <= from <= to <= value.len()
    &&& client.len() == to - from
    &&& forall|i: int|
        0 <= i < client.len() ==> #[trigger] client[i] as int == value[from + i] as int
    &&& has_bare_ends(client)
}

/// A request is counted under the bytes of its first `X-Forwarded-For` up to the first comma,
/// without the spaces and tabs around them, if that is text and not blank.
pub proof fn law_sender_is_first_forwarded_address(
    fields: Map<Seq<char>, Seq<Seq<u8>>>,
    seen: int,
) -> (cut: (int, int, int))
    requires
        fields.contains_key("x-forwarded-for"@),
        is_text(fields["x-forwarded-for"@][0]),
        0 <= seen < fields["x-forwarded-for"@][0].len(),
        fields["x-forwarded-for"@][0][seen] != 32 && fields["x-forwarded-for"@][0][seen] != 9,
    ensures
        ({
            let value = fields["x-forwarded-for"@][0];
            &&& cut.1 <= cut.2 <= value.len()
            &&& is_spelled(sender(fields), value, cut.0, cut.1)
            &&& all_blank_bytes(value, 0, cut.0)
            &&& all_blank_bytes(value, cut.1, cut.2)
            &&& forall|i: int| 0 <= i < cut.2 ==> #[trigger] value[i] != 44
            &&& cut.2 < value.len() ==> value[cut.2] == 44
        }),
{
    let value = fields["x-forwarded-for"@][0];
    law_field_text_is_the_bytes(value);
    let list = field_text(value)->0;
    assert(list[seen] as int == value[seen] as int);
    let cut = law_client_is_first_address(
        list,
        first_text(fields, "x-api-key"@),
        seen,
    );
    lemma_blank_bytes(value, list, 0, cut.0);
    lemma_blank_bytes(value, list, cut.1, cut.2);
    assert forall|i: int| 0 <= i < cut.2 implies #[trigger] value[i] != 44 by {
        assert(list[i] as int == value[i] as int);
    }
    if cut.2 < value.len() {
        assert(list[cut.2] as int == value[cut.2] as int);
    }
    assert forall|i: int| 0 <= i < sender(fields).len() implies #[trigger] sender(fields)[i] as int
        == value[cut.0 + i] as int by {
        assert(list[cut.0 + i] as int == value[cut.0 + i] as int);
    }
    cut
}

/// A request without a text under `X-Forwarded-For`, or with a blank one, is counted under the
/// bytes of its first `X-Api-Key`, without the spaces and tabs around them, if that is text.
pub proof fn law_sender_is_api_key(fields: Map<Seq<char>, Seq<Seq<u8>>>) -> (cut: (int, int))
    requires
        fields.contains_key("x-forwarded-for"@) ==> !is_text(fields["x-forwarded-for"@][0])
            || all_blank_bytes(
            fields["x-forwarded-for"@][0],
            0,
            fields["x-forwarded-for"@][0].len() as int,
        ),
        fields.contains_key("x-api-key"@),
        is_text(fields["x-api-key"@][0]),
    ensures
        is_spelled(sender(fields), fields["x-api-key"@][0], cut.0, cut.1),
        all_blank_bytes(fields["x-api-key"@][0], 0, cut.0),
        all_blank_bytes(
            fields["x-api-key"@][0],
            cut.1,
            fields["x-api-key"@][0].len() as int,
        ),
{
    lemma_no_address(fields);
    let value = fields["x-api-key"@][0];
    law_field_text_is_the_bytes(value);
    let key = field_text(value)->0;
    let cut = law_client_is_whole_key(first_text(fields, "x-forwarded-for"@), key);
    lemma_blank_bytes(value, key, 0, cut.0);
    lemma_blank_bytes(value, key, cut.1, value.len() as int);
    assert forall|i: int| 0 <= i < sender(fields).len() implies #[trigger] sender(fields)[i] as int
        == value[cut.0 + i] as int by {
        assert(key[cut.0 + i] as int == value[cut.0 + i] as int);
    }
    cut
}

/// All other requests are counted together under `unknown`.
pub proof fn law_sender_is_unknown(fields: Map<Seq<char>, Seq<Seq<u8>>>)
    requires
        fields.contains_key("x-forwarded-for"@) ==> !is_text(fields["x-forwarded-for"@][0])
            || all_blank_bytes(
            fields["x-forwarded-for"@][0],
            0,
            fields["x-forwarded-for"@][0].len() as int,
        ),
        fields.contains_key("x-api-key"@) ==> !is_text(fields["x-api-key"@][0]),
    ensures
        sender(fields) == seq!['u', 'n', 'k', 'n', 'o', 'w', 'n'],
{
    lemma_no_address(fields);
    if fields.contains_key("x-api-key"@) {
        law_field_text_is_the_bytes(fields["x-api-key"@][0]);
    }
    law_nameless_client_is_unknown(first_text(fields, "x-forwarded-for"@));
}

/// Blank characters are blank bytes.
proof fn lemma_blank_bytes(value: Seq<u8>, text: Seq<char>, from: int, to: int)
    requires
        0 <= from <= to <= value.len() == text.len(),
        forall|i: int| 0 <= i < value.len() ==> #[trigger] text[i] as int == value[i] as int,
        all_blank(text, from, to),
    ensures
        all_blank_bytes(value, from, to),
{
    assert forall|i: int| from <= i < to implies (#[trigger] value[i] == 32 || value[i] == 9) by {
        assert(text[i] as int == value[i] as int);
    }
}

/// An `X-Forwarded-For` that is no text or blank names no address.
proof fn lemma_no_address(fields: Map<Seq<char>, Seq<Seq<u8>>>)
    requires
        fields.contains_key("x-forwarded-for"@) ==> !is_text(fields["x-forwarded-for"@][0])
            || all_blank_bytes(
            fields["x-forwarded-for"@][0],
            0,
            fields["x-forwarded-for"@][0].len() as int,
        ),
    ensures
        first_text(fields, "x-forwarded-for"@) matches Some(list) ==> all_blank(
            list,
            0,
            list.len() as int,
        ),
{
    if fields.contains_key("x-forwarded-for"@) {
        let value = fields["x-forwarded-for"@][0];
        law_field_text_is_the_bytes(value);
        if let Some(list) = field_text(value) {
            assert forall|i: int| 0 <= i < list.len() implies (#[trigger] list[i] == ' ' || list[i]
                == '\t') by {
                assert(list[i] as int == value[i] as int);
            }
        }
    }
}

} // verus!
