//! JSON text, as far as the gateway writes and reads it: string literals,
//! flat objects, and the documents that pass through.

use vstd::prelude::*;

verus! {

/// The lower-case hexadecimal digit of `n`.
pub open spec fn hex_char(n: int) -> char
    recommends
        0 <= n < 16,
{
    seq!['0', '1', '2', '3', '4', '5', '6', '7', '8', '9', 'a', 'b', 'c', 'd', 'e', 'f'][n]
}

/// What one character of a text becomes inside a JSON string literal: the
/// quotation mark, the reverse solidus and the control characters are
/// escaped, the two-character escapes taken where JSON has one; every other
/// character stands for itself.
pub open spec fn escape_char(c: char) -> Seq<char> {
    if c == '"' {
        seq!['\\', '"']
    } else if c == '\\' {
        seq!['\\', '\\']
    } else if c == '\u{8}' {
        seq!['\\', 'b']
    } else if c == '\u{c}' {
        seq!['\\', 'f']
    } else if c == '\n' {
        seq!['\\', 'n']
    } else if c == '\r' {
        seq!['\\', 'r']
    } else if c == '\t' {
        seq!['\\', 't']
    } else if (c as u32) < 0x20 {
        seq!['\\', 'u', '0', '0', hex_char((c as u32 / 16) as int), hex_char((c as u32 % 16) as int)]
    } else {
        seq![c]
    }
}

/// The characters of `text`, each escaped, in order.
pub open spec fn escape(text: Seq<char>) -> Seq<char>
    decreases text.len(),
{
    if text.len() == 0 {
        Seq::empty()
    } else {
        escape(text.drop_last()) + escape_char(text.last())
    }
}

/// The JSON string literal that denotes `text`.
pub open spec fn string_literal(text: Seq<char>) -> Seq<char> {
    seq!['"'] + escape(text) + seq!['"']
}

/// Whether `c` is a hexadecimal digit, in either case.
pub open spec fn is_hex(c: char) -> bool {
    ('0' <= c && c <= '9') || ('a' <= c && c <= 'f') || ('A' <= c && c <= 'F')
}

/// Whether `c` may follow a reverse solidus to make a two-character escape.
pub open spec fn is_short_escape(c: char) -> bool {
    c == '"' || c == '\\' || c == '/' || c == 'b' || c == 'f' || c == 'n' || c == 'r' || c == 't'
}

/// The length of the item that `t` starts with, as the JSON grammar reads
/// the inside of a string literal: an unescaped character, a two-character
/// escape, or `\u` with four hexadecimal digits. It is 0 where `t` starts
/// with none of them.
pub open spec fn item_len(t: Seq<char>) -> int {
    if t.len() == 0 {
        0
    } else if t[0] == '\\' {
        if t.len() >= 2 && is_short_escape(t[1]) {
            2
        } else if t.len() >= 6 && t[1] == 'u' && is_hex(t[2]) && is_hex(t[3]) && is_hex(t[4])
            && is_hex(t[5]) {
            6
        } else {
            0
        }
    } else if t[0] == '"' || (t[0] as u32) < 0x20 {
        0
    } else {
        1
    }
}

/// Whether `t` is a run of such items and nothing else.
pub open spec fn is_string_body(t: Seq<char>) -> bool
    decreases t.len(),
{
    t.len() == 0 || (item_len(t) > 0 && is_string_body(t.skip(item_len(t))))
}

/// Whether `t` is a JSON string literal: a string body between quotation marks.
pub open spec fn is_string_literal(t: Seq<char>) -> bool {
    t.len() >= 2 && t[0] == '"' && t.last() == '"' && is_string_body(t.subrange(1, t.len() - 1))
}

/// Two string bodies, one after the other, make a string body.
pub proof fn lemma_string_body_concat(a: Seq<char>, b: Seq<char>)
    requires
        is_string_body(a),
        is_string_body(b),
    ensures
        is_string_body(a + b),
    decreases a.len(),
{
    if a.len() == 0 {
        assert(a + b =~= b);
    } else {
        let n = item_len(a);
        assert(item_len(a + b) == n);
        assert((a + b).skip(n) =~= a.skip(n) + b);
        lemma_string_body_concat(a.skip(n), b);
    }
}

/// The escaped form of one character is a string body.
pub proof fn lemma_escape_char_is_string_body(c: char)
    ensures
        is_string_body(escape_char(c)),
{
    let e = escape_char(c);
    let n = item_len(e);
    assert(n == e.len());
    assert(e.skip(n).len() == 0);
    assert(is_string_body(e.skip(n)));
}

/// The escaped form of a text is a string body.
pub proof fn lemma_escape_is_string_body(text: Seq<char>)
    ensures
        is_string_body(escape(text)),
    decreases text.len(),
{
    if text.len() > 0 {
        lemma_escape_is_string_body(text.drop_last());
        lemma_escape_char_is_string_body(text.last());
        lemma_string_body_concat(escape(text.drop_last()), escape_char(text.last()));
    }
}

/// Whatever the text, the literal written for it is a JSON string literal.
pub proof fn lemma_string_literal_is_well_formed(text: Seq<char>)
    ensures
        is_string_literal(string_literal(text)),
{
    let t = string_literal(text);
    lemma_escape_is_string_body(text);
    assert(t.subrange(1, t.len() - 1) =~= escape(text));
}

/// The number that a hexadecimal digit stands for.
pub open spec fn hex_value(c: char) -> int
    recommends
        is_hex(c),
{
    if '0' <= c && c <= '9' {
        c as int - '0' as int
    } else if 'a' <= c && c <= 'f' {
        c as int - 'a' as int + 10
    } else {
        c as int - 'A' as int + 10
    }
}

/// The code that the item at the start of `t` denotes: for an unescaped
/// character its own code, for an escape the code that JSON gives it.
pub open spec fn item_code(t: Seq<char>) -> int
    recommends
        item_len(t) > 0,
{
    if t[0] != '\\' {
        t[0] as int
    } else if t[1] == 'b' {
        0x08
    } else if t[1] == 'f' {
        0x0c
    } else if t[1] == 'n' {
        0x0a
    } else if t[1] == 'r' {
        0x0d
    } else if t[1] == 't' {
        0x09
    } else if t[1] == 'u' {
        hex_value(t[2]) * 4096 + hex_value(t[3]) * 256 + hex_value(t[4]) * 16 + hex_value(t[5])
    } else {
        t[1] as int
    }
}

/// The text that a string body denotes, read item by item. A `\u` escape in
/// the surrogate range denotes no character by itself, and a body that holds
/// one is not read here; nor is a text that is no string body.
pub open spec fn denoted(t: Seq<char>) -> Option<Seq<char>>
    decreases t.len(),
{
    if t.len() == 0 {
        Some(Seq::empty())
    } else if item_len(t) <= 0 || (0xD800 <= item_code(t) && item_code(t) <= 0xDFFF) {
        None
    } else {
        match denoted(t.skip(item_len(t))) {
            Some(rest) => Some(seq![item_code(t) as char] + rest),
            None => None,
        }
    }
}

/// The escaped form of one character, followed by a string body, denotes
/// that character followed by what the body denotes.
pub proof fn lemma_escape_char_denotes(c: char, rest: Seq<char>)
    ensures
        denoted(escape_char(c) + rest) == match denoted(rest) {
            Some(text) => Some(seq![c] + text),
            None => None,
        },
{
    let e = escape_char(c);
    let t = e + rest;
    assert(item_len(t) == e.len());
    assert(t.skip(item_len(t)) =~= rest);
    assert(item_code(t) == c as int) by {
        if c != '"' && c != '\\' && (c as u32) < 0x20 && c != '\u{8}' && c != '\u{c}' && c != '\n'
            && c != '\r' && c != '\t' {
            let hi = (c as u32 / 16) as int;
            let lo = (c as u32 % 16) as int;
            assert(t[2] == '0' && t[3] == '0');
            assert(t[4] == hex_char(hi) && t[5] == hex_char(lo));
            assert(hex_value(hex_char(hi)) == hi);
            assert(hex_value(hex_char(lo)) == lo);
        }
    }
}

/// Escaping loses nothing: the escaped form of a text, followed by a string
/// body, denotes the text followed by what the body denotes.
pub proof fn lemma_escape_denotes_before(text: Seq<char>, rest: Seq<char>)
    ensures
        denoted(escape(text) + rest) == match denoted(rest) {
            Some(more) => Some(text + more),
            None => None,
        },
    decreases text.len(),
{
    if text.len() == 0 {
        assert(escape(text) + rest =~= rest);
        match denoted(rest) {
            Some(more) => {
                assert(text + more =~= more);
            },
            None => {},
        }
    } else {
        let front = text.drop_last();
        let last = escape_char(text.last());
        assert(escape(text) + rest =~= escape(front) + (last + rest));
        lemma_escape_char_denotes(text.last(), rest);
        lemma_escape_denotes_before(front, last + rest);
        match denoted(rest) {
            Some(more) => {
                assert(front + (seq![text.last()] + more) =~= text + more);
            },
            None => {},
        }
    }
}

/// The escaped form of a text denotes that text.
pub proof fn lemma_escape_denotes(text: Seq<char>)
    ensures
        denoted(escape(text)) == Some(text),
{
    lemma_escape_denotes_before(text, Seq::empty());
    assert(escape(text) + Seq::<char>::empty() =~= escape(text));
    assert(text + Seq::<char>::empty() =~= text);
}

/// The text that a JSON string literal denotes, where `t` is one and
/// `denoted` reads it.
pub open spec fn literal_text(t: Seq<char>) -> Option<Seq<char>> {
    if t.len() >= 2 && t[0] == '"' && t.last() == '"' {
        denoted(t.subrange(1, t.len() - 1))
    } else {
        None
    }
}

/// The literal written for a text denotes that text, whatever the text
/// holds.
pub proof fn lemma_string_literal_denotes(text: Seq<char>)
    ensures
        literal_text(string_literal(text)) == Some(text),
{
    let t = string_literal(text);
    lemma_escape_denotes(text);
    assert(t.subrange(1, t.len() - 1) =~= escape(text));
}

/// Whether `t` is a JSON number literal of the plainest kind: decimal digits
/// without sign, fraction or exponent, and without a leading zero.
pub open spec fn is_number_literal(t: Seq<char>) -> bool {
    &&& t.len() >= 1
    &&& forall|i: int| 0 <= i < t.len() ==> '0' <= #[trigger] t[i] && t[i] <= '9'
    &&& t.len() == 1 || t[0] != '0'
}

/// Whether `t` is a JSON string literal or such a number literal.
pub open spec fn is_scalar_literal(t: Seq<char>) -> bool {
    is_string_literal(t) || is_number_literal(t)
}

/// The text of one member of an object: the literal of its name, a colon,
/// and the text of its value.
pub open spec fn member_text(member: (Seq<char>, Seq<char>)) -> Seq<char> {
    string_literal(member.0) + seq![':'] + member.1
}

/// The texts of the members, in order, with a comma between neighbours.
pub open spec fn members_text(members: Seq<(Seq<char>, Seq<char>)>) -> Seq<char>
    decreases members.len(),
{
    if members.len() == 0 {
        Seq::empty()
    } else if members.len() == 1 {
        member_text(members[0])
    } else {
        members_text(members.drop_last()) + seq![','] + member_text(members.last())
    }
}

/// The compact text of the object with these members, each a name and the
/// text of its value.
pub open spec fn object_text(members: Seq<(Seq<char>, Seq<char>)>) -> Seq<char> {
    seq!['{'] + members_text(members) + seq!['}']
}

/// Whether `t` is the compact text of a JSON object all of whose values are
/// scalar literals, and `members` are its members in order.
pub open spec fn is_flat_object(t: Seq<char>, members: Seq<(Seq<char>, Seq<char>)>) -> bool {
    &&& t == object_text(members)
    &&& forall|i: int| 0 <= i < members.len() ==> is_scalar_literal(#[trigger] members[i].1)
}

/// A text without quotation marks, reverse solidi and control characters is
/// escaped to itself.
pub proof fn lemma_escape_plain(text: Seq<char>)
    requires
        forall|i: int|
            0 <= i < text.len() ==> #[trigger] text[i] != '"' && text[i] != '\\' && text[i] as u32
                >= 0x20,
    ensures
        escape(text) == text,
    decreases text.len(),
{
    if text.len() > 0 {
        lemma_escape_plain(text.drop_last());
        assert(escape_char(text.last()) =~= seq![text.last()]);
        assert(text.drop_last() + seq![text.last()] =~= text);
    }
}

fn hex_digit(n: u32) -> (c: char)
    requires
        n < 16,
    ensures
        c == hex_char(n as int),
{
    match n {
        0 => '0',
        1 => '1',
        2 => '2',
        3 => '3',
        4 => '4',
        5 => '5',
        6 => '6',
        7 => '7',
        8 => '8',
        9 => '9',
        10 => 'a',
        11 => 'b',
        12 => 'c',
        13 => 'd',
        14 => 'e',
        _ => 'f',
    }
}

/// The compact JSON text of the document that `bytes` hold: what the JSON
/// encoder writes for the value that the JSON decoder reads from them. It is
/// nothing where `bytes` hold no JSON document.
pub uninterp spec fn json_document(bytes: Seq<u8>) -> Option<Seq<char>>;

/// `serde_json::from_slice`, to a `serde_json::Value`, with the value handed
/// back as the text that `serde_json::to_string` writes for it. The contract
/// claims that this text depends on `bytes` alone, and gives it a name; it
/// says nothing of what the text holds. Nothing comes back where the decoder
/// rejects `bytes` (the encoder rejects no value that the decoder made).
#[verifier::external_body]
pub(crate) fn reencode(bytes: &[u8]) -> (document: Option<String>)
    ensures
        match document {
            Some(text) => json_document(bytes@) == Some(text@),
            None => json_document(bytes@) is None,
        },
{
    match serde_json::from_slice::<serde_json::Value>(bytes) {
        Ok(value) => serde_json::to_string(&value).ok(),
        Err(_) => None,
    }
}

/// Appends the escaped form of `c` to `buffer`.
fn push_escaped(buffer: &mut String, c: char)
    ensures
        final(buffer)@ == old(buffer)@ + escape_char(c),
{
    let code: u32 = c as u32;
    if c == '"' {
        buffer.push('\\');
        buffer.push('"');
    } else if c == '\\' {
        buffer.push('\\');
        buffer.push('\\');
    } else if c == '\u{8}' {
        buffer.push('\\');
        buffer.push('b');
    } else if c == '\u{c}' {
        buffer.push('\\');
        buffer.push('f');
    } else if c == '\n' {
        buffer.push('\\');
        buffer.push('n');
    } else if c == '\r' {
        buffer.push('\\');
        buffer.push('r');
    } else if c == '\t' {
        buffer.push('\\');
        buffer.push('t');
    } else if code < 0x20 {
        buffer.push('\\');
        buffer.push('u');
        buffer.push('0');
        buffer.push('0');
        buffer.push(hex_digit(code / 16));
        buffer.push(hex_digit(code % 16));
    } else {
        buffer.push(c);
    }
    assert(buffer@ =~= old(buffer)@ + escape_char(c));
}

/// Appends to `buffer` the JSON string literal that denotes `text`.
pub fn push_string_literal(buffer: &mut String, text: &str)
    ensures
        final(buffer)@ == old(buffer)@ + string_literal(text@),
{
    buffer.push('"');
    for c in it: text.chars()
        invariant
            it.seq() == text@,
            buffer@ == old(buffer)@ + seq!['"'] + escape(text@.take(it.index())),
    {
        assert(text@.take(it.index() + 1).drop_last() =~= text@.take(it.index()));
        push_escaped(buffer, c);
    }
    assert(text@.take(text@.len() as int) =~= text@);
    buffer.push('"');
    assert(buffer@ =~= old(buffer)@ + string_literal(text@));
}

/// The JSON string literal that denotes `text`.
pub fn quote(text: &str) -> (literal: String)
    ensures
        literal@ == string_literal(text@),
{
    let mut literal = String::new();
    push_string_literal(&mut literal, text);
    assert(literal@ =~= string_literal(text@));
    literal
}

} // verus!
