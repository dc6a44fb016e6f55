//! The `application/x-www-form-urlencoded` syntax of a URL's query: how a
//! byte string is written into a query, and how a query is read back as
//! name/value pairs.

use vstd::prelude::*;

verus! {

/// Bytes that are written into a query as they stand: the ASCII letters and
/// digits and `*`, `-`, `.`, `_`.
pub open spec fn is_plain(b: u8) -> bool {
    ||| b == 0x2a
    ||| b == 0x2d
    ||| b == 0x2e
    ||| b == 0x5f
    ||| 0x30 <= b <= 0x39
    ||| 0x41 <= b <= 0x5a
    ||| 0x61 <= b <= 0x7a
}

/// The upper-case hexadecimal digit for `n`, where `n < 16`.
pub open spec fn hex_digit(n: u8) -> char {
    if n < 10 {
        ((0x30 + n) as u8) as char
    } else {
        ((0x37 + n) as u8) as char
    }
}

/// The value of a hexadecimal digit of either case; `None` for any other
/// character.
pub open spec fn hex_value(c: char) -> Option<u8> {
    if '0' <= c <= '9' {
        Some((c as u8 - 0x30) as u8)
    } else if 'A' <= c <= 'F' {
        Some((c as u8 - 0x37) as u8)
    } else if 'a' <= c <= 'f' {
        Some((c as u8 - 0x57) as u8)
    } else {
        None
    }
}

/// How one byte is written: a plain byte as itself, a space as `+`, any other
/// byte as `%` and its two hexadecimal digits.
pub open spec fn encoded_byte(b: u8) -> Seq<char> {
    if is_plain(b) {
        seq![b as char]
    } else if b == 0x20 {
        seq!['+']
    } else {
        seq!['%', hex_digit(b / 16), hex_digit(b % 16)]
    }
}

/// How a byte string is written: byte by byte, in order.
pub open spec fn encoded(bytes: Seq<u8>) -> Seq<char>
    decreases bytes.len(),
{
    if bytes.len() == 0 {
        Seq::empty()
    } else {
        encoded_byte(bytes[0]) + encoded(bytes.skip(1))
    }
}

/// The byte string that a written text stands for: `+` is a space, `%` with
/// two hexadecimal digits behind it is the byte of that value, and any other
/// character stands for its own UTF-8 bytes.
pub open spec fn decoded(text: Seq<char>) -> Seq<u8>
    decreases text.len(),
{
    if text.len() == 0 {
        Seq::empty()
    } else if text[0] == '+' {
        seq![0x20u8] + decoded(text.skip(1))
    } else if text[0] == '%' && text.len() >= 3 && hex_value(text[1]) is Some && hex_value(
        text[2],
    ) is Some {
        seq![(hex_value(text[1])->0 * 16 + hex_value(text[2])->0) as u8] + decoded(text.skip(3))
    } else {
        vstd::utf8::encode_utf8(seq![text[0]]) + decoded(text.skip(1))
    }
}

/// Characters that stand for a plain byte.
pub open spec fn is_plain_char(c: char) -> bool {
    ||| c == '*'
    ||| c == '-'
    ||| c == '.'
    ||| c == '_'
    ||| '0' <= c <= '9'
    ||| 'A' <= c <= 'Z'
    ||| 'a' <= c <= 'z'
}

/// Characters that a written byte string is made of.
pub open spec fn is_written(c: char) -> bool {
    ||| c == '+'
    ||| c == '%'
    ||| is_plain_char(c)
}

/// A byte that is written and read again is the same byte, whatever text
/// follows it.
pub proof fn lemma_decoded_byte(b: u8, rest: Seq<char>)
    ensures
        decoded(encoded_byte(b) + rest) == seq![b] + decoded(rest),
{
    let text = encoded_byte(b) + rest;
    if is_plain(b) {
        let c = b as char;
        assert(text[0] == c);
        assert(text.skip(1) =~= rest);
        assert(vstd::utf8::is_ascii_chars(seq![c]));
        vstd::utf8::is_ascii_chars_encode_utf8(seq![c]);
        assert(vstd::utf8::encode_utf8(seq![c]) =~= seq![b]);
    } else if b == 0x20 {
        assert(text.skip(1) =~= rest);
    } else {
        assert(text[0] == '%');
        assert(text[1] == hex_digit(b / 16));
        assert(text[2] == hex_digit(b % 16));
        assert(hex_value(hex_digit(b / 16)) == Some(b / 16));
        assert(hex_value(hex_digit(b % 16)) == Some(b % 16));
        assert(text.skip(3) =~= rest);
    }
}

/// Reading undoes writing: every byte string comes back as it was.
pub proof fn lemma_decoded_encoded(bytes: Seq<u8>)
    ensures
        decoded(encoded(bytes)) == bytes,
    decreases bytes.len(),
{
    if bytes.len() > 0 {
        lemma_decoded_byte(bytes[0], encoded(bytes.skip(1)));
        lemma_decoded_encoded(bytes.skip(1));
        assert(seq![bytes[0]] + bytes.skip(1) =~= bytes);
    }
}

/// A written byte string holds none of the characters that divide a URL or
/// its query: no `&`, `=`, `?` or `#`.
pub proof fn lemma_encoded_is_written(bytes: Seq<u8>)
    ensures
        forall|i: int| 0 <= i < encoded(bytes).len() ==> is_written(#[trigger] encoded(bytes)[i]),
    decreases bytes.len(),
{
    if bytes.len() > 0 {
        lemma_encoded_is_written(bytes.skip(1));
        let first = encoded_byte(bytes[0]);
        let rest = encoded(bytes.skip(1));
        assert forall|i: int| 0 <= i < first.len() implies is_written(#[trigger] first[i]) by {}
        assert forall|i: int| 0 <= i < encoded(bytes).len() implies is_written(
            #[trigger] encoded(bytes)[i],
        ) by {
            if i < first.len() {
                assert(encoded(bytes)[i] == first[i]);
            } else {
                assert(encoded(bytes)[i] == rest[i - first.len()]);
            }
        }
    }
}

/// A name and its value as they are written into a query: both as UTF-8,
/// with `=` between them.
pub open spec fn pair_text(name: Seq<char>, value: Seq<char>) -> Seq<char> {
    encoded(vstd::utf8::encode_utf8(name)) + seq!['='] + encoded(vstd::utf8::encode_utf8(value))
}

/// Where `c` stands first in `s`; the length of `s` where it does not occur.
pub open spec fn position(s: Seq<char>, c: char) -> int
    decreases s.len(),
{
    if s.len() == 0 {
        0
    } else if s[0] == c {
        0
    } else {
        1 + position(s.skip(1), c)
    }
}

/// The name and the value that one piece of a query stands for: the piece is
/// divided at its first `=`, and one without `=` is a name with an empty value.
pub open spec fn pair_of(piece: Seq<char>) -> (Seq<u8>, Seq<u8>) {
    let i = position(piece, '=');
    if 0 <= i < piece.len() {
        (decoded(piece.take(i)), decoded(piece.skip(i + 1)))
    } else {
        (decoded(piece), Seq::empty())
    }
}

/// The pair of one piece, and nothing for an empty piece.
pub open spec fn pairs_of_piece(piece: Seq<char>) -> Seq<(Seq<u8>, Seq<u8>)> {
    if piece.len() == 0 {
        Seq::empty()
    } else {
        seq![pair_of(piece)]
    }
}

/// The name/value pairs that a query stands for, in order: the query is
/// divided at each `&`, and empty pieces are passed over.
pub open spec fn pairs(query: Seq<char>) -> Seq<(Seq<u8>, Seq<u8>)>
    decreases query.len(),
{
    let i = position(query, '&');
    if 0 <= i < query.len() {
        pairs_of_piece(query.take(i)) + pairs(query.skip(i + 1))
    } else {
        pairs_of_piece(query)
    }
}

/// The query of a URL given as text: what stands behind the first `?`, up to
/// the first `#` of the text; `None` where no `?` stands before that `#`.
pub open spec fn query_of(url: Seq<char>) -> Option<Seq<char>> {
    let end = position(url, '#');
    let before = if 0 <= end < url.len() {
        url.take(end)
    } else {
        url
    };
    let start = position(before, '?');
    if 0 <= start < before.len() {
        Some(before.skip(start + 1))
    } else {
        None
    }
}

/// `c` does not occur in `s`.
pub open spec fn is_free_of(s: Seq<char>, c: char) -> bool {
    forall|i: int| 0 <= i < s.len() ==> #[trigger] s[i] != c
}

/// In a text without `c` the position of `c` is the text's length.
pub proof fn lemma_position_absent(s: Seq<char>, c: char)
    requires
        is_free_of(s, c),
    ensures
        position(s, c) == s.len(),
    decreases s.len(),
{
    if s.len() > 0 {
        assert(s[0] != c);
        assert forall|i: int| 0 <= i < s.skip(1).len() implies #[trigger] s.skip(1)[i] != c by {
            assert(s.skip(1)[i] == s[i + 1]);
        }
        lemma_position_absent(s.skip(1), c);
    }
}

/// Behind a text without `c`, the first `c` is found where that text ends.
pub proof fn lemma_position_after(before: Seq<char>, c: char, behind: Seq<char>)
    requires
        is_free_of(before, c),
    ensures
        position(before + seq![c] + behind, c) == before.len(),
    decreases before.len(),
{
    let s = before + seq![c] + behind;
    if before.len() == 0 {
        assert(s[0] == c);
    } else {
        assert(s[0] == before[0]);
        assert(before[0] != c);
        assert forall|i: int| 0 <= i < before.skip(1).len() implies #[trigger] before.skip(1)[i]
            != c by {
            assert(before.skip(1)[i] == before[i + 1]);
        }
        assert(s.skip(1) =~= before.skip(1) + seq![c] + behind);
        lemma_position_after(before.skip(1), c, behind);
    }
}

/// A written byte string is free of each of `&`, `=`, `?` and `#`.
pub proof fn lemma_encoded_is_free(bytes: Seq<u8>)
    ensures
        is_free_of(encoded(bytes), '&'),
        is_free_of(encoded(bytes), '='),
        is_free_of(encoded(bytes), '?'),
        is_free_of(encoded(bytes), '#'),
{
    lemma_encoded_is_written(bytes);
    assert forall|i: int| 0 <= i < encoded(bytes).len() implies {
        &&& #[trigger] encoded(bytes)[i] != '&'
        &&& encoded(bytes)[i] != '='
        &&& encoded(bytes)[i] != '?'
        &&& encoded(bytes)[i] != '#'
    } by {
        assert(is_written(encoded(bytes)[i]));
    }
}

/// A written pair is read back as the name and the value it was made of.
pub proof fn lemma_pair_of_pair_text(name: Seq<char>, value: Seq<char>)
    ensures
        pair_of(pair_text(name, value)) == (
            vstd::utf8::encode_utf8(name),
            vstd::utf8::encode_utf8(value),
        ),
        pair_text(name, value).len() > 0,
        is_free_of(pair_text(name, value), '&'),
        is_free_of(pair_text(name, value), '?'),
        is_free_of(pair_text(name, value), '#'),
{
    let n = encoded(vstd::utf8::encode_utf8(name));
    let v = encoded(vstd::utf8::encode_utf8(value));
    let piece = pair_text(name, value);
    lemma_encoded_is_free(vstd::utf8::encode_utf8(name));
    lemma_encoded_is_free(vstd::utf8::encode_utf8(value));
    lemma_position_after(n, '=', v);
    assert(piece.take(n.len() as int) =~= n);
    assert(piece.skip(n.len() as int + 1) =~= v);
    lemma_decoded_encoded(vstd::utf8::encode_utf8(name));
    lemma_decoded_encoded(vstd::utf8::encode_utf8(value));
    assert forall|i: int| 0 <= i < piece.len() implies {
        &&& #[trigger] piece[i] != '&'
        &&& piece[i] != '?'
        &&& piece[i] != '#'
    } by {
        if i < n.len() {
            assert(piece[i] == n[i]);
        } else if i > n.len() {
            assert(piece[i] == v[i - n.len() - 1]);
        }
    }
}

/// A query that is one piece without `&` stands for that piece's pair.
pub proof fn lemma_pairs_single(piece: Seq<char>)
    requires
        is_free_of(piece, '&'),
    ensures
        pairs(piece) == pairs_of_piece(piece),
{
    lemma_position_absent(piece, '&');
}

/// The pairs of a piece without `&`, then `&`, then a further query, are the
/// piece's pair followed by the pairs of that query.
pub proof fn lemma_pairs_joined(piece: Seq<char>, behind: Seq<char>)
    requires
        is_free_of(piece, '&'),
    ensures
        pairs(piece + seq!['&'] + behind) == pairs_of_piece(piece) + pairs(behind),
{
    let query = piece + seq!['&'] + behind;
    lemma_position_after(piece, '&', behind);
    assert(query.take(piece.len() as int) =~= piece);
    assert(query.skip(piece.len() as int + 1) =~= behind);
}

/// A text of plain ASCII characters alone.
pub open spec fn is_plain_text(text: Seq<char>) -> bool {
    forall|i: int| 0 <= i < text.len() ==> is_plain_char(#[trigger] text[i])
}

/// Plain bytes are written as the characters they are.
pub proof fn lemma_encoded_plain(bytes: Seq<u8>)
    requires
        forall|i: int| 0 <= i < bytes.len() ==> is_plain(#[trigger] bytes[i]),
    ensures
        encoded(bytes).len() == bytes.len(),
        forall|i: int| 0 <= i < bytes.len() ==> #[trigger] encoded(bytes)[i] == bytes[i] as char,
    decreases bytes.len(),
{
    if bytes.len() > 0 {
        let rest = bytes.skip(1);
        assert forall|i: int| 0 <= i < rest.len() implies is_plain(#[trigger] rest[i]) by {
            assert(rest[i] == bytes[i + 1]);
        }
        lemma_encoded_plain(rest);
        assert(is_plain(bytes[0]));
        assert forall|i: int| 0 <= i < bytes.len() implies #[trigger] encoded(bytes)[i]
            == bytes[i] as char by {
            if i > 0 {
                assert(encoded(bytes)[i] == encoded(rest)[i - 1]);
                assert(rest[i - 1] == bytes[i]);
            }
        }
    }
}

/// A plain text is written into a query as it stands.
pub proof fn lemma_plain_text_unchanged(text: Seq<char>)
    requires
        is_plain_text(text),
    ensures
        encoded(vstd::utf8::encode_utf8(text)) == text,
{
    let bytes = vstd::utf8::encode_utf8(text);
    assert(vstd::utf8::is_ascii_chars(text)) by {
        assert forall|i: int| 0 <= i < text.len() implies '\0' <= #[trigger] text[i] <= '\u{7f}' by {
            assert(is_plain_char(text[i]));
        }
    }
    vstd::utf8::is_ascii_chars_encode_utf8(text);
    assert forall|i: int| 0 <= i < bytes.len() implies is_plain(#[trigger] bytes[i]) by {
        assert(is_plain_char(text[i]));
        assert(text[i] as u8 == bytes[i]);
    }
    lemma_encoded_plain(bytes);
    assert forall|i: int| 0 <= i < text.len() implies encoded(bytes)[i] == text[i] by {
        assert(is_plain_char(text[i]));
        assert(text[i] as u8 == bytes[i]);
    }
    assert(encoded(bytes) =~= text);
}

} // verus!
