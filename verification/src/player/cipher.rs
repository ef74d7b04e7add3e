//! The cipher that hides provider paths in episode source records.

use vstd::prelude::*;
use vstd::utf8::is_char_boundary;
use vstd::string::StringSliceAdditionalSpecFns;
use crate::text;

verus! {

// ── Provider path cipher ─────────────────────────────────────────────────────

/// The value of a lower-case hexadecimal digit byte.
pub open spec fn lower_hex_value(b: u8) -> Option<u8> {
    if 48 <= b && b <= 57 {
        Some((b - 48) as u8)
    } else if 97 <= b && b <= 102 {
        Some((b - 97 + 10) as u8)
    } else {
        None
    }
}

/// Characters that may appear in a deciphered provider path.
pub open spec fn url_path_char(c: char) -> bool {
    ('A' <= c && c <= 'Z') || ('a' <= c && c <= 'z') || ('0' <= c && c <= '9') || c == '-'
        || c == '.' || c == '_' || c == '~' || c == ':' || c == '/' || c == '?' || c == '#' || c
        == '[' || c == ']' || c == '@' || c == '!' || c == '$' || c == '&' || c == '(' || c == ')'
        || c == '*' || c == '+' || c == ',' || c == ';' || c == '=' || c == '%'
}

/// A pair of lower-case hex digits stands for the byte they spell, XORed with
/// 0x38; the pair yields that character when it is a path character, and
/// nothing otherwise.
pub open spec fn pair_char(b1: u8, b2: u8) -> Option<char> {
    match (lower_hex_value(b1), lower_hex_value(b2)) {
        (Some(h), Some(l)) => {
            let c = ((h * 16 + l) as u8 ^ 0x38u8) as char;
            if url_path_char(c) {
                Some(c)
            } else {
                None
            }
        },
        _ => None,
    }
}

/// The characters that the successive two-byte pairs of `b` yield; a final
/// odd byte is dropped.
pub open spec fn decode_pairs(b: Seq<u8>) -> Seq<char>
    decreases b.len(),
{
    if b.len() < 2 {
        Seq::empty()
    } else {
        (match pair_char(b[0], b[1]) {
            Some(c) => seq![c],
            None => Seq::<char>::empty(),
        }) + decode_pairs(b.skip(2))
    }
}

/// A provider path as the cipher decodes it, with `/clock` rewritten to the
/// JSON endpoint `/clock.json`.
pub open spec fn deciphered_path(b: Seq<u8>) -> Seq<char> {
    text::replace(decode_pairs(b), "/clock"@, "/clock.json"@)
}

/// Every pair of `s`'s bytes starts and ends on a character boundary, so that
/// it can be cut out of the string.
pub open spec fn pairs_on_boundaries(b: Seq<u8>) -> bool {
    forall|i: int|
        0 <= i < b.len() && i % 2 == 0 ==> #[trigger] is_char_boundary(b, i) && is_char_boundary(
            b,
            if i + 2 <= b.len() {
                i + 2
            } else {
                b.len() as int
            },
        )
}

proof fn lemma_xor38(v: u8)
    ensures
        (v ^ 0x38u8) as int == v + (7 - 2 * ((v / 8) % 8)) * 8,
{
    assert((v ^ 0x38u8) as int == v + (7 - 2 * ((v / 8) % 8)) * 8) by (bit_vector);
}

/// The character a byte pair stands for, by table.
fn pair_char_exec(b1: u8, b2: u8) -> (r: Option<char>)
    ensures
        r == pair_char(b1, b2),
{
    let r = match (b1, b2) {
        (0x37, 0x39) => Some('A'),  // "79"
        (0x37, 0x61) => Some('B'),  // "7a"
        (0x37, 0x62) => Some('C'),  // "7b"
        (0x37, 0x63) => Some('D'),  // "7c"
        (0x37, 0x64) => Some('E'),  // "7d"
        (0x37, 0x65) => Some('F'),  // "7e"
        (0x37, 0x66) => Some('G'),  // "7f"
        (0x37, 0x30) => Some('H'),  // "70"
        (0x37, 0x31) => Some('I'),  // "71"
        (0x37, 0x32) => Some('J'),  // "72"
        (0x37, 0x33) => Some('K'),  // "73"
        (0x37, 0x34) => Some('L'),  // "74"
        (0x37, 0x35) => Some('M'),  // "75"
        (0x37, 0x36) => Some('N'),  // "76"
        (0x37, 0x37) => Some('O'),  // "77"
        (0x36, 0x38) => Some('P'),  // "68"
        (0x36, 0x39) => Some('Q'),  // "69"
        (0x36, 0x61) => Some('R'),  // "6a"
        (0x36, 0x62) => Some('S'),  // "6b"
        (0x36, 0x63) => Some('T'),  // "6c"
        (0x36, 0x64) => Some('U'),  // "6d"
        (0x36, 0x65) => Some('V'),  // "6e"
        (0x36, 0x66) => Some('W'),  // "6f"
        (0x36, 0x30) => Some('X'),  // "60"
        (0x36, 0x31) => Some('Y'),  // "61"
        (0x36, 0x32) => Some('Z'),  // "62"
        (0x35, 0x39) => Some('a'),  // "59"
        (0x35, 0x61) => Some('b'),  // "5a"
        (0x35, 0x62) => Some('c'),  // "5b"
        (0x35, 0x63) => Some('d'),  // "5c"
        (0x35, 0x64) => Some('e'),  // "5d"
        (0x35, 0x65) => Some('f'),  // "5e"
        (0x35, 0x66) => Some('g'),  // "5f"
        (0x35, 0x30) => Some('h'),  // "50"
        (0x35, 0x31) => Some('i'),  // "51"
        (0x35, 0x32) => Some('j'),  // "52"
        (0x35, 0x33) => Some('k'),  // "53"
        (0x35, 0x34) => Some('l'),  // "54"
        (0x35, 0x35) => Some('m'),  // "55"
        (0x35, 0x36) => Some('n'),  // "56"
        (0x35, 0x37) => Some('o'),  // "57"
        (0x34, 0x38) => Some('p'),  // "48"
        (0x34, 0x39) => Some('q'),  // "49"
        (0x34, 0x61) => Some('r'),  // "4a"
        (0x34, 0x62) => Some('s'),  // "4b"
        (0x34, 0x63) => Some('t'),  // "4c"
        (0x34, 0x64) => Some('u'),  // "4d"
        (0x34, 0x65) => Some('v'),  // "4e"
        (0x34, 0x66) => Some('w'),  // "4f"
        (0x34, 0x30) => Some('x'),  // "40"
        (0x34, 0x31) => Some('y'),  // "41"
        (0x34, 0x32) => Some('z'),  // "42"
        (0x30, 0x38) => Some('0'),  // "08"
        (0x30, 0x39) => Some('1'),  // "09"
        (0x30, 0x61) => Some('2'),  // "0a"
        (0x30, 0x62) => Some('3'),  // "0b"
        (0x30, 0x63) => Some('4'),  // "0c"
        (0x30, 0x64) => Some('5'),  // "0d"
        (0x30, 0x65) => Some('6'),  // "0e"
        (0x30, 0x66) => Some('7'),  // "0f"
        (0x30, 0x30) => Some('8'),  // "00"
        (0x30, 0x31) => Some('9'),  // "01"
        (0x31, 0x35) => Some('-'),  // "15"
        (0x31, 0x36) => Some('.'),  // "16"
        (0x36, 0x37) => Some('_'),  // "67"
        (0x34, 0x36) => Some('~'),  // "46"
        (0x30, 0x32) => Some(':'),  // "02"
        (0x31, 0x37) => Some('/'),  // "17"
        (0x30, 0x37) => Some('?'),  // "07"
        (0x31, 0x62) => Some('#'),  // "1b"
        (0x36, 0x33) => Some('['),  // "63"
        (0x36, 0x35) => Some(']'),  // "65"
        (0x37, 0x38) => Some('@'),  // "78"
        (0x31, 0x39) => Some('!'),  // "19"
        (0x31, 0x63) => Some('$'),  // "1c"
        (0x31, 0x65) => Some('&'),  // "1e"
        (0x31, 0x30) => Some('('),  // "10"
        (0x31, 0x31) => Some(')'),  // "11"
        (0x31, 0x32) => Some('*'),  // "12"
        (0x31, 0x33) => Some('+'),  // "13"
        (0x31, 0x34) => Some(','),  // "14"
        (0x30, 0x33) => Some(';'),  // "03"
        (0x30, 0x35) => Some('='),  // "05"
        (0x31, 0x64) => Some('%'),  // "1d"
        _ => None,
    };
    proof {
        match (lower_hex_value(b1), lower_hex_value(b2)) {
            (Some(h), Some(l)) => {
                lemma_xor38((h * 16 + l) as u8);
            },
            _ => {},
        }
    }
    r
}

/// Decodes an obfuscated provider path.
pub fn hex_decipher(s: &str) -> (r: String)
    requires
        pairs_on_boundaries(s.spec_bytes()),
    ensures
        r@ == deciphered_path(s.spec_bytes()),
{
    let b = s.as_bytes();
    let mut out: Vec<char> = Vec::new();
    let mut i: usize = 0;
    assert(b@.skip(0) =~= b@);
    let n = b.len();
    while i < n && n - i >= 2
        invariant
            n == b@.len(),
            i <= b@.len(),
            decode_pairs(b@) == out@ + decode_pairs(b@.skip(i as int)),
        decreases b@.len() - i,
    {
        let ghost rest = b@.skip(i as int);
        assert(rest.skip(2) =~= b@.skip(i + 2));
        match pair_char_exec(b[i], b[i + 1]) {
            Some(c) => {
                out.push(c);
                assert(out@ =~= out@.drop_last() + seq![c]);
            },
            None => {},
        }
        i += 2;
    }
    assert(decode_pairs(b@.skip(i as int)) =~= Seq::<char>::empty());
    assert(out@ + Seq::<char>::empty() =~= out@);
    proof {
        reveal_strlit("/clock");
    }
    let r = text::replace_chars(&out, &text::to_chars("/clock"), &text::to_chars("/clock.json"));
    text::from_chars(&r)
}

/// The older single-pair cipher table: the character a two-character code
/// stands for, `'?'` for an unknown code.
pub open spec fn legacy_pair_char(a: char, b: char) -> char {
    match (a, b) {
        ('7', '9') => 'A',
        ('7', 'a') => 'B',
        ('7', 'b') => 'C',
        ('7', 'c') => 'D',
        ('7', 'd') => 'E',
        ('7', 'e') => 'F',
        ('7', 'f') => 'G',
        ('7', '0') => 'H',
        ('7', '1') => 'I',
        ('7', '2') => 'J',
        ('7', '3') => 'K',
        ('7', '4') => 'L',
        ('7', '5') => 'M',
        ('7', '6') => 'N',
        ('7', '7') => 'O',
        ('6', '8') => 'P',
        ('6', '9') => 'Q',
        ('6', 'a') => 'R',
        ('6', 'b') => 'S',
        ('6', 'c') => 'T',
        ('6', 'd') => 'U',
        ('6', 'e') => 'V',
        ('6', 'f') => 'W',
        ('6', '0') => 'X',
        ('6', '1') => 'Y',
        ('6', '2') => 'Z',
        ('5', '3') => 'a',
        ('5', '4') => 'b',
        ('5', '5') => 'c',
        ('5', '6') => 'd',
        ('5', '7') => 'e',
        ('5', '8') => 'f',
        ('5', '9') => 'g',
        ('5', 'a') => 'h',
        ('5', 'b') => 'i',
        ('5', 'c') => 'j',
        ('5', 'd') => 'k',
        ('5', 'e') => 'l',
        ('5', 'f') => 'm',
        ('5', '0') => 'n',
        ('5', '1') => 'o',
        ('5', '2') => 'p',
        ('4', '3') => 'q',
        ('4', '4') => 'r',
        ('4', '5') => 's',
        ('4', '6') => 't',
        ('4', '7') => 'u',
        ('4', '8') => 'v',
        ('4', '9') => 'w',
        ('4', 'a') => 'x',
        ('4', 'b') => 'y',
        ('4', 'c') => 'z',
        ('0', 'd') => '0',
        ('0', 'e') => '1',
        ('0', 'f') => '2',
        ('1', '0') => '3',
        ('1', '1') => '4',
        ('1', '2') => '5',
        ('1', '3') => '6',
        ('1', '4') => '7',
        ('1', '5') => '8',
        ('1', '6') => '9',
        ('3', 'd') => '=',
        ('2', 'f') => '/',
        ('2', 'b') => '+',
        ('0', '0') => '\0',
        _ => '?',
    }
}

/// Decodes one two-character code of the older cipher.
pub fn decipher_hex_pair(hex: &str) -> (r: char)
    ensures
        r == (if hex@.len() == 2 {
            legacy_pair_char(hex@[0], hex@[1])
        } else {
            '?'
        }),
{
    let cs = text::to_chars(hex);
    if cs.len() != 2 {
        return '?';
    }
    match (cs[0], cs[1]) {
        ('7', '9') => 'A',
        ('7', 'a') => 'B',
        ('7', 'b') => 'C',
        ('7', 'c') => 'D',
        ('7', 'd') => 'E',
        ('7', 'e') => 'F',
        ('7', 'f') => 'G',
        ('7', '0') => 'H',
        ('7', '1') => 'I',
        ('7', '2') => 'J',
        ('7', '3') => 'K',
        ('7', '4') => 'L',
        ('7', '5') => 'M',
        ('7', '6') => 'N',
        ('7', '7') => 'O',
        ('6', '8') => 'P',
        ('6', '9') => 'Q',
        ('6', 'a') => 'R',
        ('6', 'b') => 'S',
        ('6', 'c') => 'T',
        ('6', 'd') => 'U',
        ('6', 'e') => 'V',
        ('6', 'f') => 'W',
        ('6', '0') => 'X',
        ('6', '1') => 'Y',
        ('6', '2') => 'Z',
        ('5', '3') => 'a',
        ('5', '4') => 'b',
        ('5', '5') => 'c',
        ('5', '6') => 'd',
        ('5', '7') => 'e',
        ('5', '8') => 'f',
        ('5', '9') => 'g',
        ('5', 'a') => 'h',
        ('5', 'b') => 'i',
        ('5', 'c') => 'j',
        ('5', 'd') => 'k',
        ('5', 'e') => 'l',
        ('5', 'f') => 'm',
        ('5', '0') => 'n',
        ('5', '1') => 'o',
        ('5', '2') => 'p',
        ('4', '3') => 'q',
        ('4', '4') => 'r',
        ('4', '5') => 's',
        ('4', '6') => 't',
        ('4', '7') => 'u',
        ('4', '8') => 'v',
        ('4', '9') => 'w',
        ('4', 'a') => 'x',
        ('4', 'b') => 'y',
        ('4', 'c') => 'z',
        ('0', 'd') => '0',
        ('0', 'e') => '1',
        ('0', 'f') => '2',
        ('1', '0') => '3',
        ('1', '1') => '4',
        ('1', '2') => '5',
        ('1', '3') => '6',
        ('1', '4') => '7',
        ('1', '5') => '8',
        ('1', '6') => '9',
        ('3', 'd') => '=',
        ('2', 'f') => '/',
        ('2', 'b') => '+',
        ('0', '0') => '\0',
        _ => '?',
    }
}


/// Whether every byte pair of `s` can be cut out of it.
pub fn pairs_on_char_boundaries(s: &str) -> (r: bool)
    ensures
        r == pairs_on_boundaries(s.spec_bytes()),
{
    let n = s.as_bytes().len();
    let mut i: usize = 0;
    while i < n
        invariant
            n == s.spec_bytes().len(),
            i <= n,
            i % 2 == 0 || i == n,
            forall|j: int|
                0 <= j < i && j % 2 == 0 ==> #[trigger] is_char_boundary(s.spec_bytes(), j)
                    && is_char_boundary(
                    s.spec_bytes(),
                    if j + 2 <= s.spec_bytes().len() {
                        j + 2
                    } else {
                        s.spec_bytes().len() as int
                    },
                ),
        decreases n - i,
    {
        let end = if n - i >= 2 {
            i + 2
        } else {
            n
        };
        if !s.is_char_boundary(i) || !s.is_char_boundary(end) {
            return false;
        }
        if n - i < 2 {
            i = n;
        } else {
            i += 2;
        }
    }
    true
}

/// Decodes a provider path when every byte pair of it can be cut out of the
/// string; `None` for a path whose pairs would split a character.
pub fn try_hex_decipher(s: &str) -> (r: Option<String>)
    ensures
        r is Some == pairs_on_boundaries(s.spec_bytes()),
        r matches Some(p) ==> p@ == deciphered_path(s.spec_bytes()),
{
    if pairs_on_char_boundaries(s) {
        Some(hex_decipher(s))
    } else {
        None
    }
}

} // verus!
