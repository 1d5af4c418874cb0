//! The character tables of the GSM 7-bit default alphabet: the 128-entry
//! base table indexed by septet value, and the 10-entry extension table
//! reached through the escape marker, with the bit strings that encode a
//! character and a string.

use vstd::prelude::*;
use crate::pack::septet_bits;

verus! {

/// The base table: the character that a septet value names.
pub open spec fn base_char(v: int) -> char {
    if v == 0 { '@'
    } else if v == 1 { '£'
    } else if v == 2 { '$'
    } else if v == 3 { '¥'
    } else if v == 4 { 'è'
    } else if v == 5 { 'é'
    } else if v == 6 { 'ù'
    } else if v == 7 { 'ì'
    } else if v == 8 { 'ò'
    } else if v == 9 { 'Ç'
    } else if v == 10 { '\n'
    } else if v == 11 { 'Ø'
    } else if v == 12 { 'ø'
    } else if v == 13 { '\r'
    } else if v == 14 { 'Å'
    } else if v == 15 { 'å'
    } else if v == 16 { 'Δ'
    } else if v == 17 { '_'
    } else if v == 18 { 'Φ'
    } else if v == 19 { 'Γ'
    } else if v == 20 { 'Λ'
    } else if v == 21 { 'Ω'
    } else if v == 22 { 'Π'
    } else if v == 23 { 'Ψ'
    } else if v == 24 { 'Σ'
    } else if v == 25 { 'Θ'
    } else if v == 26 { 'Ξ'
    } else if v == 27 { '\x1B'
    } else if v == 28 { 'Æ'
    } else if v == 29 { 'æ'
    } else if v == 30 { 'ß'
    } else if v == 31 { 'É'
    } else if v == 32 { ' '
    } else if v == 33 { '!'
    } else if v == 34 { '"'
    } else if v == 35 { '#'
    } else if v == 36 { '¤'
    } else if v == 37 { '%'
    } else if v == 38 { '&'
    } else if v == 39 { '\''
    } else if v == 40 { '('
    } else if v == 41 { ')'
    } else if v == 42 { '*'
    } else if v == 43 { '+'
    } else if v == 44 { ','
    } else if v == 45 { '-'
    } else if v == 46 { '.'
    } else if v == 47 { '/'
    } else if v == 48 { '0'
    } else if v == 49 { '1'
    } else if v == 50 { '2'
    } else if v == 51 { '3'
    } else if v == 52 { '4'
    } else if v == 53 { '5'
    } else if v == 54 { '6'
    } else if v == 55 { '7'
    } else if v == 56 { '8'
    } else if v == 57 { '9'
    } else if v == 58 { ':'
    } else if v == 59 { ';'
    } else if v == 60 { '<'
    } else if v == 61 { '='
    } else if v == 62 { '>'
    } else if v == 63 { '?'
    } else if v == 64 { '¡'
    } else if v == 65 { 'A'
    } else if v == 66 { 'B'
    } else if v == 67 { 'C'
    } else if v == 68 { 'D'
    } else if v == 69 { 'E'
    } else if v == 70 { 'F'
    } else if v == 71 { 'G'
    } else if v == 72 { 'H'
    } else if v == 73 { 'I'
    } else if v == 74 { 'J'
    } else if v == 75 { 'K'
    } else if v == 76 { 'L'
    } else if v == 77 { 'M'
    } else if v == 78 { 'N'
    } else if v == 79 { 'O'
    } else if v == 80 { 'P'
    } else if v == 81 { 'Q'
    } else if v == 82 { 'R'
    } else if v == 83 { 'S'
    } else if v == 84 { 'T'
    } else if v == 85 { 'U'
    } else if v == 86 { 'V'
    } else if v == 87 { 'W'
    } else if v == 88 { 'X'
    } else if v == 89 { 'Y'
    } else if v == 90 { 'Z'
    } else if v == 91 { 'Ä'
    } else if v == 92 { 'Ö'
    } else if v == 93 { 'Ñ'
    } else if v == 94 { 'Ü'
    } else if v == 95 { '§'
    } else if v == 96 { '¿'
    } else if v == 97 { 'a'
    } else if v == 98 { 'b'
    } else if v == 99 { 'c'
    } else if v == 100 { 'd'
    } else if v == 101 { 'e'
    } else if v == 102 { 'f'
    } else if v == 103 { 'g'
    } else if v == 104 { 'h'
    } else if v == 105 { 'i'
    } else if v == 106 { 'j'
    } else if v == 107 { 'k'
    } else if v == 108 { 'l'
    } else if v == 109 { 'm'
    } else if v == 110 { 'n'
    } else if v == 111 { 'o'
    } else if v == 112 { 'p'
    } else if v == 113 { 'q'
    } else if v == 114 { 'r'
    } else if v == 115 { 's'
    } else if v == 116 { 't'
    } else if v == 117 { 'u'
    } else if v == 118 { 'v'
    } else if v == 119 { 'w'
    } else if v == 120 { 'x'
    } else if v == 121 { 'y'
    } else if v == 122 { 'z'
    } else if v == 123 { 'ä'
    } else if v == 124 { 'ö'
    } else if v == 125 { 'ñ'
    } else if v == 126 { 'ü'
    } else if v == 127 { 'à'
    } else { '\u{0}' }
}

/// The base table read backwards: the septet value that names a
/// character, or -1 for a character outside the table.
pub open spec fn base_code(c: char) -> int {
    if c == '@' { 0
    } else if c == '£' { 1
    } else if c == '$' { 2
    } else if c == '¥' { 3
    } else if c == 'è' { 4
    } else if c == 'é' { 5
    } else if c == 'ù' { 6
    } else if c == 'ì' { 7
    } else if c == 'ò' { 8
    } else if c == 'Ç' { 9
    } else if c == '\n' { 10
    } else if c == 'Ø' { 11
    } else if c == 'ø' { 12
    } else if c == '\r' { 13
    } else if c == 'Å' { 14
    } else if c == 'å' { 15
    } else if c == 'Δ' { 16
    } else if c == '_' { 17
    } else if c == 'Φ' { 18
    } else if c == 'Γ' { 19
    } else if c == 'Λ' { 20
    } else if c == 'Ω' { 21
    } else if c == 'Π' { 22
    } else if c == 'Ψ' { 23
    } else if c == 'Σ' { 24
    } else if c == 'Θ' { 25
    } else if c == 'Ξ' { 26
    } else if c == '\x1B' { 27
    } else if c == 'Æ' { 28
    } else if c == 'æ' { 29
    } else if c == 'ß' { 30
    } else if c == 'É' { 31
    } else if c == ' ' { 32
    } else if c == '!' { 33
    } else if c == '"' { 34
    } else if c == '#' { 35
    } else if c == '¤' { 36
    } else if c == '%' { 37
    } else if c == '&' { 38
    } else if c == '\'' { 39
    } else if c == '(' { 40
    } else if c == ')' { 41
    } else if c == '*' { 42
    } else if c == '+' { 43
    } else if c == ',' { 44
    } else if c == '-' { 45
    } else if c == '.' { 46
    } else if c == '/' { 47
    } else if c == '0' { 48
    } else if c == '1' { 49
    } else if c == '2' { 50
    } else if c == '3' { 51
    } else if c == '4' { 52
    } else if c == '5' { 53
    } else if c == '6' { 54
    } else if c == '7' { 55
    } else if c == '8' { 56
    } else if c == '9' { 57
    } else if c == ':' { 58
    } else if c == ';' { 59
    } else if c == '<' { 60
    } else if c == '=' { 61
    } else if c == '>' { 62
    } else if c == '?' { 63
    } else if c == '¡' { 64
    } else if c == 'A' { 65
    } else if c == 'B' { 66
    } else if c == 'C' { 67
    } else if c == 'D' { 68
    } else if c == 'E' { 69
    } else if c == 'F' { 70
    } else if c == 'G' { 71
    } else if c == 'H' { 72
    } else if c == 'I' { 73
    } else if c == 'J' { 74
    } else if c == 'K' { 75
    } else if c == 'L' { 76
    } else if c == 'M' { 77
    } else if c == 'N' { 78
    } else if c == 'O' { 79
    } else if c == 'P' { 80
    } else if c == 'Q' { 81
    } else if c == 'R' { 82
    } else if c == 'S' { 83
    } else if c == 'T' { 84
    } else if c == 'U' { 85
    } else if c == 'V' { 86
    } else if c == 'W' { 87
    } else if c == 'X' { 88
    } else if c == 'Y' { 89
    } else if c == 'Z' { 90
    } else if c == 'Ä' { 91
    } else if c == 'Ö' { 92
    } else if c == 'Ñ' { 93
    } else if c == 'Ü' { 94
    } else if c == '§' { 95
    } else if c == '¿' { 96
    } else if c == 'a' { 97
    } else if c == 'b' { 98
    } else if c == 'c' { 99
    } else if c == 'd' { 100
    } else if c == 'e' { 101
    } else if c == 'f' { 102
    } else if c == 'g' { 103
    } else if c == 'h' { 104
    } else if c == 'i' { 105
    } else if c == 'j' { 106
    } else if c == 'k' { 107
    } else if c == 'l' { 108
    } else if c == 'm' { 109
    } else if c == 'n' { 110
    } else if c == 'o' { 111
    } else if c == 'p' { 112
    } else if c == 'q' { 113
    } else if c == 'r' { 114
    } else if c == 's' { 115
    } else if c == 't' { 116
    } else if c == 'u' { 117
    } else if c == 'v' { 118
    } else if c == 'w' { 119
    } else if c == 'x' { 120
    } else if c == 'y' { 121
    } else if c == 'z' { 122
    } else if c == 'ä' { 123
    } else if c == 'ö' { 124
    } else if c == 'ñ' { 125
    } else if c == 'ü' { 126
    } else if c == 'à' { 127
    } else { -1 }
}

/// Looks a septet value up in the base table; total on the domain.
pub fn decode_base(septet: u8) -> (c: char)
    requires
        septet < 128,
    ensures
        c == base_char(septet as int),
{
    match septet {
        0 => '@',
        1 => '£',
        2 => '$',
        3 => '¥',
        4 => 'è',
        5 => 'é',
        6 => 'ù',
        7 => 'ì',
        8 => 'ò',
        9 => 'Ç',
        10 => '\n',
        11 => 'Ø',
        12 => 'ø',
        13 => '\r',
        14 => 'Å',
        15 => 'å',
        16 => 'Δ',
        17 => '_',
        18 => 'Φ',
        19 => 'Γ',
        20 => 'Λ',
        21 => 'Ω',
        22 => 'Π',
        23 => 'Ψ',
        24 => 'Σ',
        25 => 'Θ',
        26 => 'Ξ',
        27 => '\x1B',
        28 => 'Æ',
        29 => 'æ',
        30 => 'ß',
        31 => 'É',
        32 => ' ',
        33 => '!',
        34 => '"',
        35 => '#',
        36 => '¤',
        37 => '%',
        38 => '&',
        39 => '\'',
        40 => '(',
        41 => ')',
        42 => '*',
        43 => '+',
        44 => ',',
        45 => '-',
        46 => '.',
        47 => '/',
        48 => '0',
        49 => '1',
        50 => '2',
        51 => '3',
        52 => '4',
        53 => '5',
        54 => '6',
        55 => '7',
        56 => '8',
        57 => '9',
        58 => ':',
        59 => ';',
        60 => '<',
        61 => '=',
        62 => '>',
        63 => '?',
        64 => '¡',
        65 => 'A',
        66 => 'B',
        67 => 'C',
        68 => 'D',
        69 => 'E',
        70 => 'F',
        71 => 'G',
        72 => 'H',
        73 => 'I',
        74 => 'J',
        75 => 'K',
        76 => 'L',
        77 => 'M',
        78 => 'N',
        79 => 'O',
        80 => 'P',
        81 => 'Q',
        82 => 'R',
        83 => 'S',
        84 => 'T',
        85 => 'U',
        86 => 'V',
        87 => 'W',
        88 => 'X',
        89 => 'Y',
        90 => 'Z',
        91 => 'Ä',
        92 => 'Ö',
        93 => 'Ñ',
        94 => 'Ü',
        95 => '§',
        96 => '¿',
        97 => 'a',
        98 => 'b',
        99 => 'c',
        100 => 'd',
        101 => 'e',
        102 => 'f',
        103 => 'g',
        104 => 'h',
        105 => 'i',
        106 => 'j',
        107 => 'k',
        108 => 'l',
        109 => 'm',
        110 => 'n',
        111 => 'o',
        112 => 'p',
        113 => 'q',
        114 => 'r',
        115 => 's',
        116 => 't',
        117 => 'u',
        118 => 'v',
        119 => 'w',
        120 => 'x',
        121 => 'y',
        122 => 'z',
        123 => 'ä',
        124 => 'ö',
        125 => 'ñ',
        126 => 'ü',
        127 => 'à',
        _ => '\u{0}',
    }
}

/// Finds the septet value of a base-table character, if it has one.
pub fn encode_base(c: char) -> (r: Option<u8>)
    ensures
        match r {
            Some(v) => base_code(c) == v as int,
            None => base_code(c) == -1,
        },
{
    match c {
        '@' => Some(0),
        '£' => Some(1),
        '$' => Some(2),
        '¥' => Some(3),
        'è' => Some(4),
        'é' => Some(5),
        'ù' => Some(6),
        'ì' => Some(7),
        'ò' => Some(8),
        'Ç' => Some(9),
        '\n' => Some(10),
        'Ø' => Some(11),
        'ø' => Some(12),
        '\r' => Some(13),
        'Å' => Some(14),
        'å' => Some(15),
        'Δ' => Some(16),
        '_' => Some(17),
        'Φ' => Some(18),
        'Γ' => Some(19),
        'Λ' => Some(20),
        'Ω' => Some(21),
        'Π' => Some(22),
        'Ψ' => Some(23),
        'Σ' => Some(24),
        'Θ' => Some(25),
        'Ξ' => Some(26),
        '\x1B' => Some(27),
        'Æ' => Some(28),
        'æ' => Some(29),
        'ß' => Some(30),
        'É' => Some(31),
        ' ' => Some(32),
        '!' => Some(33),
        '"' => Some(34),
        '#' => Some(35),
        '¤' => Some(36),
        '%' => Some(37),
        '&' => Some(38),
        '\'' => Some(39),
        '(' => Some(40),
        ')' => Some(41),
        '*' => Some(42),
        '+' => Some(43),
        ',' => Some(44),
        '-' => Some(45),
        '.' => Some(46),
        '/' => Some(47),
        '0' => Some(48),
        '1' => Some(49),
        '2' => Some(50),
        '3' => Some(51),
        '4' => Some(52),
        '5' => Some(53),
        '6' => Some(54),
        '7' => Some(55),
        '8' => Some(56),
        '9' => Some(57),
        ':' => Some(58),
        ';' => Some(59),
        '<' => Some(60),
        '=' => Some(61),
        '>' => Some(62),
        '?' => Some(63),
        '¡' => Some(64),
        'A' => Some(65),
        'B' => Some(66),
        'C' => Some(67),
        'D' => Some(68),
        'E' => Some(69),
        'F' => Some(70),
        'G' => Some(71),
        'H' => Some(72),
        'I' => Some(73),
        'J' => Some(74),
        'K' => Some(75),
        'L' => Some(76),
        'M' => Some(77),
        'N' => Some(78),
        'O' => Some(79),
        'P' => Some(80),
        'Q' => Some(81),
        'R' => Some(82),
        'S' => Some(83),
        'T' => Some(84),
        'U' => Some(85),
        'V' => Some(86),
        'W' => Some(87),
        'X' => Some(88),
        'Y' => Some(89),
        'Z' => Some(90),
        'Ä' => Some(91),
        'Ö' => Some(92),
        'Ñ' => Some(93),
        'Ü' => Some(94),
        '§' => Some(95),
        '¿' => Some(96),
        'a' => Some(97),
        'b' => Some(98),
        'c' => Some(99),
        'd' => Some(100),
        'e' => Some(101),
        'f' => Some(102),
        'g' => Some(103),
        'h' => Some(104),
        'i' => Some(105),
        'j' => Some(106),
        'k' => Some(107),
        'l' => Some(108),
        'm' => Some(109),
        'n' => Some(110),
        'o' => Some(111),
        'p' => Some(112),
        'q' => Some(113),
        'r' => Some(114),
        's' => Some(115),
        't' => Some(116),
        'u' => Some(117),
        'v' => Some(118),
        'w' => Some(119),
        'x' => Some(120),
        'y' => Some(121),
        'z' => Some(122),
        'ä' => Some(123),
        'ö' => Some(124),
        'ñ' => Some(125),
        'ü' => Some(126),
        'à' => Some(127),
        _ => None,
    }
}

/// The extension table: the character that the second septet of an escape
/// sequence names.
pub open spec fn ext_char(w: int) -> char {
    if w == 0x0A { '\u{C}'
    } else if w == 0x14 { '^'
    } else if w == 0x28 { '{'
    } else if w == 0x29 { '}'
    } else if w == 0x2F { '\\'
    } else if w == 0x3C { '['
    } else if w == 0x3D { '~'
    } else if w == 0x3E { ']'
    } else if w == 0x40 { '|'
    } else if w == 0x65 { '€'
    } else { '\u{0}' }
}

/// The extension table read backwards: the second septet that encodes a
/// character, or -1 for a character outside the table.
pub open spec fn ext_code(c: char) -> int {
    if c == '\u{C}' { 0x0A
    } else if c == '^' { 0x14
    } else if c == '{' { 0x28
    } else if c == '}' { 0x29
    } else if c == '\\' { 0x2F
    } else if c == '[' { 0x3C
    } else if c == '~' { 0x3D
    } else if c == ']' { 0x3E
    } else if c == '|' { 0x40
    } else if c == '€' { 0x65
    } else { -1 }
}

/// Whether a septet value names an extension character.
pub open spec fn is_ext_code(w: int) -> bool {
    ext_char(w) != '\u{0}'
}

/// Whether a character stands in the base table.
pub open spec fn is_base_char(c: char) -> bool {
    base_code(c) >= 0
}

/// Whether a character stands in the extension table.
pub open spec fn is_ext_char(c: char) -> bool {
    ext_code(c) >= 0
}

/// Whether the writer can represent a character. The escape marker's own
/// slot in the base table is not directly addressable: the marker is only
/// ever produced as the first half of an escape sequence.
pub open spec fn encodable(c: char) -> bool {
    is_ext_char(c) || (is_base_char(c) && c != '\x1B')
}

/// Resolves the second septet of an escape sequence, if it names an
/// extension character.
pub fn decode_escape(second: u8) -> (r: Option<char>)
    ensures
        match r {
            Some(c) => is_ext_code(second as int) && c == ext_char(second as int),
            None => !is_ext_code(second as int),
        },
{
    match second {
        0x0A => Some('\u{C}'),
        0x14 => Some('^'),
        0x28 => Some('{'),
        0x29 => Some('}'),
        0x2F => Some('\\'),
        0x3C => Some('['),
        0x3D => Some('~'),
        0x3E => Some(']'),
        0x40 => Some('|'),
        0x65 => Some('€'),
        _ => None,
    }
}

/// Finds the second septet that encodes an extension character, if any.
pub fn encode_escape(c: char) -> (r: Option<u8>)
    ensures
        match r {
            Some(v) => ext_code(c) == v as int,
            None => ext_code(c) == -1,
        },
{
    match c {
        '\u{C}' => Some(0x0A),
        '^' => Some(0x14),
        '{' => Some(0x28),
        '}' => Some(0x29),
        '\\' => Some(0x2F),
        '[' => Some(0x3C),
        '~' => Some(0x3D),
        ']' => Some(0x3E),
        '|' => Some(0x40),
        '€' => Some(0x65),
        _ => None,
    }
}

/// The bits that encode one character: a lone septet for a base character,
/// the escape marker's septet followed by the extension septet for an
/// extension character.
pub open spec fn char_bits(c: char) -> Seq<bool> {
    if is_ext_char(c) {
        septet_bits(0x1B) + septet_bits(ext_code(c))
    } else {
        septet_bits(base_code(c))
    }
}

/// The bits that encode a whole character sequence, in order.
pub open spec fn str_bits(s: Seq<char>) -> Seq<bool>
    decreases s.len(),
{
    if s.len() == 0 {
        Seq::empty()
    } else {
        char_bits(s[0]) + str_bits(s.drop_first())
    }
}

/// How many leading characters of a sequence the writer can represent.
pub open spec fn encodable_prefix(s: Seq<char>) -> int
    decreases s.len(),
{
    if s.len() == 0 {
        0
    } else if !encodable(s[0]) {
        0
    } else {
        1 + encodable_prefix(s.drop_first())
    }
}

/// A base-table character is recovered from its septet value.
pub proof fn lemma_base_inverse(c: char)
    requires
        is_base_char(c),
    ensures
        0 <= base_code(c) < 128,
        base_char(base_code(c)) == c,
        c == '\x1B' <==> base_code(c) == 27,
{
}

/// An extension character is recovered from its extension septet, whose
/// value always names an extension character and is never the escape
/// marker's own value.
pub proof fn lemma_ext_inverse(c: char)
    requires
        is_ext_char(c),
    ensures
        0 <= ext_code(c) < 128,
        is_ext_code(ext_code(c)),
        ext_char(ext_code(c)) == c,
        ext_code(c) != 0x1B,
{
}

/// The bits of a character sequence end with the bits of its last
/// character.
pub proof fn lemma_str_bits_snoc(s: Seq<char>)
    requires
        s.len() > 0,
    ensures
        str_bits(s) == str_bits(s.drop_last()) + char_bits(s.last()),
    decreases s.len(),
{
    if s.len() == 1 {
        assert(s.drop_last() =~= Seq::<char>::empty());
        assert(str_bits(s) =~= str_bits(s.drop_last()) + char_bits(s.last()));
    } else {
        lemma_str_bits_snoc(s.drop_first());
        assert(s.drop_first().drop_last() =~= s.drop_last().drop_first());
        assert(s.drop_last()[0] == s[0]);
        assert(s.drop_first().last() == s.last());
        assert(str_bits(s) == char_bits(s[0]) + str_bits(s.drop_first()));
        assert(str_bits(s.drop_last()) == char_bits(s[0]) + str_bits(s.drop_last().drop_first()));
        assert(str_bits(s) =~= str_bits(s.drop_last()) + char_bits(s.last()));
    }
}

/// The encodable prefix stops exactly at the first character the writer
/// cannot represent.
pub proof fn lemma_encodable_prefix_at(s: Seq<char>, i: int)
    requires
        0 <= i <= s.len(),
        forall|j: int| 0 <= j < i ==> encodable(s[j]),
        i < s.len() ==> !encodable(s[i]),
    ensures
        encodable_prefix(s) == i,
    decreases s.len(),
{
    if s.len() == 0 {
    } else if i == 0 {
    } else {
        assert(encodable(s[0]));
        assert(forall|j: int| 0 <= j < i - 1 ==> s.drop_first()[j] == s[j + 1]);
        lemma_encodable_prefix_at(s.drop_first(), i - 1);
    }
}

} // verus!
