//! How colours are read and shown.
use crate::text::{space_char, space_end, trimmed, trimmed_end, trimmed_start};
use crate::ui::theme::{entry_color, entry_distance, hex_value, index_256, is_quote,
    nearest_entry, nearest_entry_is_nearest, raw_value, rgb_of, separator, setting, unhashed,
    unquoted, RawTheme};
use vstd::prelude::*;

verus! {

// ---- texts of colours ----

/// The hexadecimal digit of a value, in either case.
pub open spec fn hex_char(v: int, upper: bool) -> char {
    if v < 10 {
        ('0' as int + v) as char
    } else if upper {
        ('A' as int + v - 10) as char
    } else {
        ('a' as int + v - 10) as char
    }
}

/// A text that starts and ends with something else than white space is not trimmed.
proof fn tight_texts_are_kept(s: Seq<char>)
    requires
        s.len() > 0,
        !space_char(s[0]),
        !space_char(s.last()),
    ensures
        trimmed(s) == s,
{
    assert(space_end(s, 0) == 0);
    assert(trimmed_start(s) =~= s);
    assert(trimmed_end(s) == s);
}

proof fn hex_chars_are_read(v: int, upper: bool)
    requires
        0 <= v < 16,
    ensures
        hex_value(hex_char(v, upper)) == Some(v),
        hex_char(v, upper) != '#',
        hex_char(v, upper) != '+',
        !space_char(hex_char(v, upper)),
{
}

/// Two hexadecimal digits for each channel are read as that colour, in either case and with
/// or without the hash.
pub proof fn written_colours_are_read_back(r: u8, g: u8, b: u8, upper: bool)
    ensures
        ({
            let digits = seq![
                hex_char(r as int / 16, upper),
                hex_char(r as int % 16, upper),
                hex_char(g as int / 16, upper),
                hex_char(g as int % 16, upper),
                hex_char(b as int / 16, upper),
                hex_char(b as int % 16, upper),
            ];
            &&& rgb_of(seq!['#'] + digits) == Some((r as int, g as int, b as int))
            &&& rgb_of(digits) == Some((r as int, g as int, b as int))
        }),
{
    hex_chars_are_read(r as int / 16, upper);
    hex_chars_are_read(r as int % 16, upper);
    hex_chars_are_read(g as int / 16, upper);
    hex_chars_are_read(g as int % 16, upper);
    hex_chars_are_read(b as int / 16, upper);
    hex_chars_are_read(b as int % 16, upper);
    let digits = seq![
        hex_char(r as int / 16, upper),
        hex_char(r as int % 16, upper),
        hex_char(g as int / 16, upper),
        hex_char(g as int % 16, upper),
        hex_char(b as int / 16, upper),
        hex_char(b as int % 16, upper),
    ];
    let hashed = seq!['#'] + digits;
    tight_texts_are_kept(digits);
    tight_texts_are_kept(hashed);
    assert(unhashed(digits) == digits);
    assert(hashed.drop_first() =~= digits);
    assert(unhashed(hashed) == digits);
}

/// One digit for each channel stands for that digit twice; two digits alone are a grey.
pub proof fn short_colours_are_doubled(x: char, y: char, z: char)
    requires
        hex_value(x) is Some,
        hex_value(y) is Some,
        hex_value(z) is Some,
    ensures
        rgb_of(seq!['#', x, y, z]) == rgb_of(seq!['#', x, x, y, y, z, z]),
        rgb_of(seq!['#', x, y]) == rgb_of(seq!['#', x, y, x, y, x, y]),
        rgb_of(seq!['#', x, y]) is Some,
{
    let three = seq!['#', x, y, z];
    let doubled = seq!['#', x, x, y, y, z, z];
    let two = seq!['#', x, y];
    let grey = seq!['#', x, y, x, y, x, y];
    tight_texts_are_kept(three);
    tight_texts_are_kept(doubled);
    tight_texts_are_kept(two);
    tight_texts_are_kept(grey);
    assert(three.drop_first() =~= seq![x, y, z]);
    assert(doubled.drop_first() =~= seq![x, x, y, y, z, z]);
    assert(two.drop_first() =~= seq![x, y]);
    assert(grey.drop_first() =~= seq![x, y, x, y, x, y]);
    reveal_with_fuel(unhashed, 2);
}

// ---- the table of 256 colours ----

/// The steps of a channel in the cube of the table.
pub open spec fn cube_step(i: int) -> int {
    seq![0int, 95, 135, 175, 215, 255][i]
}

/// The colour that a terminal shows for an index from 16 on: the cube, then the greys.
pub open spec fn table_color(j: int) -> (int, int, int) {
    if j < 232 {
        (cube_step((j - 16) / 36), cube_step((j - 16) / 6 % 6), cube_step((j - 16) % 6))
    } else {
        (8 + 10 * (j - 232), 8 + 10 * (j - 232), 8 + 10 * (j - 232))
    }
}

/// How far an entry of the table is from a colour, squared.
pub open spec fn table_distance(r: u8, g: u8, b: u8, j: int) -> int {
    let c = table_color(j);
    (r - c.0) * (r - c.0) + (g - c.1) * (g - c.1) + (b - c.2) * (b - c.2)
}

proof fn entries_are_of_the_table(k: int)
    requires
        0 <= k < 240,
    ensures
        entry_color(k) == table_color(
            if k < 24 {
                232 + k
            } else {
                k - 8
            },
        ),
{
}

/// No entry of the table from 16 on is nearer to a colour than the one that it is shown as.
pub proof fn shown_entry_is_the_nearest(r: u8, g: u8, b: u8, j: int)
    requires
        16 <= j < 256,
    ensures
        16 <= index_256(r, g, b) < 256,
        table_distance(r, g, b, index_256(r, g, b)) <= table_distance(r, g, b, j),
{
    nearest_entry_is_nearest(r, g, b, 240);
    let k = nearest_entry(r, g, b, 240);
    let i = if j < 232 {
        j + 8
    } else {
        j - 232
    };
    entries_are_of_the_table(k);
    entries_are_of_the_table(i);
    assert(entry_distance(r, g, b, k) <= entry_distance(r, g, b, i));
}

// ---- theme files ----

/// Of two settings of one key the later counts; the settings of other keys stay.
pub proof fn later_settings_win(raw: RawTheme, key: Seq<char>, value: Seq<char>, other: Seq<char>)
    ensures
        raw_value(raw.push((key, value)), key) == Some(value),
        other != key ==> raw_value(raw.push((key, value)), other) == raw_value(raw, other),
{
    assert(raw.push((key, value)).drop_last() =~= raw);
}

proof fn separator_is_found(s: Seq<char>, i: int, at: int)
    requires
        0 <= i <= at < s.len(),
        s[at] == '=' || s[at] == ':',
        forall|k: int| i <= k < at ==> #[trigger] s[k] != '=' && s[k] != ':',
    ensures
        separator(s, i) == at,
    decreases at - i,
{
    if i < at {
        separator_is_found(s, i + 1, at);
    }
}

/// A line with a key, a separator and a quoted value sets the key to the value.
pub proof fn lines_set_their_keys(key: Seq<char>, sep: char, quote: char, value: Seq<char>)
    requires
        sep == '=' || sep == ':',
        quote == '"' || quote == '\'',
        key.len() > 0,
        !space_char(key[0]) && !space_char(key.last()),
        key[0] != '#' && key[0] != '/',
        forall|k: int| 0 <= k < key.len() ==> #[trigger] key[k] != '=' && key[k] != ':',
        value.len() > 0,
        !space_char(value[0]) && !space_char(value.last()),
        !is_quote(value[0]) && !is_quote(value.last()),
    ensures
        setting(key + seq![sep] + seq![quote] + value + seq![quote]) == Some((key, value)),
{
    let quoted = seq![quote] + value + seq![quote];
    let line = key + seq![sep] + seq![quote] + value + seq![quote];
    let at = key.len() as int;
    tight_texts_are_kept(line);
    assert forall|k: int| 0 <= k < at implies #[trigger] line[k] != '=' && line[k] != ':' by {
        assert(line[k] == key[k]);
    }
    separator_is_found(line, 0, at);
    assert(line.take(at) =~= key);
    assert(line.skip(at + 1) =~= quoted);
    tight_texts_are_kept(key);
    tight_texts_are_kept(quoted);
    tight_texts_are_kept(value);
    let half = value + seq![quote];
    assert(quoted.drop_first() =~= half);
    assert(half.drop_last() =~= value);
    assert(unquoted(value) == value);
    assert(unquoted(half) == value);
    assert(unquoted(quoted) == value);
}

} // verus!
