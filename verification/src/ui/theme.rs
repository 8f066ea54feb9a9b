//! Colours: palettes, gradients, and what a terminal can show of them.
use crate::binary::{coarsen, coarsened, narrow, narrowed};
use crate::text::{chars_of, contains, ends_with, has_infix, has_suffix, lowered, of_chars, same,
    same_but_case, small_text, to_lowercase, trim, trimmed};
use crate::ui::cells::Color;
use vstd::prelude::*;
use vstd::string::*;

verus! {

/// Terminal colour capability. The terminal does **not** downgrade true colours by
/// itself, so the theme resolves every colour to the mode's nearest representable
/// value once, at load.
#[derive(Debug, Clone, Copy, PartialEq, Eq, Structural)]
pub enum ColorMode {
    TrueColor,
    Color256,
    Color16,
}

impl ColorMode {
    /// What the environment announces: `COLORTERM` of `truecolor` or `24bit`, else a
    /// `256` in `TERM`, else 16 colours.
    pub fn detect(colorterm: &str, term: &str) -> (r: ColorMode)
        ensures
            r == if colorterm@ == "truecolor"@ || colorterm@ == "24bit"@ {
                ColorMode::TrueColor
            } else if has_infix(term@, "256"@) {
                ColorMode::Color256
            } else {
                ColorMode::Color16
            },
    {
        if same(colorterm, "truecolor") || same(colorterm, "24bit") {
            return ColorMode::TrueColor;
        }
        if contains(term, "256") {
            return ColorMode::Color256;
        }
        ColorMode::Color16
    }
}

// ---- palettes ----

/// The builtin `Default` palette. Shorthand like `#00` means grey `#000000`.
pub const DEFAULT: [(&'static str, &'static str); 40] = [
    ("main_bg", "#00"),
    ("main_fg", "#cc"),
    ("title", "#ee"),
    ("hi_fg", "#b54040"),
    ("selected_bg", "#6a2f2f"),
    ("selected_fg", "#ee"),
    ("inactive_fg", "#40"),
    ("graph_text", "#60"),
    ("meter_bg", "#40"),
    ("proc_misc", "#0de756"),
    ("cpu_box", "#556d59"),
    ("mem_box", "#6c6c4b"),
    ("net_box", "#5c588d"),
    ("proc_box", "#805252"),
    ("div_line", "#30"),
    ("cpu_start", "#77ca9b"),
    ("cpu_mid", "#cbc06c"),
    ("cpu_end", "#dc4c4c"),
    ("free_start", "#384f21"),
    ("free_mid", "#b5e685"),
    ("free_end", "#dcff85"),
    ("cached_start", "#163350"),
    ("cached_mid", "#74e6fc"),
    ("cached_end", "#26c5ff"),
    ("available_start", "#4e3f0e"),
    ("available_mid", "#ffd77a"),
    ("available_end", "#ffb814"),
    ("used_start", "#592b26"),
    ("used_mid", "#d9626d"),
    ("used_end", "#ff4769"),
    ("download_start", "#291f75"),
    ("download_mid", "#4f43a3"),
    ("download_end", "#b0a9de"),
    ("upload_start", "#620665"),
    ("upload_mid", "#7d4180"),
    ("upload_end", "#dcafde"),
    ("process_start", "#80d0a3"),
    ("process_mid", "#dcd179"),
    ("process_end", "#d45454"),
    ("proc_pause_bg", "#b54040"),
];

/// The 16-colour palette, used under [`ColorMode::Color16`].
pub const TTY: [(&'static str, &'static str); 40] = [
    ("main_bg", "#00"),
    ("main_fg", "#c8c8c8"),
    ("title", "#c8c8c8"),
    ("hi_fg", "#b54040"),
    ("selected_bg", "#3a3a3a"),
    ("selected_fg", "#c8c8c8"),
    ("inactive_fg", "#585858"),
    ("graph_text", "#585858"),
    ("meter_bg", "#585858"),
    ("proc_misc", "#87d7af"),
    ("cpu_box", "#87d7af"),
    ("mem_box", "#d7d787"),
    ("net_box", "#d7afd7"),
    ("proc_box", "#d78787"),
    ("div_line", "#585858"),
    ("cpu_start", "#5faf87"),
    ("cpu_mid", "#d7d75f"),
    ("cpu_end", "#d75f5f"),
    ("free_start", "#5f8700"),
    ("free_mid", "#87d75f"),
    ("free_end", "#d7ff5f"),
    ("cached_start", "#005f5f"),
    ("cached_mid", "#00d7ff"),
    ("cached_end", "#5fd7ff"),
    ("available_start", "#5f5f00"),
    ("available_mid", "#ffd75f"),
    ("available_end", "#ffaf00"),
    ("used_start", "#5f0000"),
    ("used_mid", "#ff5f5f"),
    ("used_end", "#ff5f87"),
    ("download_start", "#5f5f87"),
    ("download_mid", "#8787d7"),
    ("download_end", "#d7d7d7"),
    ("upload_start", "#5f005f"),
    ("upload_mid", "#875f87"),
    ("upload_end", "#d7afd7"),
    ("process_start", "#5fd7af"),
    ("process_mid", "#d7d75f"),
    ("process_end", "#d75f5f"),
    ("proc_pause_bg", "#b54040"),
];

// Modern builtin palettes overlaid on the default. Each names only the keys it
// changes; the rest inherits.

/// The gruvbox dark palette.
pub const GRUVBOX_DARK: [(&'static str, &'static str); 40] = [
    ("main_bg", "#282828"),
    ("main_fg", "#ebdbb2"),
    ("title", "#ebdbb2"),
    ("hi_fg", "#fb4934"),
    ("selected_bg", "#504945"),
    ("selected_fg", "#ebdbb2"),
    ("inactive_fg", "#665c54"),
    ("graph_text", "#928374"),
    ("meter_bg", "#3c3836"),
    ("proc_misc", "#b8bb26"),
    ("cpu_box", "#b8bb26"),
    ("mem_box", "#fabd2f"),
    ("net_box", "#83a598"),
    ("proc_box", "#d3869b"),
    ("div_line", "#3c3836"),
    ("cpu_start", "#b8bb26"),
    ("cpu_mid", "#fabd2f"),
    ("cpu_end", "#fb4934"),
    ("free_start", "#3c3836"),
    ("free_mid", "#b8bb26"),
    ("free_end", "#b8bb26"),
    ("cached_start", "#076678"),
    ("cached_mid", "#83a598"),
    ("cached_end", "#83a598"),
    ("available_start", "#3c3836"),
    ("available_mid", "#fabd2f"),
    ("available_end", "#fabd2f"),
    ("used_start", "#427b58"),
    ("used_mid", "#fe8019"),
    ("used_end", "#fb4934"),
    ("download_start", "#3c3836"),
    ("download_mid", "#83a598"),
    ("download_end", "#83a598"),
    ("upload_start", "#3c3836"),
    ("upload_mid", "#d3869b"),
    ("upload_end", "#d3869b"),
    ("process_start", "#b8bb26"),
    ("process_mid", "#fabd2f"),
    ("process_end", "#fb4934"),
    ("proc_pause_bg", "#fb4934"),
];

/// The tokyo-night palette.
pub const TOKYO_NIGHT: [(&'static str, &'static str); 40] = [
    ("main_bg", "#1a1b26"),
    ("main_fg", "#c0caf5"),
    ("title", "#c0caf5"),
    ("hi_fg", "#f7768e"),
    ("selected_bg", "#33467c"),
    ("selected_fg", "#c0caf5"),
    ("inactive_fg", "#3b4261"),
    ("graph_text", "#565f89"),
    ("meter_bg", "#292e42"),
    ("proc_misc", "#9ece6a"),
    ("cpu_box", "#9ece6a"),
    ("mem_box", "#e0af68"),
    ("net_box", "#7aa2f7"),
    ("proc_box", "#bb9af7"),
    ("div_line", "#292e42"),
    ("cpu_start", "#9ece6a"),
    ("cpu_mid", "#e0af68"),
    ("cpu_end", "#f7768e"),
    ("free_start", "#292e42"),
    ("free_mid", "#9ece6a"),
    ("free_end", "#9ece6a"),
    ("cached_start", "#164b5e"),
    ("cached_mid", "#2ac3de"),
    ("cached_end", "#2ac3de"),
    ("available_start", "#292e42"),
    ("available_mid", "#e0af68"),
    ("available_end", "#e0af68"),
    ("used_start", "#15706a"),
    ("used_mid", "#ff9e64"),
    ("used_end", "#f7768e"),
    ("download_start", "#292e42"),
    ("download_mid", "#7aa2f7"),
    ("download_end", "#7aa2f7"),
    ("upload_start", "#292e42"),
    ("upload_mid", "#bb9af7"),
    ("upload_end", "#bb9af7"),
    ("process_start", "#9ece6a"),
    ("process_mid", "#e0af68"),
    ("process_end", "#f7768e"),
    ("proc_pause_bg", "#f7768e"),
];

/// The catppuccin mocha palette.
pub const CATPPUCCIN_MOCHA: [(&'static str, &'static str); 40] = [
    ("main_bg", "#1e1e2e"),
    ("main_fg", "#cdd6f4"),
    ("title", "#cdd6f4"),
    ("hi_fg", "#f38ba8"),
    ("selected_bg", "#45475a"),
    ("selected_fg", "#cdd6f4"),
    ("inactive_fg", "#45475a"),
    ("graph_text", "#6c7086"),
    ("meter_bg", "#313244"),
    ("proc_misc", "#a6e3a1"),
    ("cpu_box", "#a6e3a1"),
    ("mem_box", "#f9e2af"),
    ("net_box", "#89b4fa"),
    ("proc_box", "#cba6f7"),
    ("div_line", "#313244"),
    ("cpu_start", "#a6e3a1"),
    ("cpu_mid", "#f9e2af"),
    ("cpu_end", "#f38ba8"),
    ("free_start", "#313244"),
    ("free_mid", "#a6e3a1"),
    ("free_end", "#a6e3a1"),
    ("cached_start", "#0c4a6e"),
    ("cached_mid", "#89dceb"),
    ("cached_end", "#89dceb"),
    ("available_start", "#313244"),
    ("available_mid", "#f9e2af"),
    ("available_end", "#f9e2af"),
    ("used_start", "#2d6a5b"),
    ("used_mid", "#fab387"),
    ("used_end", "#f38ba8"),
    ("download_start", "#313244"),
    ("download_mid", "#89b4fa"),
    ("download_end", "#89b4fa"),
    ("upload_start", "#313244"),
    ("upload_mid", "#cba6f7"),
    ("upload_end", "#cba6f7"),
    ("process_start", "#a6e3a1"),
    ("process_mid", "#f9e2af"),
    ("process_end", "#f38ba8"),
    ("proc_pause_bg", "#f38ba8"),
];

/// Names whose `_start`, `_mid` and `_end` triples expand into a gradient.
pub const GRADIENT_FAMILIES: [&'static str; 8] = [
    "cpu",
    "free",
    "cached",
    "available",
    "used",
    "download",
    "upload",
    "process",
];

/// A palette before resolution: keys with their values; a later entry wins.
pub type RawTheme = Seq<(Seq<char>, Seq<char>)>;

/// A table of keys and values.
pub open spec fn table(t: Seq<(&'static str, &'static str)>) -> RawTheme {
    t.map_values(|p: (&'static str, &'static str)| (p.0@, p.1@))
}

/// Owned keys and values.
pub open spec fn raw_view(v: Seq<(String, String)>) -> RawTheme {
    v.map_values(|p: (String, String)| (p.0@, p.1@))
}

/// The value of a key: that of its last entry.
pub open spec fn raw_value(raw: RawTheme, key: Seq<char>) -> Option<Seq<char>>
    decreases raw.len(),
{
    if raw.len() == 0 {
        None
    } else if raw.last().0 == key {
        Some(raw.last().1)
    } else {
        raw_value(raw.drop_last(), key)
    }
}

/// The value of a key: that of its last entry.
fn find_raw<'a>(raw: &'a Vec<(String, String)>, key: &str) -> (r: Option<&'a str>)
    ensures
        raw_value(raw_view(raw@), key@) == (match r {
            Some(v) => Some(v@),
            None => None,
        }),
{
    let ghost all = raw_view(raw@);
    let mut i: usize = raw.len();
    assert(all.take(i as int) =~= all);
    while i > 0
        invariant
            i <= raw@.len(),
            all == raw_view(raw@),
            raw_value(all, key@) == raw_value(all.take(i as int), key@),
        decreases i,
    {
        assert(all.take(i as int).drop_last() =~= all.take(i - 1));
        i -= 1;
        if same(raw[i].0.as_str(), key) {
            return Some(raw[i].1.as_str());
        }
    }
    None
}

/// Adds the entries of a table.
fn add_table(raw: &mut Vec<(String, String)>, t: &[(&'static str, &'static str)])
    ensures
        raw_view(final(raw)@) == raw_view(old(raw)@) + table(t@),
{
    let ghost all = table(t@);
    let n: usize = t.len();
    let mut i: usize = 0;
    assert(raw_view(raw@) =~= raw_view(old(raw)@) + all.take(0));
    while i < n
        invariant
            i <= n,
            n == t@.len(),
            all == table(t@),
            raw_view(raw@) == raw_view(old(raw)@) + all.take(i as int),
        decreases n - i,
    {
        let ghost before = raw@;
        raw.push((t[i].0.to_owned(), t[i].1.to_owned()));
        assert(raw_view(raw@) =~= raw_view(before).push(all[i as int]));
        i += 1;
        assert(raw_view(raw@) =~= raw_view(old(raw)@) + all.take(i as int));
    }
    assert(all.take(n as int) =~= all);
}

/// The overlay of a builtin palette, by its name in lower case.
pub open spec fn overlay_of(name: Seq<char>) -> RawTheme {
    if name == "gruvbox-dark"@ {
        table(GRUVBOX_DARK@)
    } else if name == "tokyo-night"@ {
        table(TOKYO_NIGHT@)
    } else if name == "catppuccin-mocha"@ {
        table(CATPPUCCIN_MOCHA@)
    } else {
        Seq::empty()
    }
}

/// The entries of a builtin palette. With 16 colours it is always the TTY one.
pub open spec fn builtin_raw(name: Seq<char>, mode: ColorMode) -> RawTheme {
    if small_text(name) == small_text("tty"@) || mode == ColorMode::Color16 {
        table(TTY@)
    } else {
        table(DEFAULT@) + overlay_of(lowered(name))
    }
}

/// Modern builtin palettes overlaid on the default.
pub fn named_overlays(name: &str, raw: &mut Vec<(String, String)>)
    ensures
        raw_view(final(raw)@) == raw_view(old(raw)@) + overlay_of(name@),
{
    if same(name, "gruvbox-dark") {
        add_table(raw, GRUVBOX_DARK.as_slice());
    } else if same(name, "tokyo-night") {
        add_table(raw, TOKYO_NIGHT.as_slice());
    } else if same(name, "catppuccin-mocha") {
        add_table(raw, CATPPUCCIN_MOCHA.as_slice());
    } else {
        assert(raw_view(raw@) + Seq::<(Seq<char>, Seq<char>)>::empty() =~= raw_view(raw@));
    }
}

// ---- hexadecimal colours ----

/// The value of a hexadecimal digit.
pub open spec fn hex_value(c: char) -> Option<int> {
    if '0' <= c <= '9' {
        Some(c as int - '0' as int)
    } else if 'a' <= c <= 'f' {
        Some(c as int - 'a' as int + 10)
    } else if 'A' <= c <= 'F' {
        Some(c as int - 'A' as int + 10)
    } else {
        None
    }
}

fn hex_digit(c: char) -> (r: Option<u8>)
    ensures
        hex_value(c) == (match r {
            Some(v) => Some(v as int),
            None => None,
        }),
        r matches Some(v) ==> v < 16,
{
    if '0' <= c && c <= '9' {
        Some((c as u32 - '0' as u32) as u8)
    } else if 'a' <= c && c <= 'f' {
        Some((c as u32 - 'a' as u32 + 10) as u8)
    } else if 'A' <= c && c <= 'F' {
        Some((c as u32 - 'A' as u32 + 10) as u8)
    } else {
        None
    }
}

/// The byte of two hexadecimal digits; a `+` may stand for the first.
pub open spec fn hex_byte(a: char, b: char) -> Option<int> {
    match (
        if a == '+' {
            Some(0int)
        } else {
            hex_value(a)
        },
        hex_value(b),
    ) {
        (Some(x), Some(y)) => Some(x * 16 + y),
        _ => None,
    }
}

fn hex_pair(a: char, b: char) -> (r: Option<u8>)
    ensures
        hex_byte(a, b) == (match r {
            Some(v) => Some(v as int),
            None => None,
        }),
{
    let high = if a == '+' {
        Some(0)
    } else {
        hex_digit(a)
    };
    match (high, hex_digit(b)) {
        (Some(x), Some(y)) => Some(x * 16 + y),
        _ => None,
    }
}

/// `s` without the leading `#`s.
pub open spec fn unhashed(s: Seq<char>) -> Seq<char>
    decreases s.len(),
{
    if s.len() > 0 && s[0] == '#' {
        unhashed(s.drop_first())
    } else {
        s
    }
}

/// The colour that a hexadecimal text stands for: a full byte of grey (`#cc`), one
/// digit per channel, doubled (`#f0a`), or two digits per channel.
pub open spec fn rgb_of(s: Seq<char>) -> Option<(int, int, int)> {
    let t = unhashed(trimmed(s));
    if t.len() == 2 {
        match hex_byte(t[0], t[1]) {
            Some(v) => Some((v, v, v)),
            None => None,
        }
    } else if t.len() == 3 {
        match (hex_value(t[0]), hex_value(t[1]), hex_value(t[2])) {
            (Some(r), Some(g), Some(b)) => Some((r * 17, g * 17, b * 17)),
            _ => None,
        }
    } else if t.len() == 6 {
        match (hex_byte(t[0], t[1]), hex_byte(t[2], t[3]), hex_byte(t[4], t[5])) {
            (Some(r), Some(g), Some(b)) => Some((r, g, b)),
            _ => None,
        }
    } else {
        None
    }
}

/// The view of a colour that may be missing.
pub open spec fn rgb_view(c: Option<(u8, u8, u8)>) -> Option<(int, int, int)> {
    match c {
        Some(c) => Some((c.0 as int, c.1 as int, c.2 as int)),
        None => None,
    }
}

/// Expand a hexadecimal colour. The 2-digit form is already a full byte, *not* a
/// digit to duplicate; only the 3-digit form duplicates each digit.
pub fn expand_rgb(s: &str) -> (r: Option<(u8, u8, u8)>)
    ensures
        rgb_view(r) == rgb_of(s@),
{
    let v = chars_of(trim(s).as_str());
    let mut at: usize = 0;
    assert(v@.skip(0) =~= v@);
    while at < v.len() && v[at] == '#'
        invariant
            at <= v@.len(),
            unhashed(v@) == unhashed(v@.skip(at as int)),
        decreases v@.len() - at,
    {
        assert(v@.skip(at as int).drop_first() =~= v@.skip(at + 1));
        at += 1;
    }
    let ghost t = v@.skip(at as int);
    assert(unhashed(v@) == t);
    let n: usize = v.len() - at;
    if n == 2 {
        assert(t[0] == v@[at as int] && t[1] == v@[at + 1]);
        match hex_pair(v[at], v[at + 1]) {
            Some(x) => Some((x, x, x)),
            None => None,
        }
    } else if n == 3 {
        assert(t[0] == v@[at as int] && t[1] == v@[at + 1] && t[2] == v@[at + 2]);
        match (hex_digit(v[at]), hex_digit(v[at + 1]), hex_digit(v[at + 2])) {
            (Some(r), Some(g), Some(b)) => Some((r * 17, g * 17, b * 17)),
            _ => None,
        }
    } else if n == 6 {
        assert(t[0] == v@[at as int] && t[1] == v@[at + 1] && t[2] == v@[at + 2]);
        assert(t[3] == v@[at + 3] && t[4] == v@[at + 4] && t[5] == v@[at + 5]);
        match (
            hex_pair(v[at], v[at + 1]),
            hex_pair(v[at + 2], v[at + 3]),
            hex_pair(v[at + 4], v[at + 5]),
        ) {
            (Some(r), Some(g), Some(b)) => Some((r, g, b)),
            _ => None,
        }
    } else {
        None
    }
}

// ---- projection into a mode ----

/// The 16 reference colours: black, red, green, yellow, blue, magenta, cyan, light
/// grey, then the bright variants.
pub const ANSI: [(u8, u8, u8); 16] = [
    (0, 0, 0),
    (170, 0, 0),
    (0, 170, 0),
    (170, 85, 0),
    (0, 0, 170),
    (170, 0, 170),
    (0, 170, 170),
    (170, 170, 170),
    (85, 85, 85),
    (255, 85, 85),
    (85, 255, 85),
    (255, 255, 85),
    (85, 85, 255),
    (255, 85, 255),
    (85, 255, 255),
    (255, 255, 255),
];

/// The squared distance of a colour to the reference colour `i`.
pub open spec fn ansi_distance(r: u8, g: u8, b: u8, i: int) -> int {
    let a = ANSI@[i];
    (r - a.0) * (r - a.0) + (g - a.1) * (g - a.1) + (b - a.2) * (b - a.2)
}

/// The nearest of the first `n` reference colours, the first where several are.
pub open spec fn nearest_ansi(r: u8, g: u8, b: u8, n: int) -> int
    decreases n,
{
    if n <= 1 {
        0
    } else {
        let best = nearest_ansi(r, g, b, n - 1);
        if ansi_distance(r, g, b, n - 1) < ansi_distance(r, g, b, best) {
            n - 1
        } else {
            best
        }
    }
}

/// The square of the distance between two channels.
fn squared(x: u8, y: u8) -> (r: i32)
    ensures
        r == (x - y) * (x - y),
        0 <= r <= 65025,
{
    let d: i32 = x as i32 - y as i32;
    assert(0 <= d * d <= 65025) by (nonlinear_arith)
        requires
            -255 <= d <= 255,
    ;
    d * d
}

/// Snap a colour to the nearest of the 16 reference entries.
fn rgb_to_16(r: u8, g: u8, b: u8) -> (at: u8)
    ensures
        at == nearest_ansi(r, g, b, 16),
{
    let mut best: usize = 0;
    let mut bd: i32 = squared(r, ANSI[0].0) + squared(g, ANSI[0].1) + squared(b, ANSI[0].2);
    let mut i: usize = 1;
    while i < 16
        invariant
            1 <= i <= 16,
            best < i,
            best == nearest_ansi(r, g, b, i as int),
            bd == ansi_distance(r, g, b, best as int),
        decreases 16 - i,
    {
        let a = ANSI[i];
        let d: i32 = squared(r, a.0) + squared(g, a.1) + squared(b, a.2);
        if d < bd {
            bd = d;
            best = i;
        }
        i += 1;
    }
    best as u8
}

/// The channel of step `i` of the colour cube.
pub open spec fn cube_level(i: int) -> int {
    if i <= 0 {
        0
    } else {
        55 + 40 * i
    }
}

/// The entries of the 256-colour table that have a fixed colour: the 24 greys of the
/// ramp, then the 6 by 6 by 6 cube.
pub open spec fn entry_color(k: int) -> (int, int, int) {
    if k < 24 {
        (8 + 10 * k, 8 + 10 * k, 8 + 10 * k)
    } else {
        (cube_level((k - 24) / 36), cube_level((k - 24) / 6 % 6), cube_level((k - 24) % 6))
    }
}

/// The squared distance of a colour to the entry `k`.
pub open spec fn entry_distance(r: u8, g: u8, b: u8, k: int) -> int {
    let e = entry_color(k);
    (r - e.0) * (r - e.0) + (g - e.1) * (g - e.1) + (b - e.2) * (b - e.2)
}

/// The nearest of the first `n` entries, the first where several are: a grey of the
/// ramp is preferred.
pub open spec fn nearest_entry(r: u8, g: u8, b: u8, n: int) -> int
    decreases n,
{
    if n <= 1 {
        0
    } else {
        let best = nearest_entry(r, g, b, n - 1);
        if entry_distance(r, g, b, n - 1) < entry_distance(r, g, b, best) {
            n - 1
        } else {
            best
        }
    }
}

/// The index in the 256-colour table of the entry nearest to a colour.
pub open spec fn index_256(r: u8, g: u8, b: u8) -> int {
    let k = nearest_entry(r, g, b, 240);
    if k < 24 {
        232 + k
    } else {
        16 + (k - 24)
    }
}

/// The channel of step `i` of the colour cube.
fn cube_channel(i: u8) -> (r: u8)
    requires
        i < 6,
    ensures
        r == cube_level(i as int),
{
    if i == 0 {
        0
    } else {
        55 + 40 * i
    }
}

/// The squared distance of a colour to the entry `k`.
fn distance_to(r: u8, g: u8, b: u8, k: u8) -> (d: i32)
    requires
        k < 240,
    ensures
        d == entry_distance(r, g, b, k as int),
        0 <= d <= 195075,
{
    if k < 24 {
        let v: u8 = 8 + 10 * k;
        squared(r, v) + squared(g, v) + squared(b, v)
    } else {
        let q: u8 = k - 24;
        let x: u8 = cube_channel(q / 36);
        let y: u8 = cube_channel(q / 6 % 6);
        let z: u8 = cube_channel(q % 6);
        squared(r, x) + squared(g, y) + squared(b, z)
    }
}

/// Nearest of the 6 by 6 by 6 cube and the 24-step grey ramp.
fn rgb_to_256(r: u8, g: u8, b: u8) -> (at: u8)
    ensures
        at == index_256(r, g, b),
{
    let mut best: u8 = 0;
    let mut bd: i32 = distance_to(r, g, b, 0);
    let mut k: u8 = 1;
    while k < 240
        invariant
            1 <= k <= 240,
            best < k,
            best == nearest_entry(r, g, b, k as int),
            bd == entry_distance(r, g, b, best as int),
        decreases 240 - k,
    {
        let d: i32 = distance_to(r, g, b, k);
        if d < bd {
            bd = d;
            best = k;
        }
        k += 1;
    }
    if best < 24 {
        232 + best
    } else {
        best - 8
    }
}

/// No entry of the cube or the ramp is nearer to a colour than the one it is shown as.
pub proof fn nearest_entry_is_nearest(r: u8, g: u8, b: u8, n: int)
    requires
        1 <= n,
    ensures
        0 <= nearest_entry(r, g, b, n) < n,
        forall|k: int|
            0 <= k < n ==> entry_distance(r, g, b, nearest_entry(r, g, b, n)) <= #[trigger]
            entry_distance(r, g, b, k),
    decreases n,
{
    if n > 1 {
        nearest_entry_is_nearest(r, g, b, n - 1);
    }
}

/// No reference colour is nearer to a colour than the one it is shown as.
pub proof fn nearest_ansi_is_nearest(r: u8, g: u8, b: u8, n: int)
    requires
        1 <= n,
    ensures
        0 <= nearest_ansi(r, g, b, n) < n,
        forall|i: int|
            0 <= i < n ==> ansi_distance(r, g, b, nearest_ansi(r, g, b, n)) <= #[trigger]
            ansi_distance(r, g, b, i),
    decreases n,
{
    if n > 1 {
        nearest_ansi_is_nearest(r, g, b, n - 1);
    }
}

/// A colour as the mode shows it.
pub open spec fn color_of(r: u8, g: u8, b: u8, mode: ColorMode) -> Color {
    match mode {
        ColorMode::TrueColor => Color::Rgb(r, g, b),
        ColorMode::Color256 => Color::Indexed(index_256(r, g, b) as u8),
        ColorMode::Color16 => Color::Indexed(nearest_ansi(r, g, b, 16) as u8),
    }
}

/// Project a colour into the active mode. Done once at load, never on the redraw
/// path.
pub fn to_color(r: u8, g: u8, b: u8, mode: ColorMode) -> (c: Color)
    ensures
        c == color_of(r, g, b, mode),
{
    match mode {
        ColorMode::TrueColor => Color::Rgb(r, g, b),
        ColorMode::Color256 => Color::Indexed(rgb_to_256(r, g, b)),
        ColorMode::Color16 => Color::Indexed(rgb_to_16(r, g, b)),
    }
}

// ---- gradients ----

/// A channel on the way from `x` to `y`, after `i` of `span` steps: the share of
/// the way, the distance covered and the sum each hold 24 binary digits; the whole
/// value nearest to the sum.
pub open spec fn mixed(x: u8, y: u8, i: nat, span: nat) -> int {
    let (m, p) = narrowed(i, span, 1, 0x80_0000);
    let far = coarsened(
        (if y >= x {
            y - x
        } else {
            x - y
        } * m) as nat,
        0x80_0000,
    );
    let exact = if y >= x {
        x * p + far
    } else if x * p >= far {
        x * p - far
    } else {
        0
    };
    let sum = coarsened(exact as nat, 0x80_0000);
    let v = (2 * sum + p) as int / (2 * p) as int;
    if v > 255 {
        255
    } else {
        v
    }
}

/// A channel on the way from `x` to `y`, after `i` of `span` steps.
fn lerp(x: u8, y: u8, i: u32, span: u32) -> (r: u8)
    requires
        i <= span,
        0 < span <= 100,
    ensures
        r == mixed(x, y, i as nat, span as nat),
{
    let top: u128 = 0x80_0000;
    let t = narrow(i as u128, span as u128, 1, top);
    let d: u128 = if y >= x {
        (y - x) as u128
    } else {
        (x - y) as u128
    };
    assert(d * t.m <= 255 * 0x100_0000) by (nonlinear_arith)
        requires
            d <= 255,
            t.m <= 0x100_0000,
    ;
    let far: u128 = coarsen(d * t.m, top);
    let p: u128 = t.p;
    assert(span * top <= 100 * 0x80_0000) by (nonlinear_arith)
        requires
            span <= 100,
            top == 0x80_0000,
    ;
    assert(x * p <= 255 * 0x1000_0000_0000) by (nonlinear_arith)
        requires
            x <= 255,
            p <= 0x1000_0000_0000,
    ;
    let whole: u128 = x as u128 * p;
    let exact: u128 = if y >= x {
        whole + far
    } else if whole >= far {
        whole - far
    } else {
        0
    };
    let sum: u128 = coarsen(exact, top);
    let v: u128 = (2 * sum + p) / (2 * p);
    if v > 255 {
        255
    } else {
        v as u8
    }
}

/// The colour at step `i` between two colours.
pub open spec fn mixed_color(
    a: (int, int, int),
    b: (int, int, int),
    i: nat,
    span: nat,
    mode: ColorMode,
) -> Color {
    color_of(
        mixed(a.0 as u8, b.0 as u8, i, span) as u8,
        mixed(a.1 as u8, b.1 as u8, i, span) as u8,
        mixed(a.2 as u8, b.2 as u8, i, span) as u8,
        mode,
    )
}

/// The gradient through `start`, `mid` and `end`, in 101 steps. Without a start
/// there is none; without an end it is the start throughout; without a middle the
/// way goes straight.
pub open spec fn gradient_of(
    start: Option<(int, int, int)>,
    mid: Option<(int, int, int)>,
    end: Option<(int, int, int)>,
    mode: ColorMode,
) -> Seq<Color> {
    match (start, end) {
        (None, _) => Seq::empty(),
        (Some(st), None) => Seq::new(
            101,
            |i: int| color_of(st.0 as u8, st.1 as u8, st.2 as u8, mode),
        ),
        (Some(st), Some(en)) => Seq::new(
            101,
            |i: int|
                match mid {
                    Some(mi) => if i <= 50 {
                        mixed_color(st, mi, i as nat, 50, mode)
                    } else {
                        mixed_color(mi, en, (i - 50) as nat, 50, mode)
                    },
                    None => mixed_color(st, en, i as nat, 100, mode),
                },
        ),
    }
}

fn mix(a: (u8, u8, u8), b: (u8, u8, u8), i: u32, span: u32, mode: ColorMode) -> (c: Color)
    requires
        i <= span,
        0 < span <= 100,
    ensures
        c == mixed_color(
            (a.0 as int, a.1 as int, a.2 as int),
            (b.0 as int, b.1 as int, b.2 as int),
            i as nat,
            span as nat,
            mode,
        ),
{
    to_color(
        lerp(a.0, b.0, i, span),
        lerp(a.1, b.1, i, span),
        lerp(a.2, b.2, i, span),
        mode,
    )
}

/// Linear interpolation of `start`, `mid` and `end` into a 101-entry table, split
/// at the middle.
fn build_gradient(
    start: Option<(u8, u8, u8)>,
    mid: Option<(u8, u8, u8)>,
    end: Option<(u8, u8, u8)>,
    mode: ColorMode,
) -> (r: Vec<Color>)
    ensures
        r@ == gradient_of(rgb_view(start), rgb_view(mid), rgb_view(end), mode),
{
    let ghost g = gradient_of(rgb_view(start), rgb_view(mid), rgb_view(end), mode);
    let mut out: Vec<Color> = Vec::new();
    let st = match start {
        Some(st) => st,
        None => {
            return out;
        },
    };
    let mut i: u32 = 0;
    while i < 101
        invariant
            i <= 101,
            start == Some(st),
            g == gradient_of(rgb_view(start), rgb_view(mid), rgb_view(end), mode),
            g.len() == 101,
            out@ == g.take(i as int),
        decreases 101 - i,
    {
        let c = match end {
            None => to_color(st.0, st.1, st.2, mode),
            Some(en) => match mid {
                Some(mi) => if i <= 50 {
                    mix(st, mi, i, 50, mode)
                } else {
                    mix(mi, en, i - 50, 50, mode)
                },
                None => mix(st, en, i, 100, mode),
            },
        };
        assert(c == g[i as int]);
        out.push(c);
        i += 1;
        assert(out@ =~= g.take(i as int));
    }
    assert(out@ =~= g);
    out
}

// ---- the theme ----

/// Whether a key names a stop of a gradient.
pub open spec fn is_stop(key: Seq<char>) -> bool {
    has_suffix(key, "_start"@) || has_suffix(key, "_mid"@) || has_suffix(key, "_end"@)
}

/// The colour that a palette gives to a key.
pub open spec fn palette_color(raw: RawTheme, mode: ColorMode, key: Seq<char>) -> Option<Color> {
    match raw_value(raw, key) {
        Some(v) => if is_stop(key) {
            None
        } else {
            match rgb_of(v) {
                Some(c) => Some(color_of(c.0 as u8, c.1 as u8, c.2 as u8, mode)),
                None => None,
            }
        },
        None => None,
    }
}

/// The stop of a gradient family.
pub open spec fn stop_of(raw: RawTheme, fam: Seq<char>, stop: Seq<char>) -> Option<
    (int, int, int),
> {
    match raw_value(raw, fam + stop) {
        Some(v) => rgb_of(v),
        None => None,
    }
}

/// The gradient of a family.
pub open spec fn family_gradient(raw: RawTheme, mode: ColorMode, fam: Seq<char>) -> Seq<Color> {
    gradient_of(
        stop_of(raw, fam, "_start"@),
        stop_of(raw, fam, "_mid"@),
        stop_of(raw, fam, "_end"@),
        mode,
    )
}

/// A resolved palette: base colours plus 101-entry gradient tables, all already
/// projected into the mode.
pub struct Theme {
    pub colors: Vec<(String, Color)>,
    /// One for each of the gradient families, in their order.
    pub gradients: Vec<Vec<Color>>,
    pub mode: ColorMode,
    pub name: String,
}

/// The first colour of a key in a list.
pub open spec fn listed_color(v: Seq<(Seq<char>, Color)>, key: Seq<char>) -> Option<Color>
    decreases v.len(),
{
    if v.len() == 0 {
        None
    } else if v[0].0 == key {
        Some(v[0].1)
    } else {
        listed_color(v.drop_first(), key)
    }
}

/// Keys with their colours.
pub open spec fn colors_view(v: Seq<(String, Color)>) -> Seq<(Seq<char>, Color)> {
    v.map_values(|p: (String, Color)| (p.0@, p.1))
}

/// Whether `fam` is the gradient family `i`.
pub open spec fn is_family_at(fam: Seq<char>, i: int) -> bool {
    0 <= i < 8 && GRADIENT_FAMILIES@[i]@ == fam
}

impl Theme {
    /// The base colour of a key; white where it has none.
    pub closed spec fn color(self, key: Seq<char>) -> Color {
        match listed_color(colors_view(self.colors@), key) {
            Some(c) => c,
            None => Color::Indexed(7),
        }
    }

    /// The table of a gradient family.
    pub closed spec fn ramp(self, fam: Seq<char>) -> Seq<Color> {
        if exists|i: int| is_family_at(fam, i) && i < self.gradients@.len() {
            let i = choose|i: int| is_family_at(fam, i) && i < self.gradients@.len();
            self.gradients@[i]@
        } else {
            Seq::empty()
        }
    }

    /// The colour of a gradient family at a percentage.
    pub open spec fn shade(self, fam: Seq<char>, pct: int) -> Color {
        let p = if pct < 100 {
            pct
        } else {
            100
        };
        if p < self.ramp(fam).len() {
            self.ramp(fam)[p]
        } else {
            self.color("main_fg"@)
        }
    }

    /// Whether the theme shows the palette `raw` in `mode`.
    pub open spec fn shows(self, raw: RawTheme, mode: ColorMode) -> bool {
        &&& self.mode == mode
        &&& forall|key: Seq<char>| #[trigger]
            self.color(key) == (match palette_color(raw, mode, key) {
                Some(c) => c,
                None => Color::Indexed(7),
            })
        &&& forall|i: int|
            0 <= i < 8 ==> self.ramp((#[trigger] GRADIENT_FAMILIES@[i])@) == family_gradient(
                raw,
                mode,
                GRADIENT_FAMILIES@[i]@,
            )
    }
}

proof fn families_differ()
    ensures
        forall|i: int, j: int|
            0 <= i < j < 8 ==> (#[trigger] GRADIENT_FAMILIES@[i])@ != (
            #[trigger] GRADIENT_FAMILIES@[j])@,
{
    reveal_strlit("cpu");
    reveal_strlit("free");
    reveal_strlit("cached");
    reveal_strlit("available");
    reveal_strlit("used");
    reveal_strlit("download");
    reveal_strlit("upload");
    reveal_strlit("process");
    assert("cpu"@.len() == 3 && "free"@.len() == 4 && "cached"@.len() == 6);
    assert("available"@.len() == 9 && "used"@.len() == 4 && "download"@.len() == 8);
    assert("upload"@.len() == 6 && "process"@.len() == 7);
    assert("free"@[0] == 'f' && "used"@[0] == 'u');
    assert("cached"@[0] == 'c' && "upload"@[0] == 'u');
    assert forall|i: int, j: int| 0 <= i < j < 8 implies (#[trigger] GRADIENT_FAMILIES@[i])@ != (
    #[trigger] GRADIENT_FAMILIES@[j])@ by {
        assert(i == 0 || i == 1 || i == 2 || i == 3 || i == 4 || i == 5 || i == 6);
        assert(j == 1 || j == 2 || j == 3 || j == 4 || j == 5 || j == 6 || j == 7);
    }
}

/// The first place of a key in a list of colours.
proof fn listed_color_push(v: Seq<(Seq<char>, Color)>, e: (Seq<char>, Color), key: Seq<char>)
    ensures
        listed_color(v.push(e), key) == (match listed_color(v, key) {
            Some(c) => Some(c),
            None => if e.0 == key {
                Some(e.1)
            } else {
                None
            },
        }),
    decreases v.len(),
{
    if v.len() == 0 {
        assert(v.push(e).drop_first() =~= Seq::empty());
    } else {
        assert(v.push(e).drop_first() =~= v.drop_first().push(e));
        listed_color_push(v.drop_first(), e, key);
    }
}

proof fn raw_value_is_listed(raw: RawTheme, key: Seq<char>)
    ensures
        raw_value(raw, key) is Some == exists|i: int| 0 <= i < raw.len() && (#[trigger] raw[i]).0
            == key,
    decreases raw.len(),
{
    if raw.len() > 0 {
        let d = raw.drop_last();
        raw_value_is_listed(d, key);
        if raw.last().0 == key {
            assert(raw[raw.len() - 1].0 == key);
        } else if raw_value(raw, key) is Some {
            let i = choose|i: int| 0 <= i < d.len() && (#[trigger] d[i]).0 == key;
            assert(raw[i].0 == key);
        } else if exists|i: int| 0 <= i < raw.len() && (#[trigger] raw[i]).0 == key {
            let i = choose|i: int| 0 <= i < raw.len() && (#[trigger] raw[i]).0 == key;
            assert(d[i].0 == key);
        }
    }
}

/// Whether a key names a stop of a gradient.
fn names_stop(key: &str) -> (r: bool)
    ensures
        r == is_stop(key@),
{
    ends_with(key, "_start") || ends_with(key, "_mid") || ends_with(key, "_end")
}

/// The colour that a palette gives to a key.
fn resolve(raw: &Vec<(String, String)>, mode: ColorMode, key: &str) -> (r: Option<Color>)
    ensures
        r == palette_color(raw_view(raw@), mode, key@),
{
    if names_stop(key) {
        return None;
    }
    match find_raw(raw, key) {
        Some(v) => match expand_rgb(v) {
            Some(c) => Some(to_color(c.0, c.1, c.2, mode)),
            None => None,
        },
        None => None,
    }
}

/// The stop of a gradient family.
fn find_stop(raw: &Vec<(String, String)>, fam: &str, stop: &str) -> (r: Option<(u8, u8, u8)>)
    ensures
        rgb_view(r) == stop_of(raw_view(raw@), fam@, stop@),
{
    match find_raw(raw, crate::text::cat(fam, stop).as_str()) {
        Some(v) => expand_rgb(v),
        None => None,
    }
}

/// The colours of a palette, in the order of its entries.
fn resolve_all(raw: &Vec<(String, String)>, mode: ColorMode) -> (r: Vec<(String, Color)>)
    ensures
        forall|key: Seq<char>|
            listed_color(colors_view(r@), key) == #[trigger] palette_color(
                raw_view(raw@),
                mode,
                key,
            ),
{
    let ghost all = raw_view(raw@);
    let mut out: Vec<(String, Color)> = Vec::new();
    let n: usize = raw.len();
    let mut i: usize = 0;
    while i < n
        invariant
            i <= n,
            n == raw@.len(),
            all == raw_view(raw@),
            forall|key: Seq<char>|
                listed_color(colors_view(out@), key) == (if exists|j: int|
                    0 <= j < i && (#[trigger] all[j]).0 == key {
                    #[trigger] palette_color(all, mode, key)
                } else {
                    None
                }),
        decreases n - i,
    {
        let ghost before = colors_view(out@);
        let key = raw[i].0.as_str();
        assert(all[i as int].0 == key@);
        let c = resolve(raw, mode, key);
        if let Some(color) = c {
            out.push((key.to_owned(), color));
            assert(colors_view(out@) =~= before.push((key@, color)));
        }
        proof {
            assert forall|k: Seq<char>|
                listed_color(colors_view(out@), k) == (if exists|j: int|
                    0 <= j < i + 1 && (#[trigger] all[j]).0 == k {
                    #[trigger] palette_color(all, mode, k)
                } else {
                    None
                }) by {
                if let Some(color) = c {
                    listed_color_push(before, (key@, color), k);
                }
                if k == key@ {
                    assert(all[i as int].0 == k);
                }
                if exists|j: int| 0 <= j < i + 1 && (#[trigger] all[j]).0 == k {
                    let j = choose|j: int| 0 <= j < i + 1 && (#[trigger] all[j]).0 == k;
                    if j < i {
                        assert(0 <= j < i && all[j].0 == k);
                    }
                }
            }
        }
        i += 1;
    }
    proof {
        assert forall|key: Seq<char>|
            listed_color(colors_view(out@), key) == #[trigger] palette_color(all, mode, key) by {
            raw_value_is_listed(all, key);
            if exists|j: int| 0 <= j < all.len() && (#[trigger] all[j]).0 == key {
                let j = choose|j: int| 0 <= j < all.len() && (#[trigger] all[j]).0 == key;
                assert(0 <= j < n && all[j].0 == key);
            }
        }
    }
    out
}

/// Owned entries of a table.
fn owned_table(t: &[(&'static str, &'static str)]) -> (r: Vec<(String, String)>)
    ensures
        raw_view(r@) == table(t@),
{
    let mut raw: Vec<(String, String)> = Vec::new();
    add_table(&mut raw, t);
    assert(raw_view(raw@) =~= table(t@));
    raw
}

impl Theme {
    fn from_raw(name: &str, raw: &Vec<(String, String)>, mode: ColorMode) -> (r: Theme)
        ensures
            r.shows(raw_view(raw@), mode),
            r.name@ == name@,
    {
        let ghost all = raw_view(raw@);
        let mut gradients: Vec<Vec<Color>> = Vec::new();
        let mut i: usize = 0;
        while i < 8
            invariant
                i <= 8,
                all == raw_view(raw@),
                gradients@.len() == i,
                forall|j: int|
                    0 <= j < i ==> (#[trigger] gradients@[j])@ == family_gradient(
                        all,
                        mode,
                        GRADIENT_FAMILIES@[j]@,
                    ),
            decreases 8 - i,
        {
            let fam = GRADIENT_FAMILIES[i];
            let start = find_stop(raw, fam, "_start");
            let mid = find_stop(raw, fam, "_mid");
            let end = find_stop(raw, fam, "_end");
            gradients.push(build_gradient(start, mid, end, mode));
            i += 1;
        }
        let r = Theme {
            colors: resolve_all(raw, mode),
            gradients,
            mode,
            name: name.to_owned(),
        };
        proof {
            assert forall|key: Seq<char>| #[trigger]
                r.color(key) == (match palette_color(all, mode, key) {
                    Some(c) => c,
                    None => Color::Indexed(7),
                }) by {
                assert(listed_color(colors_view(r.colors@), key) == palette_color(all, mode, key));
            }
            families_differ();
            assert forall|j: int| 0 <= j < 8 implies r.ramp((#[trigger] GRADIENT_FAMILIES@[j])@)
                == family_gradient(all, mode, GRADIENT_FAMILIES@[j]@) by {
                let fam = GRADIENT_FAMILIES@[j]@;
                assert(is_family_at(fam, j) && j < r.gradients@.len());
                let k = choose|k: int| is_family_at(fam, k) && k < r.gradients@.len();
                assert(k == j);
            }
        }
        r
    }

    /// Resolve a builtin theme: `Default`, `TTY` (16 colours), or a modern palette
    /// (`gruvbox-dark`, `tokyo-night`, `catppuccin-mocha`). With 16 colours it is
    /// always the TTY one.
    pub fn builtin(name: &str, mode: ColorMode) -> (r: Theme)
        ensures
            r.shows(builtin_raw(name@, mode), mode),
            r.name@ == name@,
    {
        let sixteen = match mode {
            ColorMode::Color16 => true,
            _ => false,
        };
        if same_but_case(name, "tty") || sixteen {
            return Theme::from_raw(name, &owned_table(TTY.as_slice()), mode);
        }
        let mut raw = owned_table(DEFAULT.as_slice());
        named_overlays(to_lowercase(name).as_str(), &mut raw);
        Theme::from_raw(name, &raw, mode)
    }

    /// Base colour lookup. Falls back to white so a missing key never crashes a draw
    /// call mid-frame.
    pub fn c(&self, key: &str) -> (r: Color)
        ensures
            r == self.color(key@),
    {
        let ghost all = colors_view(self.colors@);
        let n: usize = self.colors.len();
        let mut i: usize = 0;
        assert(all.skip(0) =~= all);
        while i < n
            invariant
                i <= n,
                n == self.colors@.len(),
                all == colors_view(self.colors@),
                listed_color(all, key@) == listed_color(all.skip(i as int), key@),
            decreases n - i,
        {
            assert(all.skip(i as int).drop_first() =~= all.skip(i + 1));
            if same(self.colors[i].0.as_str(), key) {
                return self.colors[i].1;
            }
            i += 1;
        }
        Color::Indexed(7)
    }

    /// Sample the gradient table `family` at percentage `pct`. Families with only a
    /// start fill the whole table with the start colour.
    pub fn grad(&self, family: &str, pct: usize) -> (r: Color)
        ensures
            r == self.shade(family@, pct as int),
    {
        let p: usize = if pct < 100 {
            pct
        } else {
            100
        };
        proof {
            families_differ();
        }
        let mut i: usize = 0;
        while i < 8
            invariant
                i <= 8,
                p == if pct < 100 {
                    pct
                } else {
                    100
                },
                forall|j: int| 0 <= j < i ==> !is_family_at(family@, j),
                forall|a: int, b: int|
                    0 <= a < b < 8 ==> (#[trigger] GRADIENT_FAMILIES@[a])@ != (
                    #[trigger] GRADIENT_FAMILIES@[b])@,
            decreases 8 - i,
        {
            if same(GRADIENT_FAMILIES[i], family) {
                proof {
                    assert(is_family_at(family@, i as int));
                    assert forall|k: int| is_family_at(family@, k) implies k == i by {
                        assert(GRADIENT_FAMILIES@[k]@ == GRADIENT_FAMILIES@[i as int]@);
                    }
                }
                if i < self.gradients.len() && p < self.gradients[i].len() {
                    return self.gradients[i][p];
                }
                return self.c("main_fg");
            }
            i += 1;
        }
        self.c("main_fg")
    }
}

// ---- theme files ----

/// `s` without the quotes around it.
pub open spec fn unquoted(s: Seq<char>) -> Seq<char>
    decreases s.len(),
{
    if s.len() > 0 && is_quote(s[0]) {
        unquoted(s.drop_first())
    } else if s.len() > 0 && is_quote(s.last()) {
        unquoted(s.drop_last())
    } else {
        s
    }
}

/// Whether `c` is a quote.
pub open spec fn is_quote(c: char) -> bool {
    c == '"' || c == '\''
}

/// The place of the first `=` or `:`.
pub open spec fn separator(s: Seq<char>, i: int) -> int
    decreases s.len() - i,
{
    if 0 <= i < s.len() && s[i] != '=' && s[i] != ':' {
        separator(s, i + 1)
    } else {
        i
    }
}

/// The key and the value that a line of a theme file sets. Blank lines and comments
/// set nothing, nor does a line without a separator.
pub open spec fn setting(line: Seq<char>) -> Option<(Seq<char>, Seq<char>)> {
    let t = trimmed(line);
    let at = separator(t, 0);
    if t.len() == 0 || t[0] == '#' || (t.len() > 1 && t[0] == '/' && t[1] == '/') || at
        >= t.len() {
        None
    } else {
        Some(
            (trimmed(t.take(at)), trimmed(unquoted(trimmed(t.skip(at + 1))))),
        )
    }
}

/// The settings of the lines from `pos` on.
pub open spec fn settings(s: Seq<char>, pos: int) -> RawTheme
    decreases s.len() - pos,
{
    if pos < 0 || pos >= s.len() {
        Seq::empty()
    } else {
        let e = line_stop(s, pos);
        let rest = if e < pos || e >= s.len() {
            Seq::empty()
        } else {
            settings(s, e + 1)
        };
        match setting(s.subrange(pos, e)) {
            Some(kv) => seq![kv] + rest,
            None => rest,
        }
    }
}

/// The end of the line that starts at `pos`.
pub open spec fn line_stop(s: Seq<char>, pos: int) -> int
    decreases s.len() - pos,
{
    if 0 <= pos < s.len() && s[pos] != '\n' {
        line_stop(s, pos + 1)
    } else {
        pos
    }
}

/// `s` without the quotes around it.
fn strip_quotes(s: &str) -> (r: String)
    ensures
        r@ == unquoted(s@),
{
    let v = chars_of(s);
    let mut a: usize = 0;
    let mut b: usize = v.len();
    assert(v@.subrange(0, v@.len() as int) =~= v@);
    while a < b && (v[a] == '"' || v[a] == '\'')
        invariant
            a <= b <= v@.len(),
            unquoted(v@) == unquoted(v@.subrange(a as int, b as int)),
        decreases b - a,
    {
        assert(v@.subrange(a as int, b as int).drop_first() =~= v@.subrange(a + 1, b as int));
        a += 1;
    }
    while a < b && (v[b - 1] == '"' || v[b - 1] == '\'')
        invariant
            a <= b <= v@.len(),
            a < b ==> !is_quote(v@[a as int]),
            unquoted(v@) == unquoted(v@.subrange(a as int, b as int)),
        decreases b - a,
    {
        assert(v@.subrange(a as int, b as int).drop_last() =~= v@.subrange(a as int, b - 1));
        b -= 1;
    }
    of_chars(&v, a, b)
}

/// The key and the value that a line of a theme file sets.
fn split_kv(line: &str) -> (r: Option<(String, String)>)
    ensures
        setting(line@) == (match r {
            Some(kv) => Some((kv.0@, kv.1@)),
            None => None,
        }),
{
    let t = trim(line);
    let v = chars_of(t.as_str());
    let n: usize = v.len();
    if n == 0 || v[0] == '#' || (n > 1 && v[0] == '/' && v[1] == '/') {
        return None;
    }
    let mut at: usize = 0;
    while at < n && v[at] != '=' && v[at] != ':'
        invariant
            at <= n,
            n == v@.len(),
            separator(v@, 0) == separator(v@, at as int),
        decreases n - at,
    {
        at += 1;
    }
    if at >= n {
        return None;
    }
    let key = of_chars(&v, 0, at);
    let value = of_chars(&v, at + 1, n);
    assert(v@.subrange(0, at as int) =~= v@.take(at as int));
    assert(v@.subrange(at + 1, n as int) =~= v@.skip(at + 1));
    let bare = strip_quotes(trim(value.as_str()).as_str());
    Some((trim(key.as_str()), trim(bare.as_str())))
}

impl Theme {
    /// Parse a flat theme file (`key = "#rrggbb"` or `key: value`, `#` and `//` line
    /// comments), overlaying onto the default for any missing keys so a partial theme
    /// still renders.
    pub fn from_file(name: &str, contents: &str, mode: ColorMode) -> (r: Theme)
        ensures
            r.shows(table(DEFAULT@) + settings(contents@, 0), mode),
            r.name@ == name@,
    {
        let mut raw = owned_table(DEFAULT.as_slice());
        let ghost base = raw_view(raw@);
        let b = chars_of(contents);
        let n: usize = b.len();
        let mut pos: usize = 0;
        let ghost mut done: RawTheme = Seq::empty();
        assert(raw_view(raw@) =~= base + done);
        assert(settings(b@, 0) =~= done + settings(b@, 0));
        while pos < n
            invariant
                pos <= n,
                n == b@.len(),
                raw_view(raw@) == base + done,
                settings(b@, 0) == done + settings(b@, pos as int),
            decreases n - pos,
        {
            let mut e: usize = pos;
            while e < n && b[e] != '\n'
                invariant
                    pos <= e <= n,
                    n == b@.len(),
                    line_stop(b@, pos as int) == line_stop(b@, e as int),
                decreases n - e,
            {
                e += 1;
            }
            let line = of_chars(&b, pos, e);
            let ghost rest = if e >= n {
                Seq::empty()
            } else {
                settings(b@, e + 1)
            };
            let ghost before = raw@;
            match split_kv(line.as_str()) {
                Some(kv) => {
                    let ghost kvv = (kv.0@, kv.1@);
                    raw.push(kv);
                    proof {
                        assert(raw_view(raw@) =~= raw_view(before).push(kvv));
                        assert(done + (seq![kvv] + rest) =~= done.push(kvv) + rest);
                        assert(base + done.push(kvv) =~= (base + done).push(kvv));
                        done = done.push(kvv);
                    }
                },
                None => {},
            }
            pos = if e < n {
                e + 1
            } else {
                e
            };
            assert(settings(b@, pos as int) =~= rest);
        }
        assert(done + Seq::<(Seq<char>, Seq<char>)>::empty() =~= done);
        Theme::from_raw(name, &raw, mode)
    }
}

}
