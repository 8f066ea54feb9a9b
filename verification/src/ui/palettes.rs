//! What holds of the builtin palettes.
use crate::text::{space_char, space_end, trimmed, trimmed_end};
use crate::ui::theme::{hex_value, overlay_of, rgb_of, table, unhashed, RawTheme, CATPPUCCIN_MOCHA,
    DEFAULT, GRUVBOX_DARK, TOKYO_NIGHT, TTY};
use vstd::prelude::*;
use vstd::string::*;

verus! {

/// Whether every key of the default palette has an entry in `t`, in the same place, and
/// every entry is a colour.
pub open spec fn is_palette(t: RawTheme) -> bool {
    &&& t.len() == 40
    &&& forall|i: int| 0 <= i < 40 ==> (#[trigger] t[i]).0 == DEFAULT@[i].0@
    &&& forall|i: int| 0 <= i < 40 ==> rgb_of((#[trigger] t[i]).1) is Some
}

/// A `#` with one or three bytes in hexadecimal.
#[verifier::opaque]
spec fn is_written(s: Seq<char>) -> bool {
    &&& s.len() == 3 || s.len() == 7
    &&& s[0] == '#'
    &&& forall|i: int| 1 <= i < s.len() ==> hex_value(#[trigger] s[i]) is Some
}

proof fn written_is_color(s: Seq<char>)
    requires
        is_written(s),
    ensures
        rgb_of(s) is Some,
{
    reveal(is_written);
    assert(space_end(s, 0) == 0);
    assert(s.skip(0) =~= s);
    assert(hex_value(s[s.len() - 1]) is Some);
    assert(!space_char(s.last()));
    assert(trimmed(s) == s);
    let t = s.drop_first();
    assert(hex_value(s[1]) is Some);
    assert(unhashed(s) == t) by {
        assert(t[0] == s[1]);
        assert(unhashed(t) == t);
    }
    assert(t[0] == s[1] && t[1] == s[2]);
    assert(hex_value(s[2]) is Some);
    if s.len() == 7 {
        assert(hex_value(s[3]) is Some && hex_value(s[4]) is Some);
        assert(hex_value(s[5]) is Some && hex_value(s[6]) is Some);
    }
}

/// An entry for the key in place `i` that is written as a colour.
spec fn entry_holds(e: (&'static str, &'static str), i: int) -> bool {
    e.0@ == DEFAULT@[i].0@ && is_written(e.1@)
}

/// Three letters of a key by which the keys can be told apart.
spec fn letters(k: Seq<char>) -> (char, char, char) {
    (k[0], k[1], k[k.len() - 2])
}

/// The place of the key with the three letters.
spec fn place_by(m: (char, char, char)) -> int {
    if m == ('m', 'a', 'b') {
        0
    } else if m == ('m', 'a', 'f') {
        1
    } else if m == ('t', 'i', 'l') {
        2
    } else if m == ('h', 'i', 'f') {
        3
    } else if m == ('s', 'e', 'b') {
        4
    } else if m == ('s', 'e', 'f') {
        5
    } else if m == ('i', 'n', 'f') {
        6
    } else if m == ('g', 'r', 'x') {
        7
    } else if m == ('m', 'e', 'b') {
        8
    } else if m == ('p', 'r', 's') {
        9
    } else if m == ('c', 'p', 'o') {
        10
    } else if m == ('m', 'e', 'o') {
        11
    } else if m == ('n', 'e', 'o') {
        12
    } else if m == ('p', 'r', 'o') {
        13
    } else if m == ('d', 'i', 'n') {
        14
    } else if m == ('c', 'p', 'r') {
        15
    } else if m == ('c', 'p', 'i') {
        16
    } else if m == ('c', 'p', 'n') {
        17
    } else if m == ('f', 'r', 'r') {
        18
    } else if m == ('f', 'r', 'i') {
        19
    } else if m == ('f', 'r', 'n') {
        20
    } else if m == ('c', 'a', 'r') {
        21
    } else if m == ('c', 'a', 'i') {
        22
    } else if m == ('c', 'a', 'n') {
        23
    } else if m == ('a', 'v', 'r') {
        24
    } else if m == ('a', 'v', 'i') {
        25
    } else if m == ('a', 'v', 'n') {
        26
    } else if m == ('u', 's', 'r') {
        27
    } else if m == ('u', 's', 'i') {
        28
    } else if m == ('u', 's', 'n') {
        29
    } else if m == ('d', 'o', 'r') {
        30
    } else if m == ('d', 'o', 'i') {
        31
    } else if m == ('d', 'o', 'n') {
        32
    } else if m == ('u', 'p', 'r') {
        33
    } else if m == ('u', 'p', 'i') {
        34
    } else if m == ('u', 'p', 'n') {
        35
    } else if m == ('p', 'r', 'r') {
        36
    } else if m == ('p', 'r', 'i') {
        37
    } else if m == ('p', 'r', 'n') {
        38
    } else if m == ('p', 'r', 'b') {
        39
    } else {
        40
    }
}

/// The keys of the default palette differ from one another.
pub proof fn palette_keys_differ(i: int, j: int)
    requires
        0 <= i < j < 40,
    ensures
        DEFAULT@[i].0@ != DEFAULT@[j].0@,
{
    keys_0();
    keys_1();
    keys_2();
    keys_3();
    assert(place_by(letters(DEFAULT@[i].0@)) == i);
    assert(place_by(letters(DEFAULT@[j].0@)) == j);
}

proof fn keys_0()
    ensures
        forall|i: int| 0 <= i < 10 ==> place_by(letters((#[trigger] DEFAULT@[i]).0@)) == i,
{
    assert(place_by(letters(DEFAULT@[0].0@)) == 0) by {
        reveal_strlit("main_bg");
    }
    assert(place_by(letters(DEFAULT@[1].0@)) == 1) by {
        reveal_strlit("main_fg");
    }
    assert(place_by(letters(DEFAULT@[2].0@)) == 2) by {
        reveal_strlit("title");
    }
    assert(place_by(letters(DEFAULT@[3].0@)) == 3) by {
        reveal_strlit("hi_fg");
    }
    assert(place_by(letters(DEFAULT@[4].0@)) == 4) by {
        reveal_strlit("selected_bg");
    }
    assert(place_by(letters(DEFAULT@[5].0@)) == 5) by {
        reveal_strlit("selected_fg");
    }
    assert(place_by(letters(DEFAULT@[6].0@)) == 6) by {
        reveal_strlit("inactive_fg");
    }
    assert(place_by(letters(DEFAULT@[7].0@)) == 7) by {
        reveal_strlit("graph_text");
    }
    assert(place_by(letters(DEFAULT@[8].0@)) == 8) by {
        reveal_strlit("meter_bg");
    }
    assert(place_by(letters(DEFAULT@[9].0@)) == 9) by {
        reveal_strlit("proc_misc");
    }
    assert forall|i: int| 0 <= i < 10 implies place_by(letters((#[trigger] DEFAULT@[i]).0@)) == i by {
        assert(i == 0 || i == 1 || i == 2 || i == 3 || i == 4
            || i == 5 || i == 6 || i == 7 || i == 8 || i == 9);
    }
}

proof fn keys_1()
    ensures
        forall|i: int| 10 <= i < 20 ==> place_by(letters((#[trigger] DEFAULT@[i]).0@)) == i,
{
    assert(place_by(letters(DEFAULT@[10].0@)) == 10) by {
        reveal_strlit("cpu_box");
    }
    assert(place_by(letters(DEFAULT@[11].0@)) == 11) by {
        reveal_strlit("mem_box");
    }
    assert(place_by(letters(DEFAULT@[12].0@)) == 12) by {
        reveal_strlit("net_box");
    }
    assert(place_by(letters(DEFAULT@[13].0@)) == 13) by {
        reveal_strlit("proc_box");
    }
    assert(place_by(letters(DEFAULT@[14].0@)) == 14) by {
        reveal_strlit("div_line");
    }
    assert(place_by(letters(DEFAULT@[15].0@)) == 15) by {
        reveal_strlit("cpu_start");
    }
    assert(place_by(letters(DEFAULT@[16].0@)) == 16) by {
        reveal_strlit("cpu_mid");
    }
    assert(place_by(letters(DEFAULT@[17].0@)) == 17) by {
        reveal_strlit("cpu_end");
    }
    assert(place_by(letters(DEFAULT@[18].0@)) == 18) by {
        reveal_strlit("free_start");
    }
    assert(place_by(letters(DEFAULT@[19].0@)) == 19) by {
        reveal_strlit("free_mid");
    }
    assert forall|i: int| 10 <= i < 20 implies place_by(letters((#[trigger] DEFAULT@[i]).0@)) == i by {
        assert(i == 10 || i == 11 || i == 12 || i == 13 || i == 14
            || i == 15 || i == 16 || i == 17 || i == 18 || i == 19);
    }
}

proof fn keys_2()
    ensures
        forall|i: int| 20 <= i < 30 ==> place_by(letters((#[trigger] DEFAULT@[i]).0@)) == i,
{
    assert(place_by(letters(DEFAULT@[20].0@)) == 20) by {
        reveal_strlit("free_end");
    }
    assert(place_by(letters(DEFAULT@[21].0@)) == 21) by {
        reveal_strlit("cached_start");
    }
    assert(place_by(letters(DEFAULT@[22].0@)) == 22) by {
        reveal_strlit("cached_mid");
    }
    assert(place_by(letters(DEFAULT@[23].0@)) == 23) by {
        reveal_strlit("cached_end");
    }
    assert(place_by(letters(DEFAULT@[24].0@)) == 24) by {
        reveal_strlit("available_start");
    }
    assert(place_by(letters(DEFAULT@[25].0@)) == 25) by {
        reveal_strlit("available_mid");
    }
    assert(place_by(letters(DEFAULT@[26].0@)) == 26) by {
        reveal_strlit("available_end");
    }
    assert(place_by(letters(DEFAULT@[27].0@)) == 27) by {
        reveal_strlit("used_start");
    }
    assert(place_by(letters(DEFAULT@[28].0@)) == 28) by {
        reveal_strlit("used_mid");
    }
    assert(place_by(letters(DEFAULT@[29].0@)) == 29) by {
        reveal_strlit("used_end");
    }
    assert forall|i: int| 20 <= i < 30 implies place_by(letters((#[trigger] DEFAULT@[i]).0@)) == i by {
        assert(i == 20 || i == 21 || i == 22 || i == 23 || i == 24
            || i == 25 || i == 26 || i == 27 || i == 28 || i == 29);
    }
}

proof fn keys_3()
    ensures
        forall|i: int| 30 <= i < 40 ==> place_by(letters((#[trigger] DEFAULT@[i]).0@)) == i,
{
    assert(place_by(letters(DEFAULT@[30].0@)) == 30) by {
        reveal_strlit("download_start");
    }
    assert(place_by(letters(DEFAULT@[31].0@)) == 31) by {
        reveal_strlit("download_mid");
    }
    assert(place_by(letters(DEFAULT@[32].0@)) == 32) by {
        reveal_strlit("download_end");
    }
    assert(place_by(letters(DEFAULT@[33].0@)) == 33) by {
        reveal_strlit("upload_start");
    }
    assert(place_by(letters(DEFAULT@[34].0@)) == 34) by {
        reveal_strlit("upload_mid");
    }
    assert(place_by(letters(DEFAULT@[35].0@)) == 35) by {
        reveal_strlit("upload_end");
    }
    assert(place_by(letters(DEFAULT@[36].0@)) == 36) by {
        reveal_strlit("process_start");
    }
    assert(place_by(letters(DEFAULT@[37].0@)) == 37) by {
        reveal_strlit("process_mid");
    }
    assert(place_by(letters(DEFAULT@[38].0@)) == 38) by {
        reveal_strlit("process_end");
    }
    assert(place_by(letters(DEFAULT@[39].0@)) == 39) by {
        reveal_strlit("proc_pause_bg");
    }
    assert forall|i: int| 30 <= i < 40 implies place_by(letters((#[trigger] DEFAULT@[i]).0@)) == i by {
        assert(i == 30 || i == 31 || i == 32 || i == 33 || i == 34
            || i == 35 || i == 36 || i == 37 || i == 38 || i == 39);
    }
}

proof fn default_0()
    ensures
        forall|i: int| 0 <= i < 10 ==> entry_holds(#[trigger] DEFAULT@[i], i),
{
    assert({
        &&& is_written("#00"@)
        &&& is_written("#0de756"@)
        &&& is_written("#40"@)
        &&& is_written("#60"@)
        &&& is_written("#6a2f2f"@)
        &&& is_written("#b54040"@)
        &&& is_written("#cc"@)
        &&& is_written("#ee"@)
    }) by {
        reveal(is_written);
        reveal_strlit("#00");
        reveal_strlit("#0de756");
        reveal_strlit("#40");
        reveal_strlit("#60");
        reveal_strlit("#6a2f2f");
        reveal_strlit("#b54040");
        reveal_strlit("#cc");
        reveal_strlit("#ee");
    }
    assert(entry_holds(DEFAULT@[0], 0));
    assert(entry_holds(DEFAULT@[1], 1));
    assert(entry_holds(DEFAULT@[2], 2));
    assert(entry_holds(DEFAULT@[3], 3));
    assert(entry_holds(DEFAULT@[4], 4));
    assert(entry_holds(DEFAULT@[5], 5));
    assert(entry_holds(DEFAULT@[6], 6));
    assert(entry_holds(DEFAULT@[7], 7));
    assert(entry_holds(DEFAULT@[8], 8));
    assert(entry_holds(DEFAULT@[9], 9));
    assert forall|i: int| 0 <= i < 10 implies entry_holds(#[trigger] DEFAULT@[i], i) by {
        assert(i == 0 || i == 1 || i == 2 || i == 3 || i == 4
            || i == 5 || i == 6 || i == 7 || i == 8 || i == 9);
    }
}

proof fn default_1()
    ensures
        forall|i: int| 10 <= i < 20 ==> entry_holds(#[trigger] DEFAULT@[i], i),
{
    assert({
        &&& is_written("#30"@)
        &&& is_written("#384f21"@)
        &&& is_written("#556d59"@)
        &&& is_written("#5c588d"@)
        &&& is_written("#6c6c4b"@)
        &&& is_written("#77ca9b"@)
        &&& is_written("#805252"@)
        &&& is_written("#b5e685"@)
        &&& is_written("#cbc06c"@)
        &&& is_written("#dc4c4c"@)
    }) by {
        reveal(is_written);
        reveal_strlit("#30");
        reveal_strlit("#384f21");
        reveal_strlit("#556d59");
        reveal_strlit("#5c588d");
        reveal_strlit("#6c6c4b");
        reveal_strlit("#77ca9b");
        reveal_strlit("#805252");
        reveal_strlit("#b5e685");
        reveal_strlit("#cbc06c");
        reveal_strlit("#dc4c4c");
    }
    assert(entry_holds(DEFAULT@[10], 10));
    assert(entry_holds(DEFAULT@[11], 11));
    assert(entry_holds(DEFAULT@[12], 12));
    assert(entry_holds(DEFAULT@[13], 13));
    assert(entry_holds(DEFAULT@[14], 14));
    assert(entry_holds(DEFAULT@[15], 15));
    assert(entry_holds(DEFAULT@[16], 16));
    assert(entry_holds(DEFAULT@[17], 17));
    assert(entry_holds(DEFAULT@[18], 18));
    assert(entry_holds(DEFAULT@[19], 19));
    assert forall|i: int| 10 <= i < 20 implies entry_holds(#[trigger] DEFAULT@[i], i) by {
        assert(i == 10 || i == 11 || i == 12 || i == 13 || i == 14
            || i == 15 || i == 16 || i == 17 || i == 18 || i == 19);
    }
}

proof fn default_2()
    ensures
        forall|i: int| 20 <= i < 30 ==> entry_holds(#[trigger] DEFAULT@[i], i),
{
    assert({
        &&& is_written("#163350"@)
        &&& is_written("#26c5ff"@)
        &&& is_written("#4e3f0e"@)
        &&& is_written("#592b26"@)
        &&& is_written("#74e6fc"@)
        &&& is_written("#d9626d"@)
        &&& is_written("#dcff85"@)
        &&& is_written("#ff4769"@)
        &&& is_written("#ffb814"@)
        &&& is_written("#ffd77a"@)
    }) by {
        reveal(is_written);
        reveal_strlit("#163350");
        reveal_strlit("#26c5ff");
        reveal_strlit("#4e3f0e");
        reveal_strlit("#592b26");
        reveal_strlit("#74e6fc");
        reveal_strlit("#d9626d");
        reveal_strlit("#dcff85");
        reveal_strlit("#ff4769");
        reveal_strlit("#ffb814");
        reveal_strlit("#ffd77a");
    }
    assert(entry_holds(DEFAULT@[20], 20));
    assert(entry_holds(DEFAULT@[21], 21));
    assert(entry_holds(DEFAULT@[22], 22));
    assert(entry_holds(DEFAULT@[23], 23));
    assert(entry_holds(DEFAULT@[24], 24));
    assert(entry_holds(DEFAULT@[25], 25));
    assert(entry_holds(DEFAULT@[26], 26));
    assert(entry_holds(DEFAULT@[27], 27));
    assert(entry_holds(DEFAULT@[28], 28));
    assert(entry_holds(DEFAULT@[29], 29));
    assert forall|i: int| 20 <= i < 30 implies entry_holds(#[trigger] DEFAULT@[i], i) by {
        assert(i == 20 || i == 21 || i == 22 || i == 23 || i == 24
            || i == 25 || i == 26 || i == 27 || i == 28 || i == 29);
    }
}

proof fn default_3()
    ensures
        forall|i: int| 30 <= i < 40 ==> entry_holds(#[trigger] DEFAULT@[i], i),
{
    assert({
        &&& is_written("#291f75"@)
        &&& is_written("#4f43a3"@)
        &&& is_written("#620665"@)
        &&& is_written("#7d4180"@)
        &&& is_written("#80d0a3"@)
        &&& is_written("#b0a9de"@)
        &&& is_written("#b54040"@)
        &&& is_written("#d45454"@)
        &&& is_written("#dcafde"@)
        &&& is_written("#dcd179"@)
    }) by {
        reveal(is_written);
        reveal_strlit("#291f75");
        reveal_strlit("#4f43a3");
        reveal_strlit("#620665");
        reveal_strlit("#7d4180");
        reveal_strlit("#80d0a3");
        reveal_strlit("#b0a9de");
        reveal_strlit("#b54040");
        reveal_strlit("#d45454");
        reveal_strlit("#dcafde");
        reveal_strlit("#dcd179");
    }
    assert(entry_holds(DEFAULT@[30], 30));
    assert(entry_holds(DEFAULT@[31], 31));
    assert(entry_holds(DEFAULT@[32], 32));
    assert(entry_holds(DEFAULT@[33], 33));
    assert(entry_holds(DEFAULT@[34], 34));
    assert(entry_holds(DEFAULT@[35], 35));
    assert(entry_holds(DEFAULT@[36], 36));
    assert(entry_holds(DEFAULT@[37], 37));
    assert(entry_holds(DEFAULT@[38], 38));
    assert(entry_holds(DEFAULT@[39], 39));
    assert forall|i: int| 30 <= i < 40 implies entry_holds(#[trigger] DEFAULT@[i], i) by {
        assert(i == 30 || i == 31 || i == 32 || i == 33 || i == 34
            || i == 35 || i == 36 || i == 37 || i == 38 || i == 39);
    }
}

proof fn default_holds()
    ensures
        is_palette(table(DEFAULT@)),
{
    default_0();
    default_1();
    default_2();
    default_3();
    let t = table(DEFAULT@);
    assert forall|i: int| 0 <= i < 40 implies (#[trigger] t[i]).0 == DEFAULT@[i].0@ && rgb_of(
        t[i].1,
    ) is Some by {
        assert(entry_holds(DEFAULT@[i], i));
        written_is_color(DEFAULT@[i].1@);
    }
}

proof fn tty_0()
    ensures
        forall|i: int| 0 <= i < 10 ==> entry_holds(#[trigger] TTY@[i], i),
{
    assert({
        &&& is_written("#00"@)
        &&& is_written("#3a3a3a"@)
        &&& is_written("#585858"@)
        &&& is_written("#87d7af"@)
        &&& is_written("#b54040"@)
        &&& is_written("#c8c8c8"@)
    }) by {
        reveal(is_written);
        reveal_strlit("#00");
        reveal_strlit("#3a3a3a");
        reveal_strlit("#585858");
        reveal_strlit("#87d7af");
        reveal_strlit("#b54040");
        reveal_strlit("#c8c8c8");
    }
    assert(entry_holds(TTY@[0], 0));
    assert(entry_holds(TTY@[1], 1));
    assert(entry_holds(TTY@[2], 2));
    assert(entry_holds(TTY@[3], 3));
    assert(entry_holds(TTY@[4], 4));
    assert(entry_holds(TTY@[5], 5));
    assert(entry_holds(TTY@[6], 6));
    assert(entry_holds(TTY@[7], 7));
    assert(entry_holds(TTY@[8], 8));
    assert(entry_holds(TTY@[9], 9));
    assert forall|i: int| 0 <= i < 10 implies entry_holds(#[trigger] TTY@[i], i) by {
        assert(i == 0 || i == 1 || i == 2 || i == 3 || i == 4
            || i == 5 || i == 6 || i == 7 || i == 8 || i == 9);
    }
}

proof fn tty_1()
    ensures
        forall|i: int| 10 <= i < 20 ==> entry_holds(#[trigger] TTY@[i], i),
{
    assert({
        &&& is_written("#585858"@)
        &&& is_written("#5f8700"@)
        &&& is_written("#5faf87"@)
        &&& is_written("#87d75f"@)
        &&& is_written("#87d7af"@)
        &&& is_written("#d75f5f"@)
        &&& is_written("#d78787"@)
        &&& is_written("#d7afd7"@)
        &&& is_written("#d7d75f"@)
        &&& is_written("#d7d787"@)
    }) by {
        reveal(is_written);
        reveal_strlit("#585858");
        reveal_strlit("#5f8700");
        reveal_strlit("#5faf87");
        reveal_strlit("#87d75f");
        reveal_strlit("#87d7af");
        reveal_strlit("#d75f5f");
        reveal_strlit("#d78787");
        reveal_strlit("#d7afd7");
        reveal_strlit("#d7d75f");
        reveal_strlit("#d7d787");
    }
    assert(entry_holds(TTY@[10], 10));
    assert(entry_holds(TTY@[11], 11));
    assert(entry_holds(TTY@[12], 12));
    assert(entry_holds(TTY@[13], 13));
    assert(entry_holds(TTY@[14], 14));
    assert(entry_holds(TTY@[15], 15));
    assert(entry_holds(TTY@[16], 16));
    assert(entry_holds(TTY@[17], 17));
    assert(entry_holds(TTY@[18], 18));
    assert(entry_holds(TTY@[19], 19));
    assert forall|i: int| 10 <= i < 20 implies entry_holds(#[trigger] TTY@[i], i) by {
        assert(i == 10 || i == 11 || i == 12 || i == 13 || i == 14
            || i == 15 || i == 16 || i == 17 || i == 18 || i == 19);
    }
}

proof fn tty_2()
    ensures
        forall|i: int| 20 <= i < 30 ==> entry_holds(#[trigger] TTY@[i], i),
{
    assert({
        &&& is_written("#005f5f"@)
        &&& is_written("#00d7ff"@)
        &&& is_written("#5f0000"@)
        &&& is_written("#5f5f00"@)
        &&& is_written("#5fd7ff"@)
        &&& is_written("#d7ff5f"@)
        &&& is_written("#ff5f5f"@)
        &&& is_written("#ff5f87"@)
        &&& is_written("#ffaf00"@)
        &&& is_written("#ffd75f"@)
    }) by {
        reveal(is_written);
        reveal_strlit("#005f5f");
        reveal_strlit("#00d7ff");
        reveal_strlit("#5f0000");
        reveal_strlit("#5f5f00");
        reveal_strlit("#5fd7ff");
        reveal_strlit("#d7ff5f");
        reveal_strlit("#ff5f5f");
        reveal_strlit("#ff5f87");
        reveal_strlit("#ffaf00");
        reveal_strlit("#ffd75f");
    }
    assert(entry_holds(TTY@[20], 20));
    assert(entry_holds(TTY@[21], 21));
    assert(entry_holds(TTY@[22], 22));
    assert(entry_holds(TTY@[23], 23));
    assert(entry_holds(TTY@[24], 24));
    assert(entry_holds(TTY@[25], 25));
    assert(entry_holds(TTY@[26], 26));
    assert(entry_holds(TTY@[27], 27));
    assert(entry_holds(TTY@[28], 28));
    assert(entry_holds(TTY@[29], 29));
    assert forall|i: int| 20 <= i < 30 implies entry_holds(#[trigger] TTY@[i], i) by {
        assert(i == 20 || i == 21 || i == 22 || i == 23 || i == 24
            || i == 25 || i == 26 || i == 27 || i == 28 || i == 29);
    }
}

proof fn tty_3()
    ensures
        forall|i: int| 30 <= i < 40 ==> entry_holds(#[trigger] TTY@[i], i),
{
    assert({
        &&& is_written("#5f005f"@)
        &&& is_written("#5f5f87"@)
        &&& is_written("#5fd7af"@)
        &&& is_written("#875f87"@)
        &&& is_written("#8787d7"@)
        &&& is_written("#b54040"@)
        &&& is_written("#d75f5f"@)
        &&& is_written("#d7afd7"@)
        &&& is_written("#d7d75f"@)
        &&& is_written("#d7d7d7"@)
    }) by {
        reveal(is_written);
        reveal_strlit("#5f005f");
        reveal_strlit("#5f5f87");
        reveal_strlit("#5fd7af");
        reveal_strlit("#875f87");
        reveal_strlit("#8787d7");
        reveal_strlit("#b54040");
        reveal_strlit("#d75f5f");
        reveal_strlit("#d7afd7");
        reveal_strlit("#d7d75f");
        reveal_strlit("#d7d7d7");
    }
    assert(entry_holds(TTY@[30], 30));
    assert(entry_holds(TTY@[31], 31));
    assert(entry_holds(TTY@[32], 32));
    assert(entry_holds(TTY@[33], 33));
    assert(entry_holds(TTY@[34], 34));
    assert(entry_holds(TTY@[35], 35));
    assert(entry_holds(TTY@[36], 36));
    assert(entry_holds(TTY@[37], 37));
    assert(entry_holds(TTY@[38], 38));
    assert(entry_holds(TTY@[39], 39));
    assert forall|i: int| 30 <= i < 40 implies entry_holds(#[trigger] TTY@[i], i) by {
        assert(i == 30 || i == 31 || i == 32 || i == 33 || i == 34
            || i == 35 || i == 36 || i == 37 || i == 38 || i == 39);
    }
}

proof fn tty_holds()
    ensures
        is_palette(table(TTY@)),
{
    tty_0();
    tty_1();
    tty_2();
    tty_3();
    let t = table(TTY@);
    assert forall|i: int| 0 <= i < 40 implies (#[trigger] t[i]).0 == DEFAULT@[i].0@ && rgb_of(
        t[i].1,
    ) is Some by {
        assert(entry_holds(TTY@[i], i));
        written_is_color(TTY@[i].1@);
    }
}

proof fn gruvbox_dark_0()
    ensures
        forall|i: int| 0 <= i < 10 ==> entry_holds(#[trigger] GRUVBOX_DARK@[i], i),
{
    assert({
        &&& is_written("#282828"@)
        &&& is_written("#3c3836"@)
        &&& is_written("#504945"@)
        &&& is_written("#665c54"@)
        &&& is_written("#928374"@)
        &&& is_written("#b8bb26"@)
        &&& is_written("#ebdbb2"@)
        &&& is_written("#fb4934"@)
    }) by {
        reveal(is_written);
        reveal_strlit("#282828");
        reveal_strlit("#3c3836");
        reveal_strlit("#504945");
        reveal_strlit("#665c54");
        reveal_strlit("#928374");
        reveal_strlit("#b8bb26");
        reveal_strlit("#ebdbb2");
        reveal_strlit("#fb4934");
    }
    assert(entry_holds(GRUVBOX_DARK@[0], 0));
    assert(entry_holds(GRUVBOX_DARK@[1], 1));
    assert(entry_holds(GRUVBOX_DARK@[2], 2));
    assert(entry_holds(GRUVBOX_DARK@[3], 3));
    assert(entry_holds(GRUVBOX_DARK@[4], 4));
    assert(entry_holds(GRUVBOX_DARK@[5], 5));
    assert(entry_holds(GRUVBOX_DARK@[6], 6));
    assert(entry_holds(GRUVBOX_DARK@[7], 7));
    assert(entry_holds(GRUVBOX_DARK@[8], 8));
    assert(entry_holds(GRUVBOX_DARK@[9], 9));
    assert forall|i: int| 0 <= i < 10 implies entry_holds(#[trigger] GRUVBOX_DARK@[i], i) by {
        assert(i == 0 || i == 1 || i == 2 || i == 3 || i == 4
            || i == 5 || i == 6 || i == 7 || i == 8 || i == 9);
    }
}

proof fn gruvbox_dark_1()
    ensures
        forall|i: int| 10 <= i < 20 ==> entry_holds(#[trigger] GRUVBOX_DARK@[i], i),
{
    assert({
        &&& is_written("#3c3836"@)
        &&& is_written("#83a598"@)
        &&& is_written("#b8bb26"@)
        &&& is_written("#d3869b"@)
        &&& is_written("#fabd2f"@)
        &&& is_written("#fb4934"@)
    }) by {
        reveal(is_written);
        reveal_strlit("#3c3836");
        reveal_strlit("#83a598");
        reveal_strlit("#b8bb26");
        reveal_strlit("#d3869b");
        reveal_strlit("#fabd2f");
        reveal_strlit("#fb4934");
    }
    assert(entry_holds(GRUVBOX_DARK@[10], 10));
    assert(entry_holds(GRUVBOX_DARK@[11], 11));
    assert(entry_holds(GRUVBOX_DARK@[12], 12));
    assert(entry_holds(GRUVBOX_DARK@[13], 13));
    assert(entry_holds(GRUVBOX_DARK@[14], 14));
    assert(entry_holds(GRUVBOX_DARK@[15], 15));
    assert(entry_holds(GRUVBOX_DARK@[16], 16));
    assert(entry_holds(GRUVBOX_DARK@[17], 17));
    assert(entry_holds(GRUVBOX_DARK@[18], 18));
    assert(entry_holds(GRUVBOX_DARK@[19], 19));
    assert forall|i: int| 10 <= i < 20 implies entry_holds(#[trigger] GRUVBOX_DARK@[i], i) by {
        assert(i == 10 || i == 11 || i == 12 || i == 13 || i == 14
            || i == 15 || i == 16 || i == 17 || i == 18 || i == 19);
    }
}

proof fn gruvbox_dark_2()
    ensures
        forall|i: int| 20 <= i < 30 ==> entry_holds(#[trigger] GRUVBOX_DARK@[i], i),
{
    assert({
        &&& is_written("#076678"@)
        &&& is_written("#3c3836"@)
        &&& is_written("#427b58"@)
        &&& is_written("#83a598"@)
        &&& is_written("#b8bb26"@)
        &&& is_written("#fabd2f"@)
        &&& is_written("#fb4934"@)
        &&& is_written("#fe8019"@)
    }) by {
        reveal(is_written);
        reveal_strlit("#076678");
        reveal_strlit("#3c3836");
        reveal_strlit("#427b58");
        reveal_strlit("#83a598");
        reveal_strlit("#b8bb26");
        reveal_strlit("#fabd2f");
        reveal_strlit("#fb4934");
        reveal_strlit("#fe8019");
    }
    assert(entry_holds(GRUVBOX_DARK@[20], 20));
    assert(entry_holds(GRUVBOX_DARK@[21], 21));
    assert(entry_holds(GRUVBOX_DARK@[22], 22));
    assert(entry_holds(GRUVBOX_DARK@[23], 23));
    assert(entry_holds(GRUVBOX_DARK@[24], 24));
    assert(entry_holds(GRUVBOX_DARK@[25], 25));
    assert(entry_holds(GRUVBOX_DARK@[26], 26));
    assert(entry_holds(GRUVBOX_DARK@[27], 27));
    assert(entry_holds(GRUVBOX_DARK@[28], 28));
    assert(entry_holds(GRUVBOX_DARK@[29], 29));
    assert forall|i: int| 20 <= i < 30 implies entry_holds(#[trigger] GRUVBOX_DARK@[i], i) by {
        assert(i == 20 || i == 21 || i == 22 || i == 23 || i == 24
            || i == 25 || i == 26 || i == 27 || i == 28 || i == 29);
    }
}

proof fn gruvbox_dark_3()
    ensures
        forall|i: int| 30 <= i < 40 ==> entry_holds(#[trigger] GRUVBOX_DARK@[i], i),
{
    assert({
        &&& is_written("#3c3836"@)
        &&& is_written("#83a598"@)
        &&& is_written("#b8bb26"@)
        &&& is_written("#d3869b"@)
        &&& is_written("#fabd2f"@)
        &&& is_written("#fb4934"@)
    }) by {
        reveal(is_written);
        reveal_strlit("#3c3836");
        reveal_strlit("#83a598");
        reveal_strlit("#b8bb26");
        reveal_strlit("#d3869b");
        reveal_strlit("#fabd2f");
        reveal_strlit("#fb4934");
    }
    assert(entry_holds(GRUVBOX_DARK@[30], 30));
    assert(entry_holds(GRUVBOX_DARK@[31], 31));
    assert(entry_holds(GRUVBOX_DARK@[32], 32));
    assert(entry_holds(GRUVBOX_DARK@[33], 33));
    assert(entry_holds(GRUVBOX_DARK@[34], 34));
    assert(entry_holds(GRUVBOX_DARK@[35], 35));
    assert(entry_holds(GRUVBOX_DARK@[36], 36));
    assert(entry_holds(GRUVBOX_DARK@[37], 37));
    assert(entry_holds(GRUVBOX_DARK@[38], 38));
    assert(entry_holds(GRUVBOX_DARK@[39], 39));
    assert forall|i: int| 30 <= i < 40 implies entry_holds(#[trigger] GRUVBOX_DARK@[i], i) by {
        assert(i == 30 || i == 31 || i == 32 || i == 33 || i == 34
            || i == 35 || i == 36 || i == 37 || i == 38 || i == 39);
    }
}

proof fn gruvbox_dark_holds()
    ensures
        is_palette(table(GRUVBOX_DARK@)),
{
    gruvbox_dark_0();
    gruvbox_dark_1();
    gruvbox_dark_2();
    gruvbox_dark_3();
    let t = table(GRUVBOX_DARK@);
    assert forall|i: int| 0 <= i < 40 implies (#[trigger] t[i]).0 == DEFAULT@[i].0@ && rgb_of(
        t[i].1,
    ) is Some by {
        assert(entry_holds(GRUVBOX_DARK@[i], i));
        written_is_color(GRUVBOX_DARK@[i].1@);
    }
}

proof fn tokyo_night_0()
    ensures
        forall|i: int| 0 <= i < 10 ==> entry_holds(#[trigger] TOKYO_NIGHT@[i], i),
{
    assert({
        &&& is_written("#1a1b26"@)
        &&& is_written("#292e42"@)
        &&& is_written("#33467c"@)
        &&& is_written("#3b4261"@)
        &&& is_written("#565f89"@)
        &&& is_written("#9ece6a"@)
        &&& is_written("#c0caf5"@)
        &&& is_written("#f7768e"@)
    }) by {
        reveal(is_written);
        reveal_strlit("#1a1b26");
        reveal_strlit("#292e42");
        reveal_strlit("#33467c");
        reveal_strlit("#3b4261");
        reveal_strlit("#565f89");
        reveal_strlit("#9ece6a");
        reveal_strlit("#c0caf5");
        reveal_strlit("#f7768e");
    }
    assert(entry_holds(TOKYO_NIGHT@[0], 0));
    assert(entry_holds(TOKYO_NIGHT@[1], 1));
    assert(entry_holds(TOKYO_NIGHT@[2], 2));
    assert(entry_holds(TOKYO_NIGHT@[3], 3));
    assert(entry_holds(TOKYO_NIGHT@[4], 4));
    assert(entry_holds(TOKYO_NIGHT@[5], 5));
    assert(entry_holds(TOKYO_NIGHT@[6], 6));
    assert(entry_holds(TOKYO_NIGHT@[7], 7));
    assert(entry_holds(TOKYO_NIGHT@[8], 8));
    assert(entry_holds(TOKYO_NIGHT@[9], 9));
    assert forall|i: int| 0 <= i < 10 implies entry_holds(#[trigger] TOKYO_NIGHT@[i], i) by {
        assert(i == 0 || i == 1 || i == 2 || i == 3 || i == 4
            || i == 5 || i == 6 || i == 7 || i == 8 || i == 9);
    }
}

proof fn tokyo_night_1()
    ensures
        forall|i: int| 10 <= i < 20 ==> entry_holds(#[trigger] TOKYO_NIGHT@[i], i),
{
    assert({
        &&& is_written("#292e42"@)
        &&& is_written("#7aa2f7"@)
        &&& is_written("#9ece6a"@)
        &&& is_written("#bb9af7"@)
        &&& is_written("#e0af68"@)
        &&& is_written("#f7768e"@)
    }) by {
        reveal(is_written);
        reveal_strlit("#292e42");
        reveal_strlit("#7aa2f7");
        reveal_strlit("#9ece6a");
        reveal_strlit("#bb9af7");
        reveal_strlit("#e0af68");
        reveal_strlit("#f7768e");
    }
    assert(entry_holds(TOKYO_NIGHT@[10], 10));
    assert(entry_holds(TOKYO_NIGHT@[11], 11));
    assert(entry_holds(TOKYO_NIGHT@[12], 12));
    assert(entry_holds(TOKYO_NIGHT@[13], 13));
    assert(entry_holds(TOKYO_NIGHT@[14], 14));
    assert(entry_holds(TOKYO_NIGHT@[15], 15));
    assert(entry_holds(TOKYO_NIGHT@[16], 16));
    assert(entry_holds(TOKYO_NIGHT@[17], 17));
    assert(entry_holds(TOKYO_NIGHT@[18], 18));
    assert(entry_holds(TOKYO_NIGHT@[19], 19));
    assert forall|i: int| 10 <= i < 20 implies entry_holds(#[trigger] TOKYO_NIGHT@[i], i) by {
        assert(i == 10 || i == 11 || i == 12 || i == 13 || i == 14
            || i == 15 || i == 16 || i == 17 || i == 18 || i == 19);
    }
}

proof fn tokyo_night_2()
    ensures
        forall|i: int| 20 <= i < 30 ==> entry_holds(#[trigger] TOKYO_NIGHT@[i], i),
{
    assert({
        &&& is_written("#15706a"@)
        &&& is_written("#164b5e"@)
        &&& is_written("#292e42"@)
        &&& is_written("#2ac3de"@)
        &&& is_written("#9ece6a"@)
        &&& is_written("#e0af68"@)
        &&& is_written("#f7768e"@)
        &&& is_written("#ff9e64"@)
    }) by {
        reveal(is_written);
        reveal_strlit("#15706a");
        reveal_strlit("#164b5e");
        reveal_strlit("#292e42");
        reveal_strlit("#2ac3de");
        reveal_strlit("#9ece6a");
        reveal_strlit("#e0af68");
        reveal_strlit("#f7768e");
        reveal_strlit("#ff9e64");
    }
    assert(entry_holds(TOKYO_NIGHT@[20], 20));
    assert(entry_holds(TOKYO_NIGHT@[21], 21));
    assert(entry_holds(TOKYO_NIGHT@[22], 22));
    assert(entry_holds(TOKYO_NIGHT@[23], 23));
    assert(entry_holds(TOKYO_NIGHT@[24], 24));
    assert(entry_holds(TOKYO_NIGHT@[25], 25));
    assert(entry_holds(TOKYO_NIGHT@[26], 26));
    assert(entry_holds(TOKYO_NIGHT@[27], 27));
    assert(entry_holds(TOKYO_NIGHT@[28], 28));
    assert(entry_holds(TOKYO_NIGHT@[29], 29));
    assert forall|i: int| 20 <= i < 30 implies entry_holds(#[trigger] TOKYO_NIGHT@[i], i) by {
        assert(i == 20 || i == 21 || i == 22 || i == 23 || i == 24
            || i == 25 || i == 26 || i == 27 || i == 28 || i == 29);
    }
}

proof fn tokyo_night_3()
    ensures
        forall|i: int| 30 <= i < 40 ==> entry_holds(#[trigger] TOKYO_NIGHT@[i], i),
{
    assert({
        &&& is_written("#292e42"@)
        &&& is_written("#7aa2f7"@)
        &&& is_written("#9ece6a"@)
        &&& is_written("#bb9af7"@)
        &&& is_written("#e0af68"@)
        &&& is_written("#f7768e"@)
    }) by {
        reveal(is_written);
        reveal_strlit("#292e42");
        reveal_strlit("#7aa2f7");
        reveal_strlit("#9ece6a");
        reveal_strlit("#bb9af7");
        reveal_strlit("#e0af68");
        reveal_strlit("#f7768e");
    }
    assert(entry_holds(TOKYO_NIGHT@[30], 30));
    assert(entry_holds(TOKYO_NIGHT@[31], 31));
    assert(entry_holds(TOKYO_NIGHT@[32], 32));
    assert(entry_holds(TOKYO_NIGHT@[33], 33));
    assert(entry_holds(TOKYO_NIGHT@[34], 34));
    assert(entry_holds(TOKYO_NIGHT@[35], 35));
    assert(entry_holds(TOKYO_NIGHT@[36], 36));
    assert(entry_holds(TOKYO_NIGHT@[37], 37));
    assert(entry_holds(TOKYO_NIGHT@[38], 38));
    assert(entry_holds(TOKYO_NIGHT@[39], 39));
    assert forall|i: int| 30 <= i < 40 implies entry_holds(#[trigger] TOKYO_NIGHT@[i], i) by {
        assert(i == 30 || i == 31 || i == 32 || i == 33 || i == 34
            || i == 35 || i == 36 || i == 37 || i == 38 || i == 39);
    }
}

proof fn tokyo_night_holds()
    ensures
        is_palette(table(TOKYO_NIGHT@)),
{
    tokyo_night_0();
    tokyo_night_1();
    tokyo_night_2();
    tokyo_night_3();
    let t = table(TOKYO_NIGHT@);
    assert forall|i: int| 0 <= i < 40 implies (#[trigger] t[i]).0 == DEFAULT@[i].0@ && rgb_of(
        t[i].1,
    ) is Some by {
        assert(entry_holds(TOKYO_NIGHT@[i], i));
        written_is_color(TOKYO_NIGHT@[i].1@);
    }
}

proof fn catppuccin_mocha_0()
    ensures
        forall|i: int| 0 <= i < 10 ==> entry_holds(#[trigger] CATPPUCCIN_MOCHA@[i], i),
{
    assert({
        &&& is_written("#1e1e2e"@)
        &&& is_written("#313244"@)
        &&& is_written("#45475a"@)
        &&& is_written("#6c7086"@)
        &&& is_written("#a6e3a1"@)
        &&& is_written("#cdd6f4"@)
        &&& is_written("#f38ba8"@)
    }) by {
        reveal(is_written);
        reveal_strlit("#1e1e2e");
        reveal_strlit("#313244");
        reveal_strlit("#45475a");
        reveal_strlit("#6c7086");
        reveal_strlit("#a6e3a1");
        reveal_strlit("#cdd6f4");
        reveal_strlit("#f38ba8");
    }
    assert(entry_holds(CATPPUCCIN_MOCHA@[0], 0));
    assert(entry_holds(CATPPUCCIN_MOCHA@[1], 1));
    assert(entry_holds(CATPPUCCIN_MOCHA@[2], 2));
    assert(entry_holds(CATPPUCCIN_MOCHA@[3], 3));
    assert(entry_holds(CATPPUCCIN_MOCHA@[4], 4));
    assert(entry_holds(CATPPUCCIN_MOCHA@[5], 5));
    assert(entry_holds(CATPPUCCIN_MOCHA@[6], 6));
    assert(entry_holds(CATPPUCCIN_MOCHA@[7], 7));
    assert(entry_holds(CATPPUCCIN_MOCHA@[8], 8));
    assert(entry_holds(CATPPUCCIN_MOCHA@[9], 9));
    assert forall|i: int| 0 <= i < 10 implies entry_holds(#[trigger] CATPPUCCIN_MOCHA@[i], i) by {
        assert(i == 0 || i == 1 || i == 2 || i == 3 || i == 4
            || i == 5 || i == 6 || i == 7 || i == 8 || i == 9);
    }
}

proof fn catppuccin_mocha_1()
    ensures
        forall|i: int| 10 <= i < 20 ==> entry_holds(#[trigger] CATPPUCCIN_MOCHA@[i], i),
{
    assert({
        &&& is_written("#313244"@)
        &&& is_written("#89b4fa"@)
        &&& is_written("#a6e3a1"@)
        &&& is_written("#cba6f7"@)
        &&& is_written("#f38ba8"@)
        &&& is_written("#f9e2af"@)
    }) by {
        reveal(is_written);
        reveal_strlit("#313244");
        reveal_strlit("#89b4fa");
        reveal_strlit("#a6e3a1");
        reveal_strlit("#cba6f7");
        reveal_strlit("#f38ba8");
        reveal_strlit("#f9e2af");
    }
    assert(entry_holds(CATPPUCCIN_MOCHA@[10], 10));
    assert(entry_holds(CATPPUCCIN_MOCHA@[11], 11));
    assert(entry_holds(CATPPUCCIN_MOCHA@[12], 12));
    assert(entry_holds(CATPPUCCIN_MOCHA@[13], 13));
    assert(entry_holds(CATPPUCCIN_MOCHA@[14], 14));
    assert(entry_holds(CATPPUCCIN_MOCHA@[15], 15));
    assert(entry_holds(CATPPUCCIN_MOCHA@[16], 16));
    assert(entry_holds(CATPPUCCIN_MOCHA@[17], 17));
    assert(entry_holds(CATPPUCCIN_MOCHA@[18], 18));
    assert(entry_holds(CATPPUCCIN_MOCHA@[19], 19));
    assert forall|i: int| 10 <= i < 20 implies entry_holds(#[trigger] CATPPUCCIN_MOCHA@[i], i) by {
        assert(i == 10 || i == 11 || i == 12 || i == 13 || i == 14
            || i == 15 || i == 16 || i == 17 || i == 18 || i == 19);
    }
}

proof fn catppuccin_mocha_2()
    ensures
        forall|i: int| 20 <= i < 30 ==> entry_holds(#[trigger] CATPPUCCIN_MOCHA@[i], i),
{
    assert({
        &&& is_written("#0c4a6e"@)
        &&& is_written("#2d6a5b"@)
        &&& is_written("#313244"@)
        &&& is_written("#89dceb"@)
        &&& is_written("#a6e3a1"@)
        &&& is_written("#f38ba8"@)
        &&& is_written("#f9e2af"@)
        &&& is_written("#fab387"@)
    }) by {
        reveal(is_written);
        reveal_strlit("#0c4a6e");
        reveal_strlit("#2d6a5b");
        reveal_strlit("#313244");
        reveal_strlit("#89dceb");
        reveal_strlit("#a6e3a1");
        reveal_strlit("#f38ba8");
        reveal_strlit("#f9e2af");
        reveal_strlit("#fab387");
    }
    assert(entry_holds(CATPPUCCIN_MOCHA@[20], 20));
    assert(entry_holds(CATPPUCCIN_MOCHA@[21], 21));
    assert(entry_holds(CATPPUCCIN_MOCHA@[22], 22));
    assert(entry_holds(CATPPUCCIN_MOCHA@[23], 23));
    assert(entry_holds(CATPPUCCIN_MOCHA@[24], 24));
    assert(entry_holds(CATPPUCCIN_MOCHA@[25], 25));
    assert(entry_holds(CATPPUCCIN_MOCHA@[26], 26));
    assert(entry_holds(CATPPUCCIN_MOCHA@[27], 27));
    assert(entry_holds(CATPPUCCIN_MOCHA@[28], 28));
    assert(entry_holds(CATPPUCCIN_MOCHA@[29], 29));
    assert forall|i: int| 20 <= i < 30 implies entry_holds(#[trigger] CATPPUCCIN_MOCHA@[i], i) by {
        assert(i == 20 || i == 21 || i == 22 || i == 23 || i == 24
            || i == 25 || i == 26 || i == 27 || i == 28 || i == 29);
    }
}

proof fn catppuccin_mocha_3()
    ensures
        forall|i: int| 30 <= i < 40 ==> entry_holds(#[trigger] CATPPUCCIN_MOCHA@[i], i),
{
    assert({
        &&& is_written("#313244"@)
        &&& is_written("#89b4fa"@)
        &&& is_written("#a6e3a1"@)
        &&& is_written("#cba6f7"@)
        &&& is_written("#f38ba8"@)
        &&& is_written("#f9e2af"@)
    }) by {
        reveal(is_written);
        reveal_strlit("#313244");
        reveal_strlit("#89b4fa");
        reveal_strlit("#a6e3a1");
        reveal_strlit("#cba6f7");
        reveal_strlit("#f38ba8");
        reveal_strlit("#f9e2af");
    }
    assert(entry_holds(CATPPUCCIN_MOCHA@[30], 30));
    assert(entry_holds(CATPPUCCIN_MOCHA@[31], 31));
    assert(entry_holds(CATPPUCCIN_MOCHA@[32], 32));
    assert(entry_holds(CATPPUCCIN_MOCHA@[33], 33));
    assert(entry_holds(CATPPUCCIN_MOCHA@[34], 34));
    assert(entry_holds(CATPPUCCIN_MOCHA@[35], 35));
    assert(entry_holds(CATPPUCCIN_MOCHA@[36], 36));
    assert(entry_holds(CATPPUCCIN_MOCHA@[37], 37));
    assert(entry_holds(CATPPUCCIN_MOCHA@[38], 38));
    assert(entry_holds(CATPPUCCIN_MOCHA@[39], 39));
    assert forall|i: int| 30 <= i < 40 implies entry_holds(#[trigger] CATPPUCCIN_MOCHA@[i], i) by {
        assert(i == 30 || i == 31 || i == 32 || i == 33 || i == 34
            || i == 35 || i == 36 || i == 37 || i == 38 || i == 39);
    }
}

proof fn catppuccin_mocha_holds()
    ensures
        is_palette(table(CATPPUCCIN_MOCHA@)),
{
    catppuccin_mocha_0();
    catppuccin_mocha_1();
    catppuccin_mocha_2();
    catppuccin_mocha_3();
    let t = table(CATPPUCCIN_MOCHA@);
    assert forall|i: int| 0 <= i < 40 implies (#[trigger] t[i]).0 == DEFAULT@[i].0@ && rgb_of(
        t[i].1,
    ) is Some by {
        assert(entry_holds(CATPPUCCIN_MOCHA@[i], i));
        written_is_color(CATPPUCCIN_MOCHA@[i].1@);
    }
}

/// A builtin palette other than the default and the 16-colour one goes by exactly one of
/// three names, in lower case; each of them gives a colour to every key.
pub proof fn palettes_are_complete(name: Seq<char>)
    ensures
        is_palette(table(DEFAULT@)),
        is_palette(table(TTY@)),
        if name == "gruvbox-dark"@ || name == "tokyo-night"@ || name == "catppuccin-mocha"@ {
            is_palette(overlay_of(name))
        } else {
            overlay_of(name).len() == 0
        },
{
    default_holds();
    tty_holds();
    gruvbox_dark_holds();
    tokyo_night_holds();
    catppuccin_mocha_holds();
}

}
