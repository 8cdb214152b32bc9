//! Punctuation marks.
use vstd::prelude::*;

verus! {

/// Punctuation of Europe and the Near East, with the signs of ASCII.
pub open spec fn western_mark(n: u32) -> bool {
    (0x21 <= n <= 0x2f) || (0x3a <= n <= 0x40) || (0x5b <= n <= 0x60) || (0x7b <= n <= 0x7e)
        || n == 0xa1 || n == 0xa7 || n == 0xab || (0xb6 <= n <= 0xb7) || n == 0xbb || n == 0xbf
        || n == 0x37e || n == 0x387 || (0x55a <= n <= 0x55f) || (0x589 <= n <= 0x58a)
        || n == 0x5be || n == 0x5c0 || n == 0x5c3 || n == 0x5c6 || (0x5f3 <= n <= 0x5f4)
        || (0x609 <= n <= 0x60a) || (0x60c <= n <= 0x60d) || n == 0x61b || (0x61d <= n <= 0x61f)
        || (0x66a <= n <= 0x66d) || n == 0x6d4
}

/// Punctuation of Syriac to the scripts of South Asia, Africa and America.
pub open spec fn scripts_mark(n: u32) -> bool {
    (0x700 <= n <= 0x70d) || (0x7f7 <= n <= 0x7f9) || (0x830 <= n <= 0x83e) || n == 0x85e
        || (0x964 <= n <= 0x965) || n == 0x970 || n == 0x9fd || n == 0xa76 || n == 0xaf0
        || n == 0xc77 || n == 0xc84 || n == 0xdf4 || n == 0xe4f || (0xe5a <= n <= 0xe5b)
        || (0xf04 <= n <= 0xf12) || n == 0xf14 || (0xf3a <= n <= 0xf3d) || n == 0xf85
        || (0xfd0 <= n <= 0xfd4) || (0xfd9 <= n <= 0xfda) || (0x104a <= n <= 0x104f)
        || n == 0x10fb || (0x1360 <= n <= 0x1368) || n == 0x1400 || n == 0x166e
        || (0x169b <= n <= 0x169c) || (0x16eb <= n <= 0x16ed) || (0x1735 <= n <= 0x1736)
        || (0x17d4 <= n <= 0x17d6) || (0x17d8 <= n <= 0x17da) || (0x1800 <= n <= 0x180a)
        || (0x1944 <= n <= 0x1945) || (0x1a1e <= n <= 0x1a1f) || (0x1aa0 <= n <= 0x1aa6)
        || (0x1aa8 <= n <= 0x1aad) || (0x1b5a <= n <= 0x1b60) || (0x1b7d <= n <= 0x1b7e)
        || (0x1bfc <= n <= 0x1bff) || (0x1c3b <= n <= 0x1c3f) || (0x1c7e <= n <= 0x1c7f)
        || (0x1cc0 <= n <= 0x1cc7) || n == 0x1cd3
}

/// Punctuation of no one script.
pub open spec fn general_mark(n: u32) -> bool {
    (0x2010 <= n <= 0x2027) || (0x2030 <= n <= 0x205e) || (0x207d <= n <= 0x207e)
        || (0x208d <= n <= 0x208e) || (0x2308 <= n <= 0x230b) || (0x2329 <= n <= 0x232a)
        || (0x2768 <= n <= 0x2775) || (0x27c5 <= n <= 0x27c6) || (0x27e6 <= n <= 0x27ef)
        || (0x2983 <= n <= 0x2998) || (0x29d8 <= n <= 0x29db) || (0x29fc <= n <= 0x29fd)
        || (0x2cf9 <= n <= 0x2cfc) || (0x2cfe <= n <= 0x2cff) || n == 0x2d70
        || (0x2e00 <= n <= 0x2e2e) || (0x2e30 <= n <= 0x2e4f) || (0x2e52 <= n <= 0x2e5d)
}

/// Punctuation of East Asia, with full-width forms.
pub open spec fn eastern_mark(n: u32) -> bool {
    (0x3001 <= n <= 0x3003) || (0x3008 <= n <= 0x301f) || n == 0x3030 || n == 0x303d
        || n == 0x30a0 || n == 0x30fb || (0xa4fe <= n <= 0xa4ff) || (0xa60d <= n <= 0xa60f)
        || n == 0xa673 || n == 0xa67e || (0xa6f2 <= n <= 0xa6f7) || (0xa874 <= n <= 0xa877)
        || (0xa8ce <= n <= 0xa8cf) || (0xa8f8 <= n <= 0xa8fa) || n == 0xa8fc
        || (0xa92e <= n <= 0xa92f) || n == 0xa95f || (0xa9c1 <= n <= 0xa9cd)
        || (0xa9de <= n <= 0xa9df) || (0xaa5c <= n <= 0xaa5f) || (0xaade <= n <= 0xaadf)
        || (0xaaf0 <= n <= 0xaaf1) || n == 0xabeb || (0xfd3e <= n <= 0xfd3f)
        || (0xfe10 <= n <= 0xfe19) || (0xfe30 <= n <= 0xfe52) || (0xfe54 <= n <= 0xfe61)
        || n == 0xfe63 || n == 0xfe68 || (0xfe6a <= n <= 0xfe6b) || (0xff01 <= n <= 0xff0f)
        || (0xff1a <= n <= 0xff20) || (0xff3b <= n <= 0xff40) || (0xff5b <= n <= 0xff65)
}

/// Punctuation of the supplementary planes.
pub open spec fn historic_mark(n: u32) -> bool {
    (0x10100 <= n <= 0x10102) || n == 0x1039f || n == 0x103d0 || n == 0x1056f || n == 0x10857
        || n == 0x1091f || n == 0x1093f || (0x10a50 <= n <= 0x10a58) || n == 0x10a7f
        || (0x10af0 <= n <= 0x10af6) || (0x10b39 <= n <= 0x10b3f) || (0x10b99 <= n <= 0x10b9c)
        || n == 0x10ead || (0x10f55 <= n <= 0x10f59) || (0x10f86 <= n <= 0x10f89)
        || (0x11047 <= n <= 0x1104d) || (0x110bb <= n <= 0x110bc) || (0x110be <= n <= 0x110c1)
        || (0x11140 <= n <= 0x11143) || (0x11174 <= n <= 0x11175) || (0x111c5 <= n <= 0x111c8)
        || n == 0x111cd || n == 0x111db || (0x111dd <= n <= 0x111df) || (0x11238 <= n <= 0x1123d)
        || n == 0x112a9 || (0x1144b <= n <= 0x1144f) || (0x1145a <= n <= 0x1145b) || n == 0x1145d
        || n == 0x114c6 || (0x115c1 <= n <= 0x115d7) || (0x11641 <= n <= 0x11643)
        || (0x11660 <= n <= 0x1166c) || n == 0x116b9 || (0x1173c <= n <= 0x1173e) || n == 0x1183b
        || (0x11944 <= n <= 0x11946) || n == 0x119e2 || (0x11a3f <= n <= 0x11a46)
        || (0x11a9a <= n <= 0x11a9c) || (0x11a9e <= n <= 0x11aa2) || (0x11c41 <= n <= 0x11c45)
        || (0x11c70 <= n <= 0x11c71) || (0x11ef7 <= n <= 0x11ef8) || n == 0x11fff
        || (0x12470 <= n <= 0x12474) || (0x12ff1 <= n <= 0x12ff2) || (0x16a6e <= n <= 0x16a6f)
        || n == 0x16af5 || (0x16b37 <= n <= 0x16b3b) || n == 0x16b44 || (0x16e97 <= n <= 0x16e9a)
        || n == 0x16fe2 || n == 0x1bc9f || (0x1da87 <= n <= 0x1da8b) || (0x1e95e <= n <= 0x1e95f)
}

/// A punctuation mark: a character that Unicode 14 counts as one, a sign of ASCII that
/// is neither letter nor digit, the full-width form of such a sign, or one of four
/// signs that stand among the marks of their blocks (U+2044, U+2052, U+3012, U+3013).
pub open spec fn is_punctuation(c: char) -> bool {
    let n = c as u32;
    western_mark(n) || scripts_mark(n) || general_mark(n) || eastern_mark(n) || historic_mark(n)
}

fn is_western_mark(n: u32) -> (r: bool)
    ensures
        r == western_mark(n),
{
    (0x21 <= n && n <= 0x2f) || (0x3a <= n && n <= 0x40) || (0x5b <= n && n <= 0x60)
        || (0x7b <= n && n <= 0x7e) || n == 0xa1 || n == 0xa7 || n == 0xab
        || (0xb6 <= n && n <= 0xb7) || n == 0xbb || n == 0xbf || n == 0x37e || n == 0x387
        || (0x55a <= n && n <= 0x55f) || (0x589 <= n && n <= 0x58a) || n == 0x5be || n == 0x5c0
        || n == 0x5c3 || n == 0x5c6 || (0x5f3 <= n && n <= 0x5f4) || (0x609 <= n && n <= 0x60a)
        || (0x60c <= n && n <= 0x60d) || n == 0x61b || (0x61d <= n && n <= 0x61f)
        || (0x66a <= n && n <= 0x66d) || n == 0x6d4
}

fn is_scripts_mark(n: u32) -> (r: bool)
    ensures
        r == scripts_mark(n),
{
    (0x700 <= n && n <= 0x70d) || (0x7f7 <= n && n <= 0x7f9) || (0x830 <= n && n <= 0x83e)
        || n == 0x85e || (0x964 <= n && n <= 0x965) || n == 0x970 || n == 0x9fd || n == 0xa76
        || n == 0xaf0 || n == 0xc77 || n == 0xc84 || n == 0xdf4 || n == 0xe4f
        || (0xe5a <= n && n <= 0xe5b) || (0xf04 <= n && n <= 0xf12) || n == 0xf14
        || (0xf3a <= n && n <= 0xf3d) || n == 0xf85 || (0xfd0 <= n && n <= 0xfd4)
        || (0xfd9 <= n && n <= 0xfda) || (0x104a <= n && n <= 0x104f) || n == 0x10fb
        || (0x1360 <= n && n <= 0x1368) || n == 0x1400 || n == 0x166e
        || (0x169b <= n && n <= 0x169c) || (0x16eb <= n && n <= 0x16ed)
        || (0x1735 <= n && n <= 0x1736) || (0x17d4 <= n && n <= 0x17d6)
        || (0x17d8 <= n && n <= 0x17da) || (0x1800 <= n && n <= 0x180a)
        || (0x1944 <= n && n <= 0x1945) || (0x1a1e <= n && n <= 0x1a1f)
        || (0x1aa0 <= n && n <= 0x1aa6) || (0x1aa8 <= n && n <= 0x1aad)
        || (0x1b5a <= n && n <= 0x1b60) || (0x1b7d <= n && n <= 0x1b7e)
        || (0x1bfc <= n && n <= 0x1bff) || (0x1c3b <= n && n <= 0x1c3f)
        || (0x1c7e <= n && n <= 0x1c7f) || (0x1cc0 <= n && n <= 0x1cc7) || n == 0x1cd3
}

fn is_general_mark(n: u32) -> (r: bool)
    ensures
        r == general_mark(n),
{
    (0x2010 <= n && n <= 0x2027) || (0x2030 <= n && n <= 0x205e) || (0x207d <= n && n <= 0x207e)
        || (0x208d <= n && n <= 0x208e) || (0x2308 <= n && n <= 0x230b)
        || (0x2329 <= n && n <= 0x232a) || (0x2768 <= n && n <= 0x2775)
        || (0x27c5 <= n && n <= 0x27c6) || (0x27e6 <= n && n <= 0x27ef)
        || (0x2983 <= n && n <= 0x2998) || (0x29d8 <= n && n <= 0x29db)
        || (0x29fc <= n && n <= 0x29fd) || (0x2cf9 <= n && n <= 0x2cfc)
        || (0x2cfe <= n && n <= 0x2cff) || n == 0x2d70 || (0x2e00 <= n && n <= 0x2e2e)
        || (0x2e30 <= n && n <= 0x2e4f) || (0x2e52 <= n && n <= 0x2e5d)
}

fn is_eastern_mark(n: u32) -> (r: bool)
    ensures
        r == eastern_mark(n),
{
    (0x3001 <= n && n <= 0x3003) || (0x3008 <= n && n <= 0x301f) || n == 0x3030 || n == 0x303d
        || n == 0x30a0 || n == 0x30fb || (0xa4fe <= n && n <= 0xa4ff)
        || (0xa60d <= n && n <= 0xa60f) || n == 0xa673 || n == 0xa67e
        || (0xa6f2 <= n && n <= 0xa6f7) || (0xa874 <= n && n <= 0xa877)
        || (0xa8ce <= n && n <= 0xa8cf) || (0xa8f8 <= n && n <= 0xa8fa) || n == 0xa8fc
        || (0xa92e <= n && n <= 0xa92f) || n == 0xa95f || (0xa9c1 <= n && n <= 0xa9cd)
        || (0xa9de <= n && n <= 0xa9df) || (0xaa5c <= n && n <= 0xaa5f)
        || (0xaade <= n && n <= 0xaadf) || (0xaaf0 <= n && n <= 0xaaf1) || n == 0xabeb
        || (0xfd3e <= n && n <= 0xfd3f) || (0xfe10 <= n && n <= 0xfe19)
        || (0xfe30 <= n && n <= 0xfe52) || (0xfe54 <= n && n <= 0xfe61) || n == 0xfe63
        || n == 0xfe68 || (0xfe6a <= n && n <= 0xfe6b) || (0xff01 <= n && n <= 0xff0f)
        || (0xff1a <= n && n <= 0xff20) || (0xff3b <= n && n <= 0xff40)
        || (0xff5b <= n && n <= 0xff65)
}

fn is_historic_mark(n: u32) -> (r: bool)
    ensures
        r == historic_mark(n),
{
    (0x10100 <= n && n <= 0x10102) || n == 0x1039f || n == 0x103d0 || n == 0x1056f || n == 0x10857
        || n == 0x1091f || n == 0x1093f || (0x10a50 <= n && n <= 0x10a58) || n == 0x10a7f
        || (0x10af0 <= n && n <= 0x10af6) || (0x10b39 <= n && n <= 0x10b3f)
        || (0x10b99 <= n && n <= 0x10b9c) || n == 0x10ead || (0x10f55 <= n && n <= 0x10f59)
        || (0x10f86 <= n && n <= 0x10f89) || (0x11047 <= n && n <= 0x1104d)
        || (0x110bb <= n && n <= 0x110bc) || (0x110be <= n && n <= 0x110c1)
        || (0x11140 <= n && n <= 0x11143) || (0x11174 <= n && n <= 0x11175)
        || (0x111c5 <= n && n <= 0x111c8) || n == 0x111cd || n == 0x111db
        || (0x111dd <= n && n <= 0x111df) || (0x11238 <= n && n <= 0x1123d) || n == 0x112a9
        || (0x1144b <= n && n <= 0x1144f) || (0x1145a <= n && n <= 0x1145b) || n == 0x1145d
        || n == 0x114c6 || (0x115c1 <= n && n <= 0x115d7) || (0x11641 <= n && n <= 0x11643)
        || (0x11660 <= n && n <= 0x1166c) || n == 0x116b9 || (0x1173c <= n && n <= 0x1173e)
        || n == 0x1183b || (0x11944 <= n && n <= 0x11946) || n == 0x119e2
        || (0x11a3f <= n && n <= 0x11a46) || (0x11a9a <= n && n <= 0x11a9c)
        || (0x11a9e <= n && n <= 0x11aa2) || (0x11c41 <= n && n <= 0x11c45)
        || (0x11c70 <= n && n <= 0x11c71) || (0x11ef7 <= n && n <= 0x11ef8) || n == 0x11fff
        || (0x12470 <= n && n <= 0x12474) || (0x12ff1 <= n && n <= 0x12ff2)
        || (0x16a6e <= n && n <= 0x16a6f) || n == 0x16af5 || (0x16b37 <= n && n <= 0x16b3b)
        || n == 0x16b44 || (0x16e97 <= n && n <= 0x16e9a) || n == 0x16fe2 || n == 0x1bc9f
        || (0x1da87 <= n && n <= 0x1da8b) || (0x1e95e <= n && n <= 0x1e95f)
}

/// Whether a character is a punctuation mark.
pub fn punctuation(c: char) -> (r: bool)
    ensures
        r == is_punctuation(c),
{
    let n: u32 = c as u32;
    is_western_mark(n) || is_scripts_mark(n) || is_general_mark(n) || is_eastern_mark(n)
        || is_historic_mark(n)
}

/// White space and letters and digits of ASCII are no punctuation.
pub proof fn lemma_words_are_no_punctuation(c: char)
    ensures
        crate::text::white_space(c) ==> !is_punctuation(c),
        'a' <= c <= 'z' || 'A' <= c <= 'Z' || '0' <= c <= '9' ==> !is_punctuation(c),
{
}

} // verus!
