//! The manifest line parser.
//!
//! One manifest line announces one distributable file:
//!
//! ```text
//! [<AccessLevel>< ,tab,->+]<Version>/<Arch>/<Product>/<Filename> <Size> bytes[ MD5:<Digest>]
//! ```
//!
//! The access level is optional; when present it must equal the run's
//! access level.  The version and architecture tokens must equal the run's.
//! A line that does not match the grammar, or matches it but fails one of
//! those three checks, is silently filtered out (`None`), not an error.
//!
//! The grammar is deterministic: every token is a maximal run of a fixed
//! character class, so a line has at most one reading.  `spec_parse_line`
//! states that reading; `make_update_item` computes it.

use vstd::prelude::*;

use crate::ascii;
use crate::ascii::COLON;
use crate::ascii::DIGIT_0;
use crate::ascii::DIGIT_5;
use crate::ascii::LOWER_B;
use crate::ascii::LOWER_E;
use crate::ascii::LOWER_S;
use crate::ascii::LOWER_T;
use crate::ascii::LOWER_Y;
use crate::ascii::SLASH;
use crate::ascii::UPPER_D;
use crate::ascii::UPPER_M;
use crate::ascii::is_blank;
use crate::ascii::is_digit;
use crate::ascii::is_filename_byte;
use crate::ascii::is_hex_digit;
use crate::ascii::is_level_sep;
use crate::ascii::is_product_byte;
use crate::ascii::is_version_byte;
use crate::ascii::LOWER_M;
use crate::ascii::LOWER_O;
use crate::ascii::LOWER_V;
use crate::ascii::UPPER_C;
use crate::ascii::UPPER_T;
use crate::ascii::hex_to_upper;
use crate::ascii::upper_hex_seq;
use crate::item::Arch;
use crate::item::ItemModel;
use crate::item::Level;
use crate::item::UpdateItem;
use crate::item::arch_bytes;
use crate::item::level_bytes;
use crate::num::dec_value;

verus! {

/// The character class of a version token.
pub open spec fn version_pred() -> spec_fn(u8) -> bool {
    |b: u8| is_version_byte(b)
}

/// The character class of a product token.
pub open spec fn product_pred() -> spec_fn(u8) -> bool {
    |b: u8| is_product_byte(b)
}

/// The character class of a filename token.
pub open spec fn filename_pred() -> spec_fn(u8) -> bool {
    |b: u8| is_filename_byte(b)
}

/// The character class of a size token.
pub open spec fn digit_pred() -> spec_fn(u8) -> bool {
    |b: u8| is_digit(b)
}

/// The character class of a digest token.
pub open spec fn hex_pred() -> spec_fn(u8) -> bool {
    |b: u8| is_hex_digit(b)
}

/// The character class of the separator after an access level.
pub open spec fn level_sep_pred() -> spec_fn(u8) -> bool {
    |b: u8| is_level_sep(b)
}

/// The end of the maximal run of bytes of class `p` that starts at `i`.
pub open spec fn scan(line: Seq<u8>, i: int, p: spec_fn(u8) -> bool) -> int
    decreases line.len() - i,
{
    if i < line.len() && p(line[i]) {
        scan(line, i + 1, p)
    } else {
        i
    }
}

/// What `scan` returns: a position no earlier than `i`, no later than the
/// line's end, with every byte of the run in the class and the byte after
/// the run (if any) outside it.
pub proof fn lemma_scan_props(line: Seq<u8>, i: int, p: spec_fn(u8) -> bool)
    requires
        0 <= i <= line.len(),
    ensures
        i <= scan(line, i, p) <= line.len(),
        forall|k: int| i <= k < scan(line, i, p) ==> p(line[k]),
        scan(line, i, p) < line.len() ==> !p(line[scan(line, i, p)]),
    decreases line.len() - i,
{
    if i < line.len() && p(line[i]) {
        lemma_scan_props(line, i + 1, p);
    }
}

/// A run of class bytes over `[i, j)` whose boundary `j` is the line's end
/// or a byte outside the class is exactly what `scan` finds.
pub proof fn lemma_scan_exact(line: Seq<u8>, i: int, j: int, p: spec_fn(u8) -> bool)
    requires
        0 <= i <= j <= line.len(),
        forall|k: int| i <= k < j ==> p(line[k]),
        j < line.len() ==> !p(line[j]),
    ensures
        scan(line, i, p) == j,
    decreases j - i,
{
    if i < j {
        lemma_scan_exact(line, i + 1, j, p);
    }
}

fn scan_version(line: &Vec<u8>, start: usize) -> (r: usize)
    requires
        start <= line@.len(),
    ensures
        r as int == scan(line@, start as int, version_pred()),
        start <= r <= line@.len(),
{
    let mut i = start;
    while i < line.len() && ascii::version_byte(line[i])
        invariant
            start <= i <= line@.len(),
            scan(line@, start as int, version_pred()) == scan(line@, i as int, version_pred()),
        decreases line@.len() - i,
    {
        i = i + 1;
    }
    proof {
        lemma_scan_props(line@, start as int, version_pred());
    }
    i
}

fn scan_product(line: &Vec<u8>, start: usize) -> (r: usize)
    requires
        start <= line@.len(),
    ensures
        r as int == scan(line@, start as int, product_pred()),
        start <= r <= line@.len(),
{
    let mut i = start;
    while i < line.len() && ascii::product_byte(line[i])
        invariant
            start <= i <= line@.len(),
            scan(line@, start as int, product_pred()) == scan(line@, i as int, product_pred()),
        decreases line@.len() - i,
    {
        i = i + 1;
    }
    proof {
        lemma_scan_props(line@, start as int, product_pred());
    }
    i
}

fn scan_filename(line: &Vec<u8>, start: usize) -> (r: usize)
    requires
        start <= line@.len(),
    ensures
        r as int == scan(line@, start as int, filename_pred()),
        start <= r <= line@.len(),
{
    let mut i = start;
    while i < line.len() && ascii::filename_byte(line[i])
        invariant
            start <= i <= line@.len(),
            scan(line@, start as int, filename_pred()) == scan(line@, i as int, filename_pred()),
        decreases line@.len() - i,
    {
        i = i + 1;
    }
    proof {
        lemma_scan_props(line@, start as int, filename_pred());
    }
    i
}

fn scan_digits(line: &Vec<u8>, start: usize) -> (r: usize)
    requires
        start <= line@.len(),
    ensures
        r as int == scan(line@, start as int, digit_pred()),
        start <= r <= line@.len(),
{
    let mut i = start;
    while i < line.len() && ascii::digit(line[i])
        invariant
            start <= i <= line@.len(),
            scan(line@, start as int, digit_pred()) == scan(line@, i as int, digit_pred()),
        decreases line@.len() - i,
    {
        i = i + 1;
    }
    proof {
        lemma_scan_props(line@, start as int, digit_pred());
    }
    i
}

fn scan_hex(line: &Vec<u8>, start: usize) -> (r: usize)
    requires
        start <= line@.len(),
    ensures
        r as int == scan(line@, start as int, hex_pred()),
        start <= r <= line@.len(),
{
    let mut i = start;
    while i < line.len() && ascii::hex_digit(line[i])
        invariant
            start <= i <= line@.len(),
            scan(line@, start as int, hex_pred()) == scan(line@, i as int, hex_pred()),
        decreases line@.len() - i,
    {
        i = i + 1;
    }
    proof {
        lemma_scan_props(line@, start as int, hex_pred());
    }
    i
}

/// The literal word `bytes`.
pub open spec fn bytes_word() -> Seq<u8> {
    seq![LOWER_B, LOWER_Y, LOWER_T, LOWER_E, LOWER_S]
}

/// The literal token `MD5:`.
pub open spec fn md5_marker() -> Seq<u8> {
    seq![UPPER_M, UPPER_D, DIGIT_5, COLON]
}

/// Copies `line[a..b]` into a fresh vector.
fn sub_bytes(line: &Vec<u8>, a: usize, b: usize) -> (r: Vec<u8>)
    requires
        a <= b <= line@.len(),
    ensures
        r@ == line@.subrange(a as int, b as int),
{
    let mut r: Vec<u8> = Vec::new();
    let mut i = a;
    while i < b
        invariant
            a <= i <= b <= line@.len(),
            r@ =~= line@.subrange(a as int, i as int),
        decreases b - i,
    {
        r.push(line[i]);
        i = i + 1;
    }
    proof {
        assert(r@ =~= line@.subrange(a as int, b as int));
    }
    r
}

/// Does `pat` occur in `line` at position `start`?
fn range_matches(line: &Vec<u8>, start: usize, pat: &Vec<u8>) -> (r: bool)
    requires
        start <= line@.len(),
    ensures
        r == (start + pat@.len() <= line@.len() && line@.subrange(
            start as int,
            start as int + pat@.len(),
        ) == pat@),
{
    if pat.len() > line.len() - start {
        return false;
    }
    let mut i: usize = 0;
    while i < pat.len()
        invariant
            0 <= i <= pat@.len(),
            start + pat@.len() <= line@.len(),
            line@.len() <= usize::MAX,
            forall|k: int| 0 <= k < i ==> line@[start + k] == pat@[k],
        decreases pat@.len() - i,
    {
        if line[start + i] != pat[i] {
            return false;
        }
        i = i + 1;
    }
    proof {
        assert(line@.subrange(start as int, start as int + pat@.len()) =~= pat@);
    }
    true
}

/// Reads the decimal digit run `line[a..b]` as a `u32`; `None` when the
/// value does not fit.
fn parse_size(line: &Vec<u8>, a: usize, b: usize) -> (r: Option<u32>)
    requires
        a <= b <= line@.len(),
        forall|k: int| a <= k < b ==> is_digit(line@[k]),
    ensures
        (match r {
            Some(v) => v as int == dec_value(line@.subrange(a as int, b as int)) && dec_value(
                line@.subrange(a as int, b as int),
            ) <= u32::MAX,
            None => dec_value(line@.subrange(a as int, b as int)) > u32::MAX,
        }),
{
    let ghost whole = line@.subrange(a as int, b as int);
    let mut acc: u32 = 0;
    let mut i = a;
    while i < b
        invariant
            a <= i <= b <= line@.len(),
            forall|k: int| a <= k < b ==> is_digit(line@[k]),
            whole == line@.subrange(a as int, b as int),
            acc as int == dec_value(line@.subrange(a as int, i as int)),
        decreases b - i,
    {
        let d: u8 = line[i] - DIGIT_0;
        let wide: u64 = acc as u64 * 10 + d as u64;
        proof {
            assert(line@.subrange(a as int, i + 1) =~= line@.subrange(a as int, i as int).push(
                line@[i as int],
            ));
            crate::num::lemma_dec_value_push(line@.subrange(a as int, i as int), line@[i as int]);
        }
        if wide > 0xffff_ffffu64 {
            proof {
                assert(whole.subrange(0, i + 1 - a) =~= line@.subrange(a as int, i + 1));
                assert(forall|k: int| 0 <= k < whole.len() ==> is_digit(whole[k]));
                crate::num::lemma_dec_value_prefix_le(whole, i + 1 - a);
            }
            return None;
        }
        acc = wide as u32;
        i = i + 1;
    }
    Some(acc)
}

/// Copies `line[a..b]` with every hexadecimal digit moved to upper case.
fn upper_hex_range(line: &Vec<u8>, a: usize, b: usize) -> (r: Vec<u8>)
    requires
        a <= b <= line@.len(),
    ensures
        r@ == upper_hex_seq(line@.subrange(a as int, b as int)),
{
    let mut r: Vec<u8> = Vec::new();
    let mut i = a;
    while i < b
        invariant
            a <= i <= b <= line@.len(),
            r@.len() == i - a,
            forall|k: int| 0 <= k < i - a ==> r@[k] == hex_to_upper(line@[a + k]),
        decreases b - i,
    {
        r.push(ascii::hex_upper(line[i]));
        i = i + 1;
    }
    proof {
        assert(r@ =~= upper_hex_seq(line@.subrange(a as int, b as int)));
    }
    r
}

fn scan_level_sep(line: &Vec<u8>, start: usize) -> (r: usize)
    requires
        start <= line@.len(),
    ensures
        r as int == scan(line@, start as int, level_sep_pred()),
        start <= r <= line@.len(),
{
    let mut i = start;
    while i < line.len() && ascii::level_sep(line[i])
        invariant
            start <= i <= line@.len(),
            scan(line@, start as int, level_sep_pred()) == scan(line@, i as int, level_sep_pred()),
        decreases line@.len() - i,
    {
        i = i + 1;
    }
    proof {
        lemma_scan_props(line@, start as int, level_sep_pred());
    }
    i
}

/// The access-level prefix of a line, if any: the level named by the
/// leading token and the position after the separator run that follows it.
pub open spec fn spec_level_prefix(line: Seq<u8>) -> Option<(Level, int)> {
    if line.len() > 3 && line.subrange(0, 3) == level_bytes(Level::Com) && is_level_sep(line[3]) {
        Some((Level::Com, scan(line, 3, level_sep_pred())))
    } else if line.len() > 3 && line.subrange(0, 3) == level_bytes(Level::Dev) && is_level_sep(
        line[3],
    ) {
        Some((Level::Dev, scan(line, 3, level_sep_pred())))
    } else if line.len() > 4 && line.subrange(0, 4) == level_bytes(Level::Test) && is_level_sep(
        line[4],
    ) {
        Some((Level::Test, scan(line, 4, level_sep_pred())))
    } else {
        None
    }
}

fn level_prefix(line: &Vec<u8>) -> (r: Option<(Level, usize)>)
    ensures
        (match r {
            Some(p) => spec_level_prefix(line@) == Some((p.0, p.1 as int)) && p.1 <= line@.len(),
            None => spec_level_prefix(line@) is None,
        }),
{
    if line.len() > 3 && line[0] == UPPER_C && line[1] == LOWER_O && line[2] == LOWER_M
        && ascii::level_sep(line[3]) {
        proof {
            assert(line@.subrange(0, 3) =~= level_bytes(Level::Com));
            lemma_scan_props(line@, 3, level_sep_pred());
        }
        Some((Level::Com, scan_level_sep(line, 3)))
    } else if line.len() > 3 && line[0] == UPPER_D && line[1] == LOWER_E && line[2] == LOWER_V
        && ascii::level_sep(line[3]) {
        proof {
            assert(line@.subrange(0, 3) =~= level_bytes(Level::Dev));
            lemma_scan_props(line@, 3, level_sep_pred());
        }
        Some((Level::Dev, scan_level_sep(line, 3)))
    } else if line.len() > 4 && line[0] == UPPER_T && line[1] == LOWER_E && line[2] == LOWER_S
        && line[3] == LOWER_T && ascii::level_sep(line[4]) {
        proof {
            assert(line@.subrange(0, 4) =~= level_bytes(Level::Test));
            lemma_scan_props(line@, 4, level_sep_pred());
        }
        Some((Level::Test, scan_level_sep(line, 4)))
    } else {
        None
    }
}

/// The one reading of a manifest line under the run's access level,
/// architecture and version: `Some` exactly when the line matches the
/// grammar and passes the three filters, with the entry's fields being the
/// line's tokens (the digest upper-cased, the flags cleared).
pub open spec fn spec_parse_line(line: Seq<u8>, level: Level, arch: Arch, version: Seq<u8>) -> Option<
    ItemModel,
> {
    let start = match spec_level_prefix(line) {
        Some(p) => if p.0 == level {
            p.1
        } else {
            -1
        },
        None => 0,
    };
    if start < 0 {
        None
    } else {
        let v_end = scan(line, start, version_pred());
        if !(start < v_end && v_end < line.len() && line[v_end] == SLASH && line.subrange(
            start,
            v_end,
        ) == version) {
            None
        } else {
            let a_start = v_end + 1;
            if !(a_start + 3 < line.len() && line.subrange(a_start, a_start + 3) == arch_bytes(
                arch,
            ) && line[a_start + 3] == SLASH) {
                None
            } else {
                let p_start = a_start + 4;
                let p_end = scan(line, p_start, product_pred());
                if !(p_start < p_end && p_end < line.len() && line[p_end] == SLASH) {
                    None
                } else {
                    let f_start = p_end + 1;
                    let f_end = scan(line, f_start, filename_pred());
                    if !(f_start < f_end && f_end < line.len() && is_blank(line[f_end])) {
                        None
                    } else {
                        let s_start = f_end + 1;
                        let s_end = scan(line, s_start, digit_pred());
                        if !(s_start < s_end && s_end + 6 <= line.len() && is_blank(line[s_end])
                            && line.subrange(s_end + 1, s_end + 6) == bytes_word()) {
                            None
                        } else if dec_value(line.subrange(s_start, s_end)) > u32::MAX {
                            None
                        } else {
                            let tail = s_end + 6;
                            if tail == line.len() {
                                Some(
                                    ItemModel {
                                        product: line.subrange(p_start, p_end),
                                        filename: line.subrange(f_start, f_end),
                                        size: dec_value(line.subrange(s_start, s_end)),
                                        digest: Seq::empty(),
                                        downloaded: false,
                                        checked: false,
                                    },
                                )
                            } else {
                                let h_start = tail + 5;
                                if !(h_start < line.len() && is_blank(line[tail]) && line.subrange(
                                    tail + 1,
                                    h_start,
                                ) == md5_marker() && scan(line, h_start, hex_pred())
                                    == line.len()) {
                                    None
                                } else {
                                    Some(
                                        ItemModel {
                                            product: line.subrange(p_start, p_end),
                                            filename: line.subrange(f_start, f_end),
                                            size: dec_value(line.subrange(s_start, s_end)),
                                            digest: upper_hex_seq(
                                                line.subrange(h_start, line.len() as int),
                                            ),
                                            downloaded: false,
                                            checked: false,
                                        },
                                    )
                                }
                            }
                        }
                    }
                }
            }
        }
    }
}

/// Reads one manifest line under the run's filters.
///
/// Returns the entry the line announces, or `None` for a line that does
/// not match the grammar or fails the access-level, version or
/// architecture check — a filtered line, not an error.
pub fn make_update_item(line: &Vec<u8>, level: Level, arch: Arch, version: &Vec<u8>) -> (r: Option<
    UpdateItem,
>)
    ensures
        (match r {
            Some(it) => spec_parse_line(line@, level, arch, version@) == Some(it@),
            None => spec_parse_line(line@, level, arch, version@) is None,
        }),
{
    let start: usize = match level_prefix(line) {
        Some((l, j)) => {
            if l == level {
                j
            } else {
                return None;
            }
        },
        None => 0,
    };
    let v_end = scan_version(line, start);
    if !(start < v_end && v_end < line.len() && line[v_end] == SLASH) {
        return None;
    }
    if !range_matches(line, start, version) || version.len() != v_end - start {
        proof {
            assert(line@.subrange(start as int, v_end as int) != version@);
        }
        return None;
    }
    let a_start = v_end + 1;
    if line.len() - a_start < 4 {
        return None;
    }
    let arch_token = arch.token();
    if !(range_matches(line, a_start, &arch_token) && line[a_start + 3] == SLASH) {
        return None;
    }
    let p_start = a_start + 4;
    let p_end = scan_product(line, p_start);
    if !(p_start < p_end && p_end < line.len() && line[p_end] == SLASH) {
        return None;
    }
    let f_start = p_end + 1;
    let f_end = scan_filename(line, f_start);
    if !(f_start < f_end && f_end < line.len() && ascii::blank(line[f_end])) {
        return None;
    }
    let s_start = f_end + 1;
    let s_end = scan_digits(line, s_start);
    if !(s_start < s_end && line.len() - s_end >= 6 && ascii::blank(line[s_end])) {
        return None;
    }
    let word = bytes_word_vec();
    if !range_matches(line, s_end + 1, &word) {
        return None;
    }
    proof {
        lemma_scan_props(line@, s_start as int, digit_pred());
    }
    let size = match parse_size(line, s_start, s_end) {
        Some(v) => v,
        None => {
            return None;
        },
    };
    let tail = s_end + 6;
    let digest: Vec<u8> = if tail == line.len() {
        Vec::new()
    } else {
        if !(line.len() - tail > 5 && ascii::blank(line[tail])) {
            return None;
        }
        let h_start = tail + 5;
        let marker = md5_marker_vec();
        if !range_matches(line, tail + 1, &marker) {
            return None;
        }
        let h_end = scan_hex(line, h_start);
        if h_end != line.len() {
            proof {
                lemma_scan_props(line@, h_start as int, hex_pred());
            }
            return None;
        }
        upper_hex_range(line, h_start, line.len())
    };
    let product = sub_bytes(line, p_start, p_end);
    let filename = sub_bytes(line, f_start, f_end);
    Some(
        UpdateItem {
            product,
            filename,
            size,
            digest,
            downloaded: false,
            checked: false,
        },
    )
}

/// The word `bytes` as a byte vector.
pub(crate) fn bytes_word_vec() -> (r: Vec<u8>)
    ensures
        r@ == bytes_word(),
{
    let mut v: Vec<u8> = Vec::new();
    v.push(LOWER_B);
    v.push(LOWER_Y);
    v.push(LOWER_T);
    v.push(LOWER_E);
    v.push(LOWER_S);
    proof {
        assert(v@ =~= bytes_word());
    }
    v
}

/// The token `MD5:` as a byte vector.
pub(crate) fn md5_marker_vec() -> (r: Vec<u8>)
    ensures
        r@ == md5_marker(),
{
    let mut v: Vec<u8> = Vec::new();
    v.push(UPPER_M);
    v.push(UPPER_D);
    v.push(DIGIT_5);
    v.push(COLON);
    proof {
        assert(v@ =~= md5_marker());
    }
    v
}

} // verus!
