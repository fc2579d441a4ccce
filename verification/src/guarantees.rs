//! The guarantees that hold across the pipeline's stages.
//!
//! The central fact is the round trip: a committed manifest line reads
//! back, under the same run parameters, to the entry it was rendered
//! from (with the run-local flags cleared).  From it follows idempotence:
//! once every remote entry is either already present locally or verified
//! and committed, a rerun against the grown local manifest finds nothing
//! missing.

use vstd::prelude::*;

use crate::ascii::SLASH;
use crate::ascii::SPACE;
use crate::ascii::is_digit;
use crate::ascii::is_filename_byte;
use crate::ascii::is_hex_digit;
use crate::ascii::is_level_sep;
use crate::ascii::is_product_byte;
use crate::ascii::is_upper_hex_digit;
use crate::ascii::is_version_byte;
use crate::ascii::hex_to_upper;
use crate::ascii::upper_hex_seq;
use crate::checksum::checked_after;
use crate::checksum::discard_after;
use crate::checksum::md5_hex_upper;
use crate::commit::commit_models;
use crate::commit::line_model;
use crate::inventory::collect_models;
use crate::inventory::missing_models;
use crate::inventory::present_in;
use crate::item::Arch;
use crate::item::ItemModel;
use crate::item::Level;
use crate::item::arch_bytes;
use crate::item::level_bytes;
use crate::item::same_item;
use crate::num::dec_repr;
use crate::num::dec_value;
use crate::num::lemma_dec_repr_value;
use crate::parse::bytes_word;
use crate::parse::digit_pred;
use crate::parse::filename_pred;
use crate::parse::hex_pred;
use crate::parse::level_sep_pred;
use crate::parse::lemma_scan_exact;
use crate::parse::lemma_scan_props;
use crate::parse::scan;
use crate::parse::md5_marker;
use crate::parse::product_pred;
use crate::parse::spec_level_prefix;
use crate::parse::spec_parse_line;
use crate::parse::version_pred;

verus! {

/// A version token the grammar can carry: non-empty, digits and dots.
pub open spec fn wf_version(version: Seq<u8>) -> bool {
    version.len() > 0 && forall|k: int|
        0 <= k < version.len() ==> is_version_byte(#[trigger] version[k])
}

/// Entry fields the grammar can carry: the fields of every parsed entry.
pub open spec fn wf_fields(m: ItemModel) -> bool {
    &&& m.product.len() > 0
    &&& forall|k: int| 0 <= k < m.product.len() ==> is_product_byte(#[trigger] m.product[k])
    &&& m.filename.len() > 0
    &&& forall|k: int| 0 <= k < m.filename.len() ==> is_filename_byte(#[trigger] m.filename[k])
    &&& forall|k: int| 0 <= k < m.digest.len() ==> is_upper_hex_digit(#[trigger] m.digest[k])
    &&& 0 <= m.size <= u32::MAX
}

/// `m` with the run-local flags cleared, as a fresh parse returns it.
pub open spec fn cleared(m: ItemModel) -> ItemModel {
    ItemModel { downloaded: false, checked: false, ..m }
}

/// Upper-casing fixes a string that is already upper-case hexadecimal.
proof fn lemma_upper_hex_identity(s: Seq<u8>)
    requires
        forall|k: int| 0 <= k < s.len() ==> is_upper_hex_digit(#[trigger] s[k]),
    ensures
        upper_hex_seq(s) == s,
{
    assert(upper_hex_seq(s) =~= s);
}

/// The round trip: the manifest line rendered for an entry parses, under
/// the same access level, architecture and version, back to that entry
/// with cleared flags.
#[verifier::rlimit(100)]
pub proof fn lemma_line_round_trip(level: Level, arch: Arch, version: Seq<u8>, m: ItemModel)
    requires
        wf_version(version),
        wf_fields(m),
    ensures
        spec_parse_line(line_model(level, version, arch, m), level, arch, version) == Some(
            cleared(m),
        ),
{
    let line = line_model(level, version, arch, m);
    let lb = level_bytes(level);
    let ab = arch_bytes(arch);
    let rep = dec_repr(m.size);
    let lv = lb.len() as int;
    let a = lv + 1;
    let ve = a + version.len();
    let ast = ve + 1;
    let ps = ast + 4;
    let pe = ps + m.product.len();
    let fs = pe + 1;
    let fe = fs + m.filename.len();
    let ss = fe + 1;
    lemma_dec_repr_value(m.size);
    let se = ss + rep.len();
    let tail = se + 6;
    let hs = tail + 5;

    assert(line.subrange(0, lv) =~= lb);
    assert(line[lv] == SPACE);
    assert(line.subrange(a, ve) =~= version);
    assert(line[ve] == SLASH);
    assert(line.subrange(ast, ast + 3) =~= ab);
    assert(line[ast + 3] == SLASH);
    assert(line.subrange(ps, pe) =~= m.product);
    assert(line[pe] == SLASH);
    assert(line.subrange(fs, fe) =~= m.filename);
    assert(line[fe] == SPACE);
    assert(line.subrange(ss, se) =~= rep);
    assert(line[se] == SPACE);
    assert(line.subrange(se + 1, se + 6) =~= bytes_word());
    if m.digest.len() == 0 {
        assert(line.len() == tail);
    } else {
        assert(line.len() == hs + m.digest.len());
        assert(line[tail] == SPACE);
        assert(line.subrange(tail + 1, hs) =~= md5_marker());
        assert(line.subrange(hs, line.len() as int) =~= m.digest);
    }

    // The access-level prefix: the level token, one space, then a version
    // byte that ends the separator run.
    assert(line[a] == version[0]);
    lemma_scan_exact(line, lv, a, level_sep_pred());
    assert(spec_level_prefix(line) == Some((level, a)));

    // Token boundaries: every scan stops exactly at the separator that
    // follows its token.
    lemma_scan_exact(line, a, ve, version_pred());
    lemma_scan_exact(line, ps, pe, product_pred());
    lemma_scan_exact(line, fs, fe, filename_pred());
    lemma_scan_exact(line, ss, se, digit_pred());
    assert(dec_value(line.subrange(ss, se)) == m.size);
    if m.digest.len() == 0 {
        assert(m.digest =~= Seq::<u8>::empty());
        assert(spec_parse_line(line, level, arch, version) == Some(cleared(m)));
    } else {
        lemma_scan_exact(line, hs, line.len() as int, hex_pred());
        lemma_upper_hex_identity(m.digest);
        assert(spec_parse_line(line, level, arch, version) == Some(cleared(m)));
    }
}

/// Every entry a manifest line parses to has grammar-carried fields and
/// cleared flags.
#[verifier::rlimit(100)]
pub proof fn lemma_parse_wf(line: Seq<u8>, level: Level, arch: Arch, version: Seq<u8>, m: ItemModel)
    requires
        spec_parse_line(line, level, arch, version) == Some(m),
    ensures
        wf_fields(m),
        !m.downloaded,
        !m.checked,
{
    if spec_level_prefix(line) is Some {
        if line.len() > 3 && line.subrange(0, 3) == level_bytes(Level::Com) && is_level_sep(
            line[3],
        ) {
            lemma_scan_props(line, 3, level_sep_pred());
        } else if line.len() > 3 && line.subrange(0, 3) == level_bytes(Level::Dev) && is_level_sep(
            line[3],
        ) {
            lemma_scan_props(line, 3, level_sep_pred());
        } else {
            lemma_scan_props(line, 4, level_sep_pred());
        }
    }
    let start: int = match spec_level_prefix(line) {
        Some(p) => p.1,
        None => 0,
    };
    assert(0 <= start <= line.len());
    lemma_scan_props(line, start, version_pred());
    let v_end = scan(line, start, version_pred());
    let a_start = v_end + 1;
    let p_start = a_start + 4;
    lemma_scan_props(line, p_start, product_pred());
    let p_end = scan(line, p_start, product_pred());
    let f_start = p_end + 1;
    lemma_scan_props(line, f_start, filename_pred());
    let f_end = scan(line, f_start, filename_pred());
    let s_start = f_end + 1;
    lemma_scan_props(line, s_start, digit_pred());
    let s_end = scan(line, s_start, digit_pred());
    let size_tok = line.subrange(s_start, s_end);
    assert forall|k: int| 0 <= k < size_tok.len() implies is_digit(#[trigger] size_tok[k]) by {
        assert(size_tok[k] == line[s_start + k]);
    }
    crate::num::lemma_dec_value_nonneg(size_tok);
    let tail = s_end + 6;
    if tail == line.len() {
    } else {
        let h_start = tail + 5;
        lemma_scan_props(line, h_start, hex_pred());
        let dig = line.subrange(h_start, line.len() as int);
        assert forall|k: int|
            0 <= k < upper_hex_seq(dig).len() implies is_upper_hex_digit(
            #[trigger] upper_hex_seq(dig)[k],
        ) by {
            assert(dig[k] == line[h_start + k]);
            assert(is_hex_digit(dig[k]));
            assert(upper_hex_seq(dig)[k] == hex_to_upper(dig[k]));
        }
    }
}

/// Every entry of a loaded inventory has grammar-carried fields and
/// cleared flags.
pub proof fn lemma_collect_wf(lines: Seq<Seq<u8>>, level: Level, arch: Arch, version: Seq<u8>)
    ensures
        forall|i: int|
            0 <= i < collect_models(lines, level, arch, version).len() ==> wf_fields(
                #[trigger] collect_models(lines, level, arch, version)[i],
            ) && !collect_models(lines, level, arch, version)[i].downloaded && !collect_models(
                lines,
                level,
                arch,
                version,
            )[i].checked,
    decreases lines.len(),
{
    if lines.len() > 0 {
        let w2 = lines.drop_last();
        lemma_collect_wf(w2, level, arch, version);
        let c2 = collect_models(w2, level, arch, version);
        let c = collect_models(lines, level, arch, version);
        match spec_parse_line(lines.last(), level, arch, version) {
            Some(m) => {
                lemma_parse_wf(lines.last(), level, arch, version, m);
                assert(c == c2 + seq![m]);
                assert forall|i: int|
                    0 <= i < c.len() implies wf_fields(#[trigger] c[i]) && !c[i].downloaded
                    && !c[i].checked by {
                    if i < c2.len() {
                        assert(c[i] == c2[i]);
                    } else {
                        assert(c[i] == m);
                    }
                }
            },
            None => {
                assert(c =~= c2);
                assert forall|i: int|
                    0 <= i < c.len() implies wf_fields(#[trigger] c[i]) && !c[i].downloaded
                    && !c[i].checked by {
                    assert(c[i] == c2[i]);
                }
            },
        }
    }
}

/// The checked entries of an inventory, in order, with cleared flags:
/// what a rerun reads back from the lines this run commits.
pub open spec fn checked_clear(web: Seq<ItemModel>) -> Seq<ItemModel>
    decreases web.len(),
{
    if web.len() == 0 {
        Seq::empty()
    } else {
        checked_clear(web.drop_last()) + (if web.last().checked {
            seq![cleared(web.last())]
        } else {
            Seq::empty()
        })
    }
}

/// Parsing the lines that commit an inventory yields exactly its checked
/// entries, flags cleared.
#[verifier::rlimit(100)]
pub proof fn lemma_collect_commit(level: Level, arch: Arch, version: Seq<u8>, web: Seq<ItemModel>)
    requires
        wf_version(version),
        forall|i: int| 0 <= i < web.len() ==> wf_fields(#[trigger] web[i]),
    ensures
        collect_models(commit_models(level, version, arch, web), level, arch, version)
            == checked_clear(web),
    decreases web.len(),
{
    if web.len() == 0 {
    } else {
        let w2 = web.drop_last();
        lemma_collect_commit(level, arch, version, w2);
        let cm = commit_models(level, version, arch, web);
        if web.last().checked {
            let l = line_model(level, version, arch, web.last());
            lemma_line_round_trip(level, arch, version, web.last());
            assert(cm.drop_last() =~= commit_models(level, version, arch, w2));
            assert(cm.last() == l);
            assert(cm.len() > 0);
            assert(collect_models(cm, level, arch, version) == checked_clear(web));
        } else {
            assert(cm =~= commit_models(level, version, arch, w2));
            assert(checked_clear(web) =~= checked_clear(w2));
        }
    }
}

/// An item present in either part of a concatenation is present in the
/// whole.
pub proof fn lemma_present_extends(local: Seq<ItemModel>, extra: Seq<ItemModel>, it: ItemModel)
    requires
        present_in(local, it) || present_in(extra, it),
    ensures
        present_in(local + extra, it),
{
    if present_in(local, it) {
        let k = choose|k: int| 0 <= k < local.len() && same_item(local[k], it);
        assert((local + extra)[k] == local[k]);
    } else {
        let k = choose|k: int| 0 <= k < extra.len() && same_item(extra[k], it);
        assert((local + extra)[local.len() + k] == extra[k]);
    }
}

/// Every checked entry is present, by identity, among the entries a rerun
/// reads back from this run's committed lines.
pub proof fn lemma_checked_contained(web: Seq<ItemModel>, i: int)
    requires
        0 <= i < web.len(),
        web[i].checked,
    ensures
        present_in(checked_clear(web), web[i]),
    decreases web.len(),
{
    let cc = checked_clear(web);
    if i == web.len() - 1 {
        assert(cc[cc.len() - 1] == cleared(web.last()));
        assert(same_item(cc[cc.len() - 1], web[i]));
    } else {
        lemma_checked_contained(web.drop_last(), i);
        assert(web.drop_last()[i] == web[i]);
        lemma_present_extends(
            checked_clear(web.drop_last()),
            if web.last().checked {
                seq![cleared(web.last())]
            } else {
                Seq::empty()
            },
            web[i],
        );
    }
}

/// When every remote entry is already present locally, reconciliation
/// finds nothing missing.
pub proof fn lemma_all_present_missing_empty(local: Seq<ItemModel>, web: Seq<ItemModel>)
    requires
        forall|i: int| 0 <= i < web.len() ==> present_in(local, #[trigger] web[i]),
    ensures
        missing_models(local, web) == Seq::<ItemModel>::empty(),
    decreases web.len(),
{
    if web.len() == 0 {
        assert(missing_models(local, web) =~= Seq::<ItemModel>::empty());
    } else {
        lemma_all_present_missing_empty(local, web.drop_last());
        assert(present_in(local, web.last()));
        assert(missing_models(local, web) =~= Seq::<ItemModel>::empty());
    }
}

/// Idempotence: after a run in which every remote entry was either
/// already present locally or was verified and committed, reconciling the
/// unchanged remote inventory against the grown local inventory (its old
/// entries plus what the committed lines read back to) finds nothing
/// missing — a second run downloads nothing and appends nothing.
pub proof fn lemma_idempotent(
    level: Level,
    arch: Arch,
    version: Seq<u8>,
    local: Seq<ItemModel>,
    web: Seq<ItemModel>,
)
    requires
        wf_version(version),
        forall|i: int| 0 <= i < web.len() ==> wf_fields(#[trigger] web[i]),
        forall|i: int| 0 <= i < web.len() ==> present_in(local, #[trigger] web[i]) || web[i].checked,
    ensures
        missing_models(
            local + collect_models(commit_models(level, version, arch, web), level, arch, version),
            web,
        ) == Seq::<ItemModel>::empty(),
{
    lemma_collect_commit(level, arch, version, web);
    let grown = checked_clear(web);
    assert forall|i: int| 0 <= i < web.len() implies present_in(local + grown, web[i]) by {
        if !present_in(local, web[i]) {
            lemma_checked_contained(web, i);
        }
        lemma_present_extends(local, grown, web[i]);
    }
    lemma_all_present_missing_empty(local + grown, web);
}

/// An inventory none of whose entries is verified commits nothing: in
/// particular a second run, whose freshly parsed entries all carry
/// cleared flags and which downloads nothing, appends no duplicate lines.
pub proof fn lemma_nothing_checked_commits_nothing(
    level: Level,
    version: Seq<u8>,
    arch: Arch,
    web: Seq<ItemModel>,
)
    requires
        forall|i: int| 0 <= i < web.len() ==> !(#[trigger] web[i]).checked,
    ensures
        commit_models(level, version, arch, web) == Seq::<Seq<u8>>::empty(),
    decreases web.len(),
{
    if web.len() > 0 {
        lemma_nothing_checked_commits_nothing(level, version, arch, web.drop_last());
        assert(commit_models(level, version, arch, web) =~= Seq::<Seq<u8>>::empty());
    } else {
        assert(commit_models(level, version, arch, web) =~= Seq::<Seq<u8>>::empty());
    }
}

/// Checksum gating: a downloaded entry with a declared digest is verified
/// exactly when the recomputed digest of its content equals the declared
/// one; on a mismatch its stored file is discarded and no line commits
/// it, on a match exactly its manifest line is committed.
pub proof fn lemma_checksum_gating(
    level: Level,
    arch: Arch,
    version: Seq<u8>,
    m: ItemModel,
    content: Seq<u8>,
)
    requires
        m.downloaded,
        m.digest.len() > 0,
    ensures
        checked_after(m, Some(content)).checked == (md5_hex_upper(content) == m.digest),
        discard_after(m, Some(content)) == (md5_hex_upper(content) != m.digest),
        md5_hex_upper(content) != m.digest ==> commit_models(
            level,
            version,
            arch,
            seq![checked_after(m, Some(content))],
        ) == Seq::<Seq<u8>>::empty(),
        md5_hex_upper(content) == m.digest ==> commit_models(
            level,
            version,
            arch,
            seq![checked_after(m, Some(content))],
        ) == seq![line_model(level, version, arch, checked_after(m, Some(content)))],
{
    let after = checked_after(m, Some(content));
    assert(seq![after].drop_last() =~= Seq::<ItemModel>::empty());
    assert(commit_models(level, version, arch, seq![after].drop_last()) == Seq::<Seq<u8>>::empty());
    if md5_hex_upper(content) != m.digest {
        assert(commit_models(level, version, arch, seq![after]) =~= Seq::<Seq<u8>>::empty());
    } else {
        assert(commit_models(level, version, arch, seq![after]) =~= seq![
            line_model(level, version, arch, after),
        ]);
    }
}

} // verus!
