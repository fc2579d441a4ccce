//! Committing verified entries back to the local manifest.
//!
//! Every verified entry is rendered as one manifest line in the exact
//! grammar the parser reads, using the run's access level, version and
//! architecture.  An entry without a declared digest is rendered without a
//! checksum field, so that the line reads back to the same entry.  The
//! caller appends the rendered lines to the local manifest; nothing is
//! ever rewritten or reordered.

use vstd::prelude::*;

use crate::ascii::SLASH;
use crate::ascii::SPACE;
use crate::inventory::lines_of;
use crate::inventory::models_of;
use crate::item::Arch;
use crate::item::ItemModel;
use crate::item::Level;
use crate::item::UpdateItem;
use crate::item::arch_bytes;
use crate::item::level_bytes;
use crate::num::dec_repr;
use crate::num::push_dec;
use crate::parse::bytes_word;
use crate::parse::bytes_word_vec;
use crate::parse::md5_marker;
use crate::parse::md5_marker_vec;

verus! {

/// The manifest line that commits entry `m` under the run's parameters.
pub open spec fn line_model(level: Level, version: Seq<u8>, arch: Arch, m: ItemModel) -> Seq<u8> {
    level_bytes(level) + seq![SPACE] + version + seq![SLASH] + arch_bytes(arch) + seq![SLASH]
        + m.product + seq![SLASH] + m.filename + seq![SPACE] + dec_repr(m.size) + seq![SPACE]
        + bytes_word() + (if m.digest.len() == 0 {
        Seq::<u8>::empty()
    } else {
        seq![SPACE] + md5_marker() + m.digest
    })
}

/// Renders the manifest line that commits `ui`.
pub fn format_manifest_line(level: Level, version: &Vec<u8>, arch: Arch, ui: &UpdateItem) -> (r:
    Vec<u8>)
    ensures
        r@ == line_model(level, version@, arch, ui@),
{
    let mut r: Vec<u8> = Vec::new();
    let lt = level.token();
    r.extend_from_slice(lt.as_slice());
    r.push(SPACE);
    r.extend_from_slice(version.as_slice());
    r.push(SLASH);
    let at = arch.token();
    r.extend_from_slice(at.as_slice());
    r.push(SLASH);
    r.extend_from_slice(ui.product.as_slice());
    r.push(SLASH);
    r.extend_from_slice(ui.filename.as_slice());
    r.push(SPACE);
    push_dec(ui.size, &mut r);
    r.push(SPACE);
    let word = bytes_word_vec();
    r.extend_from_slice(word.as_slice());
    if ui.digest.len() > 0 {
        r.push(SPACE);
        let marker = md5_marker_vec();
        r.extend_from_slice(marker.as_slice());
        r.extend_from_slice(ui.digest.as_slice());
    }
    proof {
        assert(r@ =~= line_model(level, version@, arch, ui@));
    }
    r
}

/// The manifest lines that commit the verified entries of `web`, in
/// inventory order.
pub open spec fn commit_models(
    level: Level,
    version: Seq<u8>,
    arch: Arch,
    web: Seq<ItemModel>,
) -> Seq<Seq<u8>>
    decreases web.len(),
{
    if web.len() == 0 {
        Seq::empty()
    } else {
        commit_models(level, version, arch, web.drop_last()) + (if web.last().checked {
            seq![line_model(level, version, arch, web.last())]
        } else {
            Seq::empty()
        })
    }
}

/// Renders one manifest line for every verified entry of `web`, in
/// inventory order: exactly what the run appends to the local manifest.
pub fn committed_lines(level: Level, version: &Vec<u8>, arch: Arch, web: &Vec<UpdateItem>) -> (r:
    Vec<Vec<u8>>)
    ensures
        lines_of(r@) == commit_models(level, version@, arch, models_of(web@)),
{
    let ghost web_m = models_of(web@);
    let mut r: Vec<Vec<u8>> = Vec::new();
    let mut i: usize = 0;
    while i < web.len()
        invariant
            0 <= i <= web@.len(),
            web_m == models_of(web@),
            lines_of(r@) =~= commit_models(level, version@, arch, web_m.subrange(0, i as int)),
        decreases web@.len() - i,
    {
        let ghost prefix = web_m.subrange(0, i as int);
        let ghost next = web_m.subrange(0, i + 1);
        proof {
            assert(next.drop_last() =~= prefix);
            assert(next.last() == web_m[i as int]);
            assert(web_m[i as int] == web@[i as int]@);
        }
        if web[i].checked {
            let line = format_manifest_line(level, version, arch, &web[i]);
            r.push(line);
            proof {
                assert(lines_of(r@) =~= commit_models(level, version@, arch, next));
            }
        } else {
            proof {
                assert(lines_of(r@) =~= commit_models(level, version@, arch, next));
            }
        }
        i = i + 1;
    }
    proof {
        assert(web_m.subrange(0, web@.len() as int) =~= web_m);
    }
    r
}

} // verus!
