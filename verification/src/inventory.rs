//! Inventories: loading entries from manifest lines and reconciling a
//! remote inventory against the local one.
//!
//! An inventory is an ordered sequence of entries, one per accepted
//! manifest line, in line order and without deduplication.  Reconciliation
//! computes which remote entries have no locally present entry with the
//! same identity.

use vstd::prelude::*;

use crate::item::ItemModel;
use crate::item::Level;
use crate::item::Arch;
use crate::item::UpdateItem;
use crate::item::same_item;
use crate::parse::make_update_item;
use crate::parse::spec_parse_line;

verus! {

/// The models of a sequence of entries.
pub open spec fn models_of(s: Seq<UpdateItem>) -> Seq<ItemModel> {
    s.map_values(|u: UpdateItem| u@)
}

/// The byte sequences of a sequence of line vectors.
pub open spec fn lines_of(s: Seq<Vec<u8>>) -> Seq<Seq<u8>> {
    s.map_values(|l: Vec<u8>| l@)
}

/// The inventory read from a sequence of manifest lines: the parses of
/// the accepted lines, in line order.
pub open spec fn collect_models(
    lines: Seq<Seq<u8>>,
    level: Level,
    arch: Arch,
    version: Seq<u8>,
) -> Seq<ItemModel>
    decreases lines.len(),
{
    if lines.len() == 0 {
        Seq::empty()
    } else {
        collect_models(lines.drop_last(), level, arch, version) + (match spec_parse_line(
            lines.last(),
            level,
            arch,
            version,
        ) {
            Some(m) => seq![m],
            None => Seq::empty(),
        })
    }
}

/// Reads an inventory from manifest lines: every line is offered to the
/// parser under the run's filters, the accepted entries are collected in
/// line order, the rest are silently skipped.
pub fn read_items(lines: &Vec<Vec<u8>>, level: Level, arch: Arch, version: &Vec<u8>) -> (r: Vec<
    UpdateItem,
>)
    ensures
        models_of(r@) == collect_models(lines_of(lines@), level, arch, version@),
{
    let mut r: Vec<UpdateItem> = Vec::new();
    let mut i: usize = 0;
    while i < lines.len()
        invariant
            0 <= i <= lines@.len(),
            models_of(r@) =~= collect_models(lines_of(lines@).subrange(0, i as int), level, arch, version@),
        decreases lines@.len() - i,
    {
        let ghost prefix = lines_of(lines@).subrange(0, i as int);
        let ghost next = lines_of(lines@).subrange(0, i + 1);
        proof {
            assert(next.drop_last() =~= prefix);
            assert(next.last() == lines@[i as int]@);
        }
        match make_update_item(&lines[i], level, arch, version) {
            Some(it) => {
                r.push(it);
                proof {
                    assert(models_of(r@) =~= collect_models(next, level, arch, version@));
                }
            },
            None => {
                proof {
                    assert(models_of(r@) =~= collect_models(next, level, arch, version@));
                }
            },
        }
        i = i + 1;
    }
    proof {
        assert(lines_of(lines@).subrange(0, lines@.len() as int) =~= lines_of(lines@));
    }
    r
}

/// Is some entry of `local` the same item as `it`?
pub open spec fn present_in(local: Seq<ItemModel>, it: ItemModel) -> bool {
    exists|k: int| 0 <= k < local.len() && same_item(local[k], it)
}

/// Does the local inventory already hold an entry with `ui`'s identity?
pub fn is_present(disk: &Vec<UpdateItem>, ui: &UpdateItem) -> (r: bool)
    ensures
        r == present_in(models_of(disk@), ui@),
{
    let mut j: usize = 0;
    while j < disk.len()
        invariant
            0 <= j <= disk@.len(),
            forall|k: int| 0 <= k < j ==> !same_item(models_of(disk@)[k], ui@),
        decreases disk@.len() - j,
    {
        if disk[j] == *ui {
            proof {
                assert(same_item(models_of(disk@)[j as int], ui@));
            }
            return true;
        }
        j = j + 1;
    }
    false
}

/// The remote entries missing locally: those with no same-identity entry
/// in `local`, in remote order.
pub open spec fn missing_models(local: Seq<ItemModel>, web: Seq<ItemModel>) -> Seq<ItemModel>
    decreases web.len(),
{
    if web.len() == 0 {
        Seq::empty()
    } else {
        missing_models(local, web.drop_last()) + (if present_in(local, web.last()) {
            Seq::empty()
        } else {
            seq![web.last()]
        })
    }
}

/// The positions, in remote order, of the remote entries that are missing
/// locally.
pub fn missing_indices(disk: &Vec<UpdateItem>, web: &Vec<UpdateItem>) -> (r: Vec<usize>)
    ensures
        forall|k: int| 0 <= k < r@.len() ==> r@[k] < web@.len(),
        forall|k: int| 0 <= k < r@.len() - 1 ==> #[trigger] r@[k] < r@[k + 1],
        forall|k: int|
            0 <= k < r@.len() ==> !present_in(models_of(disk@), models_of(web@)[r@[k] as int]),
        forall|j: int|
            0 <= j < web@.len() && !r@.contains(j as usize) ==> present_in(
                models_of(disk@),
                models_of(web@)[j],
            ),
        Seq::new(r@.len(), |k: int| models_of(web@)[r@[k] as int]) == missing_models(
            models_of(disk@),
            models_of(web@),
        ),
{
    let ghost local_m = models_of(disk@);
    let ghost web_m = models_of(web@);
    let mut r: Vec<usize> = Vec::new();
    let mut i: usize = 0;
    while i < web.len()
        invariant
            0 <= i <= web@.len(),
            local_m == models_of(disk@),
            web_m == models_of(web@),
            forall|k: int| 0 <= k < r@.len() ==> r@[k] < i,
            forall|k: int| 0 <= k < r@.len() - 1 ==> #[trigger] r@[k] < r@[k + 1],
            forall|k: int| 0 <= k < r@.len() ==> !present_in(local_m, web_m[r@[k] as int]),
            forall|j: int|
                0 <= j < i && !r@.contains(j as usize) ==> present_in(local_m, web_m[j]),
            Seq::new(r@.len(), |k: int| web_m[r@[k] as int]) =~= missing_models(
                local_m,
                web_m.subrange(0, i as int),
            ),
        decreases web@.len() - i,
    {
        let ghost old_r = r@;
        let ghost prefix = web_m.subrange(0, i as int);
        let ghost next = web_m.subrange(0, i + 1);
        proof {
            assert(next.drop_last() =~= prefix);
            assert(next.last() == web_m[i as int]);
        }
        if !is_present(disk, &web[i]) {
            proof {
                assert(web_m[i as int] == web@[i as int]@);
            }
            r.push(i);
            proof {
                assert(r@ == old_r.push(i));
                assert(r@.contains(i)) by {
                    assert(r@[old_r.len() as int] == i);
                }
                assert(Seq::new(r@.len(), |k: int| web_m[r@[k] as int]) =~= missing_models(
                    local_m,
                    next,
                ));
                assert forall|j: int|
                    0 <= j < i + 1 && !r@.contains(j as usize) implies present_in(
                    local_m,
                    web_m[j],
                ) by {
                    if j < i && old_r.contains(j as usize) {
                        let k = choose|k: int| 0 <= k < old_r.len() && old_r[k] == j as usize;
                        assert(r@[k] == j as usize);
                    }
                }
            }
        } else {
            proof {
                assert(web_m[i as int] == web@[i as int]@);
                assert(!r@.contains(i)) by {
                    if r@.contains(i) {
                        let k = choose|k: int| 0 <= k < r@.len() && r@[k] == i;
                        assert(r@[k] < i);
                    }
                }
                assert(Seq::new(r@.len(), |k: int| web_m[r@[k] as int]) =~= missing_models(
                    local_m,
                    next,
                ));
            }
        }
        i = i + 1;
    }
    proof {
        assert(web_m.subrange(0, web@.len() as int) =~= web_m);
    }
    r
}

/// The entry at `i`, marked as successfully written to local storage.
pub open spec fn item_downloaded(u: UpdateItem) -> UpdateItem {
    UpdateItem { downloaded: true, ..u }
}

/// Records that the content of entry `i` was fully written to its local
/// destination; no other entry changes.
pub fn mark_downloaded(web: &mut Vec<UpdateItem>, i: usize)
    requires
        i < old(web)@.len(),
    ensures
        final(web)@ == old(web)@.update(i as int, item_downloaded(old(web)@[i as int])),
{
    let mut it = web.remove(i);
    it.downloaded = true;
    web.insert(i, it);
    proof {
        assert(web@ =~= old(web)@.update(i as int, item_downloaded(old(web)@[i as int])));
    }
}

} // verus!
