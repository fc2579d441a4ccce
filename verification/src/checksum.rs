//! Integrity checking of downloaded content.
//!
//! Every downloaded entry's content is read back and its MD5 digest is
//! recomputed; the entry is verified only when that digest equals the
//! declared one (both upper-cased).  On a mismatch the caller is told to
//! discard the stored file, so that no corrupt artifact survives to be
//! mistaken for a good one.  An entry whose manifest line declared no
//! digest is taken as verified once its content was downloaded and could
//! be read back: with nothing declared there is nothing to hold the
//! content against.

use vstd::prelude::*;

use crate::item::ItemModel;
use crate::item::UpdateItem;

verus! {

/// The upper-case hexadecimal MD5 digest of a byte sequence.
pub uninterp spec fn md5_hex_upper(bytes: Seq<u8>) -> Seq<u8>;

/// Relies on `md5::compute` and the `UpperHex` rendering of `md5::Digest`:
/// the digest depends on the input bytes alone, and the sixteen digest
/// bytes are written as two upper-case hexadecimal digits each.
#[verifier::external_body]
fn md5_hex(bytes: &Vec<u8>) -> (r: Vec<u8>)
    ensures
        r@ == md5_hex_upper(bytes@),
        r@.len() == 32,
{
    format!("{:X}", md5::compute(bytes.as_slice())).into_bytes()
}

/// The bytes behind an optional content buffer.
pub open spec fn content_view(c: Option<Vec<u8>>) -> Option<Seq<u8>> {
    match c {
        Some(v) => Some(v@),
        None => None,
    }
}

/// Does `content` satisfy the entry's declared digest?  An entry that
/// declared none is satisfied by any content.
pub open spec fn digest_matches(m: ItemModel, content: Seq<u8>) -> bool {
    m.digest.len() == 0 || md5_hex_upper(content) == m.digest
}

/// An entry after integrity checking against its read-back content:
/// `checked` records the verdict for a downloaded entry whose content
/// could be read; everything else is untouched.
pub open spec fn checked_after(m: ItemModel, c: Option<Seq<u8>>) -> ItemModel {
    match c {
        Some(content) => if m.downloaded {
            ItemModel { checked: digest_matches(m, content), ..m }
        } else {
            m
        },
        None => m,
    }
}

/// Must the stored file of this entry be discarded?  Exactly when the
/// entry was downloaded, its content could be read back, and the recomputed
/// digest contradicts the declared one.
pub open spec fn discard_after(m: ItemModel, c: Option<Seq<u8>>) -> bool {
    match c {
        Some(content) => m.downloaded && !digest_matches(m, content),
        None => false,
    }
}

/// The entry `u` with its integrity verdict set to `c`.
pub open spec fn item_checked(u: UpdateItem, c: bool) -> UpdateItem {
    UpdateItem { checked: c, ..u }
}

fn set_checked(web: &mut Vec<UpdateItem>, i: usize, c: bool)
    requires
        i < old(web)@.len(),
    ensures
        final(web)@ == old(web)@.update(i as int, item_checked(old(web)@[i as int], c)),
{
    let mut it = web.remove(i);
    it.checked = c;
    web.insert(i, it);
    proof {
        assert(web@ =~= old(web)@.update(i as int, item_checked(old(web)@[i as int], c)));
    }
}

/// Recomputes the digest of every downloaded entry from its read-back
/// content (`contents[i]` belongs to `web[i]`; `None` stands for content
/// that could not be read) and records the verdict in `checked`.  Returns,
/// per entry, whether its stored file must be discarded.
pub fn check_md5_sums(web: &mut Vec<UpdateItem>, contents: &Vec<Option<Vec<u8>>>) -> (discard: Vec<
    bool,
>)
    requires
        old(web)@.len() == contents@.len(),
    ensures
        final(web)@.len() == old(web)@.len(),
        discard@.len() == old(web)@.len(),
        forall|k: int|
            0 <= k < old(web)@.len() ==> final(web)@[k]@ == checked_after(
                old(web)@[k]@,
                content_view(contents@[k]),
            ),
        forall|k: int|
            0 <= k < old(web)@.len() ==> discard@[k] == discard_after(
                old(web)@[k]@,
                content_view(contents@[k]),
            ),
{
    let mut discard: Vec<bool> = Vec::new();
    let mut i: usize = 0;
    while i < web.len()
        invariant
            0 <= i <= old(web)@.len(),
            web@.len() == old(web)@.len(),
            contents@.len() == old(web)@.len(),
            discard@.len() == i,
            forall|k: int| i <= k < old(web)@.len() ==> web@[k] == old(web)@[k],
            forall|k: int|
                0 <= k < i ==> web@[k]@ == checked_after(
                    old(web)@[k]@,
                    content_view(contents@[k]),
                ),
            forall|k: int|
                0 <= k < i ==> discard@[k] == discard_after(
                    old(web)@[k]@,
                    content_view(contents@[k]),
                ),
        decreases old(web)@.len() - i,
    {
        let downloaded = web[i].downloaded;
        let mut have = false;
        let mut ok = false;
        match &contents[i] {
            Some(c) => {
                have = true;
                if downloaded {
                    if web[i].digest.len() == 0 {
                        ok = true;
                    } else {
                        let h = md5_hex(c);
                        let e = h == web[i].digest;
                        proof {
                            if e {
                                assert(h@ =~= web@[i as int].digest@);
                            }
                        }
                        ok = e;
                    }
                }
            },
            None => {},
        }
        if downloaded && have {
            set_checked(web, i, ok);
            discard.push(!ok);
        } else {
            discard.push(false);
        }
        i = i + 1;
    }
    discard
}

} // verus!
