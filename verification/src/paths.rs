//! Download locations: the remote URL and the local path of an entry.
//!
//! Both are the same five segments joined by `/`: site root (or local
//! root), run version, run architecture, entry product, entry filename.
//! The local destination directory is the same path without the filename.

use vstd::prelude::*;

use crate::ascii::SLASH;
use crate::item::Arch;
use crate::item::UpdateItem;
use crate::item::arch_bytes;

verus! {

/// The directory that holds an entry's content below `root`.
pub open spec fn dir_model(root: Seq<u8>, version: Seq<u8>, arch: Arch, product: Seq<u8>) -> Seq<
    u8,
> {
    root + seq![SLASH] + version + seq![SLASH] + arch_bytes(arch) + seq![SLASH] + product
}

/// The full location of an entry's content below `root` (a site URL or a
/// local root).
pub open spec fn path_model(
    root: Seq<u8>,
    version: Seq<u8>,
    arch: Arch,
    product: Seq<u8>,
    filename: Seq<u8>,
) -> Seq<u8> {
    dir_model(root, version, arch, product) + seq![SLASH] + filename
}

/// The authenticated download location of `ui` under the site root.
pub fn download_url(website: &Vec<u8>, version: &Vec<u8>, arch: Arch, ui: &UpdateItem) -> (r: Vec<
    u8,
>)
    ensures
        r@ == path_model(website@, version@, arch, ui@.product, ui@.filename),
{
    compute_path(website, version, arch, ui)
}

/// The local destination directory of `ui` under the local root; the
/// caller creates it (and any missing parents) before writing.
pub fn compute_dir(root: &Vec<u8>, version: &Vec<u8>, arch: Arch, ui: &UpdateItem) -> (r: Vec<u8>)
    ensures
        r@ == dir_model(root@, version@, arch, ui@.product),
{
    let mut r: Vec<u8> = Vec::new();
    r.extend_from_slice(root.as_slice());
    r.push(SLASH);
    r.extend_from_slice(version.as_slice());
    r.push(SLASH);
    let at = arch.token();
    r.extend_from_slice(at.as_slice());
    r.push(SLASH);
    r.extend_from_slice(ui.product.as_slice());
    proof {
        assert(r@ =~= dir_model(root@, version@, arch, ui@.product));
    }
    r
}

/// The local destination path of `ui`'s content under the local root.
pub fn compute_path(root: &Vec<u8>, version: &Vec<u8>, arch: Arch, ui: &UpdateItem) -> (r: Vec<u8>)
    ensures
        r@ == path_model(root@, version@, arch, ui@.product, ui@.filename),
{
    let mut r = compute_dir(root, version, arch, ui);
    r.push(SLASH);
    r.extend_from_slice(ui.filename.as_slice());
    proof {
        assert(r@ =~= path_model(root@, version@, arch, ui@.product, ui@.filename));
    }
    r
}

} // verus!
