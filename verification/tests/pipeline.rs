use tsupdate::Arch;
use tsupdate::Level;
use tsupdate::UpdateItem;
use tsupdate::checksum::check_md5_sums;
use tsupdate::commit::committed_lines;
use tsupdate::commit::format_manifest_line;
use tsupdate::inventory::is_present;
use tsupdate::inventory::mark_downloaded;
use tsupdate::inventory::missing_indices;
use tsupdate::inventory::read_items;
use tsupdate::parse::make_update_item;
use tsupdate::paths::compute_dir;
use tsupdate::paths::compute_path;
use tsupdate::paths::download_url;

fn b(s: &str) -> Vec<u8> {
    s.as_bytes().to_vec()
}

fn item(product: &str, filename: &str, size: u32, digest: &str) -> UpdateItem {
    UpdateItem {
        product: b(product),
        filename: b(filename),
        size,
        digest: b(digest),
        downloaded: false,
        checked: false,
    }
}

const ABC_MD5: &str = "900150983CD24FB0D6963F7D28E17F72";

#[test]
fn identity_ignores_run_local_flags() {
    let mut on_disk = item("P", "f.bin", 3, ABC_MD5);
    on_disk.downloaded = true;
    on_disk.checked = true;
    let fresh = item("P", "f.bin", 3, ABC_MD5);
    assert!(on_disk == fresh);
    let disk = vec![on_disk];
    let web = vec![fresh];
    assert!(is_present(&disk, &web[0]));
    assert_eq!(missing_indices(&disk, &web), Vec::<usize>::new());
}

#[test]
fn differing_identity_fields_are_different_items() {
    let a = item("P", "f.bin", 3, ABC_MD5);
    assert!(a != item("Q", "f.bin", 3, ABC_MD5));
    assert!(a != item("P", "g.bin", 3, ABC_MD5));
    assert!(a != item("P", "f.bin", 4, ABC_MD5));
    assert!(a != item("P", "f.bin", 3, ""));
}

#[test]
fn missing_indices_keep_remote_order() {
    let disk = vec![item("P", "present.bin", 1, "")];
    let web = vec![
        item("P", "new1.bin", 1, ""),
        item("P", "present.bin", 1, ""),
        item("P", "new2.bin", 1, ""),
    ];
    assert_eq!(missing_indices(&disk, &web), vec![0, 2]);
}

#[test]
fn empty_local_inventory_misses_everything() {
    let disk: Vec<UpdateItem> = Vec::new();
    let web = vec![item("P", "a", 1, ""), item("P", "b", 2, "")];
    assert_eq!(missing_indices(&disk, &web), vec![0, 1]);
}

#[test]
fn duplicate_remote_lines_each_reported() {
    let disk: Vec<UpdateItem> = Vec::new();
    let web = vec![item("P", "a", 1, ""), item("P", "a", 1, "")];
    assert_eq!(missing_indices(&disk, &web), vec![0, 1]);
}

#[test]
fn checksum_match_verifies_entry() {
    let mut web = vec![item("P", "p.bin", 3, ABC_MD5)];
    mark_downloaded(&mut web, 0);
    let contents = vec![Some(b("abc"))];
    let discard = check_md5_sums(&mut web, &contents);
    assert!(web[0].checked);
    assert_eq!(discard, vec![false]);
    let lines = committed_lines(Level::Com, &b("1.0"), Arch::X64, &web);
    assert_eq!(lines, vec![b("Com 1.0/x64/P/p.bin 3 bytes MD5:900150983CD24FB0D6963F7D28E17F72")]);
}

#[test]
fn checksum_mismatch_discards_file_and_entry() {
    let mut web = vec![item("P", "p.bin", 3, "00000000000000000000000000000000")];
    mark_downloaded(&mut web, 0);
    let contents = vec![Some(b("abc"))];
    let discard = check_md5_sums(&mut web, &contents);
    assert!(!web[0].checked);
    assert_eq!(discard, vec![true]);
    let lines = committed_lines(Level::Com, &b("1.0"), Arch::X64, &web);
    assert!(lines.is_empty());
}

#[test]
fn entry_without_declared_digest_is_verified_once_downloaded() {
    let mut web = vec![item("P", "p.bin", 3, "")];
    mark_downloaded(&mut web, 0);
    let contents = vec![Some(b("abc"))];
    let discard = check_md5_sums(&mut web, &contents);
    assert!(web[0].checked);
    assert_eq!(discard, vec![false]);
}

#[test]
fn undownloaded_entry_is_not_verified() {
    let mut web = vec![item("P", "p.bin", 3, ABC_MD5)];
    let contents = vec![Some(b("abc"))];
    let discard = check_md5_sums(&mut web, &contents);
    assert!(!web[0].checked);
    assert_eq!(discard, vec![false]);
}

#[test]
fn unreadable_content_leaves_entry_unverified() {
    let mut web = vec![item("P", "p.bin", 3, ABC_MD5)];
    mark_downloaded(&mut web, 0);
    let contents: Vec<Option<Vec<u8>>> = vec![None];
    let discard = check_md5_sums(&mut web, &contents);
    assert!(web[0].downloaded);
    assert!(!web[0].checked);
    assert_eq!(discard, vec![false]);
}

#[test]
fn one_failed_download_does_not_spoil_the_others() {
    let disk: Vec<UpdateItem> = Vec::new();
    let mut web = vec![
        item("P", "one.bin", 3, ABC_MD5),
        item("P", "two.bin", 3, ABC_MD5),
        item("P", "three.bin", 3, ABC_MD5),
    ];
    let missing = missing_indices(&disk, &web);
    assert_eq!(missing, vec![0, 1, 2]);
    // The second download fails: only the first and third are marked.
    for &i in &missing {
        if i != 1 {
            mark_downloaded(&mut web, i);
        }
    }
    let contents = vec![Some(b("abc")), None, Some(b("abc"))];
    let discard = check_md5_sums(&mut web, &contents);
    assert_eq!(discard, vec![false, false, false]);
    assert!(web[0].checked && !web[1].checked && web[2].checked);
    let lines = committed_lines(Level::Com, &b("1.0"), Arch::X64, &web);
    assert_eq!(lines, vec![
        b("Com 1.0/x64/P/one.bin 3 bytes MD5:900150983CD24FB0D6963F7D28E17F72"),
        b("Com 1.0/x64/P/three.bin 3 bytes MD5:900150983CD24FB0D6963F7D28E17F72"),
    ]);
}

#[test]
fn end_to_end_single_entry_run() {
    let level = Level::Com;
    let arch = Arch::X64;
    let version = b("1.0");
    let local_lines: Vec<Vec<u8>> = Vec::new();
    let remote_lines = vec![b("Com 1.0/x64/P/p.bin 3 bytes MD5:900150983CD24FB0D6963F7D28E17F72")];

    let disk = read_items(&local_lines, level, arch, &version);
    assert!(disk.is_empty());
    let mut web = read_items(&remote_lines, level, arch, &version);
    assert_eq!(web.len(), 1);

    let missing = missing_indices(&disk, &web);
    assert_eq!(missing, vec![0]);
    assert_eq!(
        download_url(&b("https://site.example"), &version, arch, &web[0]),
        b("https://site.example/1.0/x64/P/p.bin")
    );
    assert_eq!(compute_path(&b("root"), &version, arch, &web[0]), b("root/1.0/x64/P/p.bin"));
    assert_eq!(compute_dir(&b("root"), &version, arch, &web[0]), b("root/1.0/x64/P"));

    // The server returns the bytes `abc` for that path.
    mark_downloaded(&mut web, 0);
    let contents = vec![Some(b("abc"))];
    let discard = check_md5_sums(&mut web, &contents);
    assert_eq!(discard, vec![false]);

    let lines = committed_lines(level, &version, arch, &web);
    assert_eq!(lines, remote_lines);
}

#[test]
fn second_run_downloads_nothing() {
    let level = Level::Com;
    let arch = Arch::X64;
    let version = b("1.0");
    let remote_lines = vec![
        b("Com 1.0/x64/P/p.bin 3 bytes MD5:900150983CD24FB0D6963F7D28E17F72"),
        b("1.0/x64/Q/q.bin 4 bytes"),
    ];

    // First run: empty local inventory, both entries downloaded and verified.
    let mut local_lines: Vec<Vec<u8>> = Vec::new();
    let disk = read_items(&local_lines, level, arch, &version);
    let mut web = read_items(&remote_lines, level, arch, &version);
    assert_eq!(missing_indices(&disk, &web), vec![0, 1]);
    mark_downloaded(&mut web, 0);
    mark_downloaded(&mut web, 1);
    let contents = vec![Some(b("abc")), Some(b("wxyz"))];
    check_md5_sums(&mut web, &contents);
    let mut committed = committed_lines(level, &version, arch, &web);
    local_lines.append(&mut committed);

    // Second run against the grown local manifest, remote unchanged.
    let disk2 = read_items(&local_lines, level, arch, &version);
    let web2 = read_items(&remote_lines, level, arch, &version);
    assert_eq!(missing_indices(&disk2, &web2), Vec::<usize>::new());
}

#[test]
fn committed_line_reads_back_to_the_same_entry() {
    let level = Level::Dev;
    let arch = Arch::X86;
    let version = b("2.5.1");
    let mut it = item("My Product", "setup.exe", 123456, "0123456789ABCDEF0123456789ABCDEF");
    it.downloaded = true;
    it.checked = true;
    let line = format_manifest_line(level, &version, arch, &it);
    let back = make_update_item(&line, level, arch, &version).expect("a committed line parses");
    assert!(back == it);
    assert!(!back.downloaded);
    assert!(!back.checked);
}

#[test]
fn entry_without_digest_is_committed_without_checksum_field() {
    let mut it = item("P", "f", 9, "");
    it.checked = true;
    let line = format_manifest_line(Level::Com, &b("1.0"), Arch::X64, &it);
    assert_eq!(line, b("Com 1.0/x64/P/f 9 bytes"));
    let back = make_update_item(&line, Level::Com, Arch::X64, &b("1.0"))
        .expect("a digest-less committed line parses");
    assert!(back == it);
}

#[test]
fn loader_skips_unparseable_lines() {
    let lines = vec![
        b("# a comment"),
        b("Com 1.0/x64/P/a.bin 1 bytes"),
        b(""),
        b("Dev 1.0/x64/P/b.bin 2 bytes"),
        b("1.0/x64/P/c.bin 3 bytes"),
    ];
    let inv = read_items(&lines, Level::Com, Arch::X64, &b("1.0"));
    let names: Vec<Vec<u8>> = inv.iter().map(|u| u.filename.clone()).collect();
    assert_eq!(names, vec![b("a.bin"), b("c.bin")]);
}
