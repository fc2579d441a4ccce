use tsupdate::Arch;
use tsupdate::Level;
use tsupdate::parse::make_update_item;

fn b(s: &str) -> Vec<u8> {
    s.as_bytes().to_vec()
}

#[test]
fn line_without_access_level_parses_under_any_level() {
    let it = make_update_item(&b("9.0/x64/Foo/f.bin 10 bytes"), Level::Com, Arch::X64, &b("9.0"));
    let it = it.expect("access level is optional");
    assert_eq!(it.product, b("Foo"));
    assert_eq!(it.filename, b("f.bin"));
    assert_eq!(it.size, 10);
    assert_eq!(it.digest, b(""));
    assert!(!it.downloaded);
    assert!(!it.checked);
}

#[test]
fn line_with_other_access_level_is_filtered() {
    let it = make_update_item(
        &b("Dev 9.0/x64/Foo/f.bin 10 bytes"),
        Level::Com,
        Arch::X64,
        &b("9.0"),
    );
    assert!(it.is_none());
}

#[test]
fn line_with_matching_access_level_parses() {
    let it = make_update_item(
        &b("Dev 9.0/x64/Foo/f.bin 10 bytes"),
        Level::Dev,
        Arch::X64,
        &b("9.0"),
    );
    assert!(it.is_some());
}

#[test]
fn full_line_with_digest_parses() {
    let it = make_update_item(
        &b("Com 2024.1/x64/MyProduct/patch1.exe 10485 bytes MD5:ABCDEF0123456789ABCDEF0123456789"),
        Level::Com,
        Arch::X64,
        &b("2024.1"),
    );
    let it = it.expect("the reference line of the manifest format");
    assert_eq!(it.product, b("MyProduct"));
    assert_eq!(it.filename, b("patch1.exe"));
    assert_eq!(it.size, 10485);
    assert_eq!(it.digest, b("ABCDEF0123456789ABCDEF0123456789"));
}

#[test]
fn lower_case_digest_is_stored_upper_cased() {
    let it = make_update_item(
        &b("Com 1.0/x64/P/f 1 bytes MD5:abcdef0123"),
        Level::Com,
        Arch::X64,
        &b("1.0"),
    );
    assert_eq!(it.expect("lower-case digests are accepted").digest, b("ABCDEF0123"));
}

#[test]
fn hyphen_separated_access_level_parses() {
    let it = make_update_item(&b("Com-1.0/x64/P/f 1 bytes"), Level::Com, Arch::X64, &b("1.0"));
    assert!(it.is_some());
}

#[test]
fn test_level_and_x86_arch_parse() {
    let it = make_update_item(
        &b("Test 1.0/x86/P/f 1 bytes"),
        Level::Test,
        Arch::X86,
        &b("1.0"),
    );
    assert!(it.is_some());
}

#[test]
fn other_version_is_filtered() {
    let it = make_update_item(&b("9.0/x64/Foo/f.bin 10 bytes"), Level::Com, Arch::X64, &b("9.1"));
    assert!(it.is_none());
}

#[test]
fn other_arch_is_filtered() {
    let it = make_update_item(&b("9.0/x86/Foo/f.bin 10 bytes"), Level::Com, Arch::X64, &b("9.0"));
    assert!(it.is_none());
}

#[test]
fn product_with_space_and_apostrophe_parses() {
    let it = make_update_item(
        &b("1.0/x64/My Product's Kit/f.bin 2 bytes"),
        Level::Com,
        Arch::X64,
        &b("1.0"),
    );
    assert_eq!(it.expect("product tokens may hold blanks and apostrophes").product,
        b("My Product's Kit"));
}

#[test]
fn size_with_leading_zeros_parses() {
    let it = make_update_item(&b("1.0/x64/P/f 007 bytes"), Level::Com, Arch::X64, &b("1.0"));
    assert_eq!(it.expect("leading zeros are plain digits").size, 7);
}

#[test]
fn size_beyond_u32_is_filtered() {
    let it = make_update_item(
        &b("1.0/x64/P/f 99999999999999999999 bytes"),
        Level::Com,
        Arch::X64,
        &b("1.0"),
    );
    assert!(it.is_none());
}

#[test]
fn largest_size_parses() {
    let it = make_update_item(
        &b("1.0/x64/P/f 4294967295 bytes"),
        Level::Com,
        Arch::X64,
        &b("1.0"),
    );
    assert_eq!(it.expect("the largest size fits").size, 4294967295);
}

#[test]
fn malformed_lines_are_filtered() {
    let level = Level::Com;
    let arch = Arch::X64;
    let v = b("1.0");
    assert!(make_update_item(&b(""), level, arch, &v).is_none());
    assert!(make_update_item(&b("garbage"), level, arch, &v).is_none());
    assert!(make_update_item(&b("1.0/x64/P/f"), level, arch, &v).is_none());
    assert!(make_update_item(&b("1.0/x64/P/f 1"), level, arch, &v).is_none());
    assert!(make_update_item(&b("1.0/x64/P/f 1 byte"), level, arch, &v).is_none());
    assert!(make_update_item(&b("1.0/x64/P/f x bytes"), level, arch, &v).is_none());
    assert!(make_update_item(&b("1.0/x64/P/ 1 bytes"), level, arch, &v).is_none());
    assert!(make_update_item(&b("1.0/x64//f 1 bytes"), level, arch, &v).is_none());
    assert!(make_update_item(&b("1.0/x64/P/f 1 bytes MD5:"), level, arch, &v).is_none());
    assert!(make_update_item(&b("1.0/x64/P/f 1 bytes trailing"), level, arch, &v).is_none());
    assert!(make_update_item(&b("1.0/x99/P/f 1 bytes"), level, arch, &v).is_none());
}

#[test]
fn arch_tokens() {
    assert_eq!(Arch::X64.as_text(), "x64");
    assert_eq!(Arch::X86.as_text(), "x86");
}

#[test]
fn level_tokens() {
    assert_eq!(Level::Com.as_text(), "Com");
    assert_eq!(Level::Dev.as_text(), "Dev");
    assert_eq!(Level::Test.as_text(), "Test");
}
