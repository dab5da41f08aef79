use parkur::cpio_ops::{
    build_supplementary_archive, build_supplementary_initrd, cpio_write_dir, cpio_write_entry,
    cpio_write_trailer, write_initrd_to_partition,
};
use parkur::error::{ErrorKind, InstallerError};
use parkur::initramfs_ops::{
    align4, build_cpio_newc, build_overlay_cpio_gz, build_overlay_cpio_gz_with_extras,
    build_overlay_cpio_gz_without_secrets, build_overlay_for_initrd, gzip_native, overlay_extras,
    stage_overlay_entries, write_newc_record,
    OverlayEntry, MODE_DIR, MODE_EXEC, MODE_FILE, MODE_FILE_SECRET,
};
use parkur::newc::skip_leading_cpio;
use parkur::squashfs_ops::{
    estimate_uncompressed_from_compressed, extract_ntfs3_module, find_ntfs3_in_squashfs,
    module_parent_dirs, node_full_path, packing, read_uncompressed_size, squashfs_has_ntfs3,
    unpacked_module, NtfsModuleBlob, Packing,
};
use std::io::{Read, Write};

fn failure<T>(r: Result<T, InstallerError>) -> (ErrorKind, String) {
    match r {
        Ok(_) => panic!("an error was expected"),
        Err(e) => (e.kind(), e.message().clone()),
    }
}

fn gunzip(z: &[u8]) -> Vec<u8> {
    let mut out = Vec::new();
    flate2::read::GzDecoder::new(z).read_to_end(&mut out).unwrap();
    out
}

fn gzip(raw: &[u8]) -> Vec<u8> {
    let mut enc = flate2::write::GzEncoder::new(Vec::new(), flate2::Compression::fast());
    enc.write_all(raw).unwrap();
    enc.finish().unwrap()
}

fn xz(raw: &[u8]) -> Vec<u8> {
    let mut enc = liblzma::write::XzEncoder::new(Vec::new(), 6);
    enc.write_all(raw).unwrap();
    enc.finish().unwrap()
}

fn field(d: &[u8], at: usize) -> usize {
    usize::from_str_radix(std::str::from_utf8(&d[at..at + 8]).unwrap(), 16).unwrap()
}

/// Name, mode and content of each record.
fn list(d: &[u8]) -> Vec<(String, usize, Vec<u8>)> {
    let mut out = Vec::new();
    let mut off = 0usize;
    while off + 110 <= d.len() && &d[off..off + 6] == b"070701" {
        let mode = field(d, off + 14);
        let filesize = field(d, off + 54);
        let namesize = field(d, off + 94);
        let name = String::from_utf8(d[off + 110..off + 110 + namesize - 1].to_vec()).unwrap();
        let content = (off + 110 + namesize + 3) / 4 * 4;
        out.push((name, mode, d[content..content + filesize].to_vec()));
        off = (content + filesize + 3) / 4 * 4;
    }
    out
}

#[test]
fn supplementary_record_is_written_byte_for_byte() {
    let mut v = Vec::new();
    cpio_write_entry(&mut v, "a", b"xy", 0o100644);
    let mut want = Vec::new();
    want.extend_from_slice(b"07070100000000000081A40000000000000000000000010000000000000002");
    want.extend_from_slice(b"000000000000000000000000000000000000000200000000");
    want.extend_from_slice(b"a\0xy\0\0");
    assert_eq!(v, want);
    assert_eq!(v.len(), 116);
}

#[test]
fn supplementary_directory_and_trailer() {
    let mut v = Vec::new();
    cpio_write_dir(&mut v, "scripts");
    assert_eq!(v.len(), 120);
    assert_eq!(&v[14..22], b"000041ED");
    cpio_write_trailer(&mut v);
    assert_eq!(v.len(), 512);
    assert_eq!(
        list(&v),
        vec![
            ("scripts".to_string(), 0o040755, vec![]),
            ("TRAILER!!!".to_string(), 0, vec![]),
        ]
    );
}

#[test]
fn supplementary_initrd_unpacks_to_its_archive() {
    let z = build_supplementary_initrd("hook\n", "[Unit]\n", "#!/bin/sh\n").unwrap();
    assert_eq!(&z[..2], &[0x1f, 0x8b]);
    let raw = gunzip(&z);
    assert_eq!(raw, build_supplementary_archive("hook\n", "[Unit]\n", "#!/bin/sh\n"));
    assert_eq!(raw.len() % 512, 0);
    assert_eq!(
        list(&raw),
        vec![
            ("scripts".to_string(), 0o040755, vec![]),
            ("scripts/live-bottom".to_string(), 0o040755, vec![]),
            ("parkur-payload".to_string(), 0o040755, vec![]),
            ("scripts/live-bottom/99-parkur".to_string(), 0o100755, b"hook\n".to_vec()),
            ("parkur-payload/parkur.service".to_string(), 0o100644, b"[Unit]\n".to_vec()),
            ("parkur-payload/parkur-engine.sh".to_string(), 0o100755, b"#!/bin/sh\n".to_vec()),
            ("TRAILER!!!".to_string(), 0, vec![]),
        ]
    );
    assert_eq!(write_initrd_to_partition("E"), "E:\\parkur-hook.img");
}

#[test]
fn supplementary_gzip_errors_are_io_errors() {
    assert_eq!(
        failure(parkur::cpio_ops::gzip_outcome(Err((false, "full".to_string())))),
        (ErrorKind::Io, "gzip sıkıştırma hatası: full".to_string())
    );
    assert_eq!(
        failure(parkur::cpio_ops::gzip_outcome(Err((true, "full".to_string())))),
        (ErrorKind::Io, "gzip finalize hatası: full".to_string())
    );
}

#[test]
fn overlay_gzip_errors_are_build_errors() {
    assert_eq!(
        failure(parkur::initramfs_ops::gzip_outcome(Err((false, "full".to_string())))),
        (ErrorKind::InitramfsBuild, "gzip native write failed: full".to_string())
    );
    assert_eq!(
        failure(parkur::initramfs_ops::gzip_outcome(Err((true, "full".to_string())))),
        (ErrorKind::InitramfsBuild, "gzip native finish failed: full".to_string())
    );
    assert_eq!(gunzip(&gzip_native(b"abc").unwrap()), b"abc");
}

#[test]
fn overlay_record_is_written_byte_for_byte() {
    let mut v = Vec::new();
    write_newc_record(&mut v, 0x1_0000_00ab, 0o040755, "usr", &[]);
    let mut want = Vec::new();
    want.extend_from_slice(b"070701000000ab000041ed0000000000000000000000020000000000000000");
    want.extend_from_slice(b"000000000000000000000000000000000000000400000000");
    want.extend_from_slice(b"usr\0\0\0");
    assert_eq!(v, want);
    let mut w = vec![1u8, 2, 3, 4, 5];
    align4(&mut w);
    assert_eq!(w, vec![1, 2, 3, 4, 5, 0, 0, 0]);
}

fn blob(path: &str, data: &[u8]) -> NtfsModuleBlob {
    NtfsModuleBlob { cpio_path: path.to_string(), data: data.to_vec() }
}

fn staged(v: &[OverlayEntry]) -> Vec<(String, u32, Vec<u8>)> {
    v.iter().map(|e| (e.path.clone(), e.mode, e.content.clone())).collect()
}

#[test]
fn overlay_is_staged_in_order() {
    let v = stage_overlay_entries("#!/bin/sh\r\n", "boot\n", Some("se\ncr\ret"), &[]);
    let d = |p: &str| (p.to_string(), MODE_DIR, vec![]);
    assert_eq!(
        staged(&v),
        vec![
            d("usr"),
            d("usr/local"),
            d("usr/local/sbin"),
            d("var"),
            d("var/lib"),
            d("var/lib/nextos"),
            ("var/lib/nextos/install.pass".to_string(), MODE_FILE_SECRET, b"secret".to_vec()),
            ("init".to_string(), MODE_EXEC, b"#!/bin/sh\n".to_vec()),
            ("usr/local/sbin/nextos-firstboot".to_string(), MODE_EXEC, b"boot\n".to_vec()),
        ]
    );
}

#[test]
fn password_adds_one_overlay_entry() {
    let extras = [blob("lib/modules/6.1/kernel/fs/ntfs3/ntfs3.ko", b"ELF")];
    let with = staged(&stage_overlay_entries("i", "f", Some("pw"), &extras));
    let mut without = staged(&stage_overlay_entries("i", "f", None, &extras));
    without.insert(6, ("var/lib/nextos/install.pass".to_string(), MODE_FILE_SECRET, b"pw".to_vec()));
    assert_eq!(with, without);
}

#[test]
fn overlay_lists_each_directory_once_and_first() {
    let extras = [
        blob("lib/modules/6.1/a.ko", b"A"),
        blob("lib/modules/6.1/b.ko", b"B"),
        blob("usr/local/c.ko", b"C"),
    ];
    let v = staged(&stage_overlay_entries("i", "f", None, &extras));
    let names: Vec<&str> = v.iter().map(|e| e.0.as_str()).collect();
    assert_eq!(
        &names[8..],
        &[
            "lib",
            "lib/modules",
            "lib/modules/6.1",
            "lib/modules/6.1/a.ko",
            "lib/modules/6.1/b.ko",
            "usr/local/c.ko",
        ]
    );
    assert_eq!(v[11], ("lib/modules/6.1/a.ko".to_string(), MODE_FILE, b"A".to_vec()));
}

#[test]
fn archive_lists_what_was_staged() {
    let v = stage_overlay_entries("i", "ff", Some("pw"), &[blob("lib/x.ko", b"12345")]);
    let raw = build_cpio_newc(&v);
    assert_eq!(raw.len() % 512, 0);
    let mut want: Vec<(String, usize, Vec<u8>)> =
        staged(&v).into_iter().map(|e| (e.0, e.1 as usize, e.2)).collect();
    want.push(("TRAILER!!!".to_string(), 0, vec![]));
    assert_eq!(list(&raw), want);
    assert_eq!(field(&raw, 6), 1);
}

#[test]
fn directories_carry_no_content() {
    let e = OverlayEntry { path: "d".to_string(), mode: MODE_DIR, content: b"lost".to_vec() };
    let raw = build_cpio_newc(&[e]);
    assert_eq!(list(&raw)[0], ("d".to_string(), MODE_DIR as usize, vec![]));
}

#[test]
fn overlays_unpack_to_their_archives() {
    let z = build_overlay_cpio_gz("i", "f", "pw").unwrap();
    let v = stage_overlay_entries("i", "f", Some("pw"), &[]);
    assert_eq!(gunzip(&z), build_cpio_newc(&v));
    let z = build_overlay_cpio_gz_without_secrets("i", "f").unwrap();
    let v = stage_overlay_entries("i", "f", None, &[]);
    assert_eq!(gunzip(&z), build_cpio_newc(&v));
    let extras = [blob("lib/x.ko", b"12345")];
    let z = build_overlay_cpio_gz_with_extras("i", "f", None, &extras).unwrap();
    assert!(list(&gunzip(&z)).iter().any(|e| e.0 == "lib/x.ko" && e.2 == b"12345"));
}

#[test]
fn leading_records_are_passed_over() {
    let v = stage_overlay_entries("i", "f", None, &[]);
    let raw = build_cpio_newc(&v);
    let rest = skip_leading_cpio(&raw);
    assert!(rest.len() < 512);
    assert!(rest.iter().all(|b| *b == 0));
    let mut more = raw[..raw.len() - rest.len()].to_vec();
    more.extend_from_slice(b"\x28\xb5\x2f\xfdrest");
    assert_eq!(skip_leading_cpio(&more), b"\x28\xb5\x2f\xfdrest");
    assert_eq!(skip_leading_cpio(b"plain"), b"plain");
    let mut cut = b"070701".to_vec();
    cut.resize(110, b'0');
    assert_eq!(skip_leading_cpio(&cut), &cut[..]);
}

#[test]
fn sizes_of_the_root_file_system() {
    assert_eq!(read_uncompressed_size(&vec![1, 2, 3], 50), 6);
    assert_eq!(read_uncompressed_size(&vec![], 50), 190);
    assert_eq!(read_uncompressed_size(&vec![0, 0], 7), 26);
    assert_eq!(estimate_uncompressed_from_compressed(10), 38);
    assert_eq!(estimate_uncompressed_from_compressed(u64::MAX), u64::MAX / 10);
}

#[test]
fn plain_module_is_preferred() {
    let paths: Vec<String> = vec![
        "lib/modules/6.1/kernel/fs/ntfs3/ntfs3.ko.xz".to_string(),
        "bin/ntfs3.ko".to_string(),
        "lib/modules/6.1/kernel/fs/NTFS3/ntfs3.KO".to_string(),
        "lib/modules/6.2/kernel/fs/ntfs3/ntfs3.ko".to_string(),
    ];
    let plan = find_ntfs3_in_squashfs(&paths);
    assert_eq!(plan.pick, Some(2));
    assert_eq!(plan.reads, vec![0, 2]);
    let packed: Vec<String> = vec![
        "lib/modules/6.1/kernel/fs/ntfs3/ntfs3.ko.zst".to_string(),
        "lib/modules/6.1/kernel/fs/ntfs3/ntfs3.ko.gz".to_string(),
    ];
    let plan = find_ntfs3_in_squashfs(&packed);
    assert_eq!(plan.pick, Some(0));
    assert_eq!(plan.reads, vec![0, 1]);
    assert!(squashfs_has_ntfs3(&packed));
    assert!(!squashfs_has_ntfs3(&vec!["bin/ntfs3.ko".to_string()]));
    assert_eq!(node_full_path("//lib\\modules/x"), "lib/modules/x");
}

#[test]
fn modules_are_unpacked_by_their_ending() {
    let dir = "lib/modules/6.1/kernel/fs/ntfs3/";
    let zst = zstd::stream::encode_all(&b"ELF-zst"[..], 3).unwrap();
    let cases: Vec<(&str, Vec<u8>, &[u8])> = vec![
        ("ntfs3.ko.xz", xz(b"ELF-xz"), b"ELF-xz"),
        ("ntfs3.ko.zst", zst, b"ELF-zst"),
        ("ntfs3.ko.gz", gzip(b"ELF-gz"), b"ELF-gz"),
        ("ntfs3.ko", b"ELF".to_vec(), b"ELF"),
    ];
    for (name, raw, want) in cases {
        let m = extract_ntfs3_module(Some((format!("{dir}{name}"), raw))).unwrap().unwrap();
        assert_eq!(m.cpio_path, format!("{dir}ntfs3.ko"));
        assert_eq!(m.data, want);
    }
    assert!(extract_ntfs3_module(None).unwrap().is_none());
}

#[test]
fn damaged_modules_are_refused() {
    for (name, word) in [("m.ko.xz", "ntfs3.ko.xz"), ("m.ko.zst", "ntfs3.ko.zst"), ("m.ko.gz", "ntfs3.ko.gz")] {
        let r = extract_ntfs3_module(Some((name.to_string(), b"no archive at all".to_vec())));
        let (kind, message) = failure(r);
        assert_eq!(kind, ErrorKind::IsoExtraction);
        assert!(message.starts_with(&format!("{word} decompress failed: ")), "{}", message);
    }
    assert_eq!(
        failure(unpacked_module("m.ko.gz".to_string(), Err("bad".to_string()))),
        (ErrorKind::IsoExtraction, "ntfs3.ko.gz decompress failed: bad".to_string())
    );
    let m = unpacked_module("d/m.ko.zst".to_string(), Ok(vec![7])).unwrap();
    assert_eq!((m.cpio_path.as_str(), m.data), ("d/m.ko", vec![7]));
    assert_eq!(packing("m.KO.GZ"), Packing::Plain);
}

#[test]
fn directories_above_a_module() {
    assert_eq!(module_parent_dirs("lib/modules/x.ko"), vec!["lib", "lib/modules"]);
    assert_eq!(module_parent_dirs("lib\\modules\\x.ko"), vec!["lib", "lib/modules"]);
    assert_eq!(module_parent_dirs("/lib//./x.ko"), vec!["/", "/lib"]);
    assert_eq!(module_parent_dirs("./a/x.ko"), vec![".", "./a"]);
    assert!(module_parent_dirs("x.ko").is_empty());
    assert!(module_parent_dirs("").is_empty());
}

#[test]
fn drives_and_shares_come_before_directories() {
    assert_eq!(module_parent_dirs("C:/a/b"), vec!["C:", "C:/", "C:/a"]);
    assert_eq!(module_parent_dirs("c:\\a\\.\\b"), vec!["c:", "c:/", "c:/a"]);
    assert_eq!(module_parent_dirs("C:a/b"), vec!["C:", "C:a"]);
    assert_eq!(module_parent_dirs("C:./a"), vec!["C:"]);
    assert_eq!(module_parent_dirs("C:/a"), vec!["C:", "C:/"]);
    assert!(module_parent_dirs("C:/").is_empty());
    assert!(module_parent_dirs("C:").is_empty());
    assert_eq!(module_parent_dirs("1:/a/b"), vec!["1:", "1:/a"]);
    assert_eq!(
        module_parent_dirs("\\\\srv\\share\\a\\b"),
        vec!["//srv/share", "//srv/share/", "//srv/share/a"]
    );
    assert!(module_parent_dirs("//srv/share").is_empty());
    assert!(module_parent_dirs("//srv/share/").is_empty());
    assert_eq!(module_parent_dirs("//srv//a"), vec!["/", "/srv"]);
    assert_eq!(module_parent_dirs("//srv"), vec!["/"]);
    assert_eq!(module_parent_dirs("a/C:/b/c"), vec!["a", "C:", "C:b"]);
    assert_eq!(
        module_parent_dirs("\\\\.\\dev\\a\\b"),
        vec!["//./dev", "//./dev/", "//./dev/a"]
    );
    assert_eq!(module_parent_dirs("//.//a/b"), vec!["//./", "//.//", "//.//a"]);
    assert_eq!(
        module_parent_dirs("//?/UNC/s/t/a"),
        vec!["//?/UNC", "//?/UNC/", "//?/UNC/s", "//?/UNC/s/t"]
    );
}

#[test]
fn verbatim_paths_have_prefixes_of_their_own() {
    assert_eq!(
        module_parent_dirs("\\\\?\\UNC\\srv\\share\\a\\b"),
        vec!["//?/UNC/srv/share", "//?/UNC/srv/share/", "//?/UNC/srv/share/a"]
    );
    assert!(module_parent_dirs("\\\\?\\UNC\\srv\\share").is_empty());
    assert!(module_parent_dirs("\\\\?\\UNC\\srv\\share\\").is_empty());
    assert_eq!(
        module_parent_dirs("\\\\?\\UNC\\srv\\\\a\\b"),
        vec!["//?/UNC/srv", "//?/UNC/srv/", "//?/UNC/srv/a"]
    );
    assert_eq!(
        module_parent_dirs("\\\\?\\C:\\a\\b"),
        vec!["//?/C:", "//?/C:/", "//?/C:/a"]
    );
    assert_eq!(
        module_parent_dirs("\\\\?\\pics\\a\\\\b\\c"),
        vec!["//?/pics", "//?/pics/", "//?/pics/a", "//?/pics/a/b"]
    );
    assert_eq!(
        module_parent_dirs("\\\\?\\C:\\a\\.\\..\\b/c\\d"),
        vec!["//?/C:", "//?/C:/", "//?/C:/a", "//?/C:/a", "//?/C:/", "//?/C:/b/c"]
    );
    assert_eq!(
        module_parent_dirs("\\\\?\\C:\\a\\D:x\\b\\c"),
        vec!["//?/C:", "//?/C:/", "//?/C:/a", "D:x", "D:x/b"]
    );
}

#[test]
fn module_goes_into_the_overlay_where_the_initrd_lacks_it() {
    let module = || Some(blob("lib/ntfs3.ko", b"ELF"));
    assert!(overlay_extras(true, module()).is_empty());
    assert!(overlay_extras(false, None).is_empty());
    let extras = overlay_extras(false, module());
    assert_eq!(extras.len(), 1);
    assert_eq!((extras[0].cpio_path.as_str(), &extras[0].data[..]), ("lib/ntfs3.ko", &b"ELF"[..]));
    let names = |has, m| -> Vec<String> {
        let z = build_overlay_for_initrd("i", "f", has, m).unwrap();
        list(&gunzip(&z)).into_iter().map(|e| e.0).collect()
    };
    assert!(names(false, module()).contains(&"lib/ntfs3.ko".to_string()));
    assert!(!names(true, module()).contains(&"lib/ntfs3.ko".to_string()));
    assert_eq!(names(false, None), names(true, module()));
}
