use parkur::error::{ErrorKind, InstallerError};
use parkur::initramfs_ops::{build_cpio_newc, stage_overlay_entries};
use parkur::iso_ops::{
    any_has_ntfs, bytes_contain, cd001_offsets, check_iso_path, collect_initrd_scan_buffers,
    copy_iso_file, decoded_content, find_linux_kernel, find_squashfs_path, get_iso_size_mb,
    initrd_archive_offsets, initrd_bytes_have_ntfs, initrd_host_path, initrd_payload_has_ntfs,
    initrd_payloads, is_gzip, is_zstd, known_kernel, mount_error, mount_iso, mount_script,
    mounted_drive, probe_initrd_has_ntfs, probe_iso_layout, search_kernel_recursive, squashfs_host_path,
    try_gzip_decompress, try_zstd_decompress, unmount_iso, validate_iso_file,
    LayoutAction, LayoutProbe, LayoutReply, LinuxKernelInfo, MountAction, MountEvent,
};
use parkur::newc::skip_leading_cpio;
use parkur::tree::{Entry, Node};
use std::io::Write;

fn failure<T>(r: Result<T, InstallerError>) -> (ErrorKind, String) {
    match r {
        Ok(_) => panic!("an error was expected"),
        Err(e) => (e.kind(), e.message().clone()),
    }
}

fn gzip(raw: &[u8]) -> Vec<u8> {
    let mut enc = flate2::write::GzEncoder::new(Vec::new(), flate2::Compression::fast());
    enc.write_all(raw).unwrap();
    enc.finish().unwrap()
}

fn file(name: &str) -> Entry {
    Entry { name: name.to_string(), node: Node::File }
}

fn dir(name: &str, es: Vec<Entry>) -> Entry {
    Entry { name: name.to_string(), node: Node::Dir(es) }
}

#[test]
fn detects_ntfs3_in_plain_cpio_bytes() {
    let mut buf = b"070701....kernel/fs/ntfs3/ntfs3.ko\0".to_vec();
    assert!(initrd_payload_has_ntfs(&buf));
    buf = b"no filesystem here".to_vec();
    assert!(!initrd_payload_has_ntfs(&buf));
}

#[test]
fn iso_path_must_exist_and_end_in_iso() {
    assert_eq!(
        failure(check_iso_path("C:\\x.iso", false)),
        (ErrorKind::InvalidInput, "ERR_ISO_NOT_FOUND|path=C:\\x.iso".to_string())
    );
    assert_eq!(
        failure(check_iso_path("C:\\x.img", true)),
        (ErrorKind::InvalidInput, "ERR_NOT_ISO".to_string())
    );
    assert!(check_iso_path("C:\\X.ISO", true).is_ok());
}

#[test]
fn archives_are_no_images() {
    let heads: [&[u8]; 4] = [
        b"Rar!\x1a\x07\x00",
        b"Rar!\x1a\x07\x01\x00rest",
        b"7z\xbc\xaf\x27\x1c",
        b"PK\x03\x04",
    ];
    for head in heads {
        let marks = vec![Some(b"CD001".to_vec())];
        assert_eq!(
            failure(validate_iso_file(head, &marks)),
            (ErrorKind::InvalidInput, "ERR_ISO_IS_ARCHIVE".to_string())
        );
    }
}

#[test]
fn images_have_a_volume_descriptor() {
    assert_eq!(cd001_offsets(), vec![0x8001, 0x8801, 0x9001]);
    assert!(validate_iso_file(b"", &vec![None, None, Some(b"CD001".to_vec())]).is_ok());
    assert_eq!(
        failure(validate_iso_file(b"Rar!\x1a\x07", &vec![None, Some(b"CD002".to_vec()), None])),
        (ErrorKind::InvalidInput, "ERR_ISO_INVALID".to_string())
    );
}

#[test]
fn mount_scripts_quote_the_path() {
    let s = mount_script("C:\\it's.iso");
    assert!(s.starts_with("\n        $path = 'C:\\it''s.iso'\n        try {\n"));
    assert!(s.contains("Mount-DiskImage -ImagePath $path -PassThru -ErrorAction Stop"));
    assert!(s.contains("if ($vol -and $vol.DriveLetter) { $letter = $vol.DriveLetter; break }"));
    assert_eq!(
        unmount_iso("it's"),
        "Dismount-DiskImage -ImagePath 'it''s' -ErrorAction SilentlyContinue"
    );
}

#[test]
fn mounted_drive_is_one_letter() {
    assert_eq!(mounted_drive(Ok(" E\r\n".to_string())).unwrap(), "E");
    assert_eq!(
        failure(mounted_drive(Ok("EF".to_string()))),
        (
            ErrorKind::IsoExtraction,
            "ERR_ISO_MOUNT_FAILED|detail=invalid drive letter 'EF'".to_string()
        )
    );
    assert_eq!(
        failure(mounted_drive(Ok("7".to_string()))).1,
        "ERR_ISO_MOUNT_FAILED|detail=invalid drive letter '7'"
    );
    assert_eq!(
        failure(mounted_drive(Ok("é".to_string()))).1,
        "ERR_ISO_MOUNT_FAILED|detail=invalid drive letter 'é'"
    );
}

#[test]
fn images_are_looked_at_before_they_are_mounted() {
    let p = "C:\\x.iso";
    assert!(matches!(
        mount_iso(p, MountEvent::Looked { exists: true }),
        Ok(MountAction::Inspect)
    ));
    assert_eq!(
        failure(mount_iso(p, MountEvent::Looked { exists: false })).1,
        "ERR_ISO_NOT_FOUND|path=C:\\x.iso"
    );
    assert_eq!(failure(mount_iso("x", MountEvent::Looked { exists: true })).1, "ERR_NOT_ISO");
    let inspected = |head: &[u8], mark: &[u8]| MountEvent::Inspected {
        content: Ok((head.to_vec(), vec![None, Some(mark.to_vec())])),
    };
    match mount_iso(p, inspected(b"\0\0", b"CD001")) {
        Ok(MountAction::Unmount { script }) => assert_eq!(script, unmount_iso(p)),
        _ => panic!("an earlier mount should be undone"),
    }
    assert_eq!(failure(mount_iso(p, inspected(b"PK\x03\x04", b"CD001"))).1, "ERR_ISO_IS_ARCHIVE");
    assert_eq!(failure(mount_iso(p, inspected(b"", b"CD00"))).1, "ERR_ISO_INVALID");
    assert_eq!(
        failure(mount_iso(p, MountEvent::Inspected { content: Err("locked".to_string()) })),
        (ErrorKind::Io, "ISO open failed: locked".to_string())
    );
    match mount_iso(p, MountEvent::Unmounted) {
        Ok(MountAction::Mount { script }) => assert_eq!(script, mount_script(p)),
        _ => panic!("the image should be mounted"),
    }
    match mount_iso(p, MountEvent::Answered { reply: Ok("E\r\n".to_string()) }) {
        Ok(MountAction::Mounted { letter }) => assert_eq!(letter, "E"),
        _ => panic!("the image is mounted"),
    }
    let denied = Err(InstallerError::CommandExecution("denied".to_string()));
    assert_eq!(
        failure(mount_iso(p, MountEvent::Answered { reply: denied })).1,
        "ERR_ISO_MOUNT_LOCKED|detail=ERR_GENERIC|{\"detail\": \"denied\"}"
    );
}

#[test]
fn locked_images_are_told_apart() {
    let e = InstallerError::CommandExecution("The file is In Use by x".to_string());
    assert_eq!(
        failure(mounted_drive(Err(e))),
        (
            ErrorKind::IsoExtraction,
            "ERR_ISO_MOUNT_LOCKED|detail=ERR_GENERIC|{\"detail\": \"The file is In Use by x\"}"
                .to_string()
        )
    );
    assert_eq!(mount_error(" broken ").message(), "ERR_ISO_MOUNT_FAILED|detail=broken");
    assert_eq!(mount_error("Access DENIED").message(), "ERR_ISO_MOUNT_LOCKED|detail=Access DENIED");
}

#[test]
fn likely_kernels_come_first() {
    let mut found = vec![(false, false); 6];
    found[0] = (true, false);
    found[3] = (true, true);
    found[5] = (true, true);
    let k = find_linux_kernel(&found, &vec![]).unwrap();
    assert_eq!((k.kernel_path.as_str(), k.initrd_path.as_str()), ("casper/vmlinuz", "casper/initrd.lz"));
    assert!(known_kernel(&vec![(true, false), (false, true)]).is_none());
}

#[test]
fn kernels_are_found_by_a_walk() {
    let root = vec![
        dir("empty", vec![]),
        dir("d", vec![file("readme"), file("VMLINUZ-6.1"), file("initrd.gz")]),
        file("vmlinuz"),
        file("initramfs.img"),
    ];
    let k = find_linux_kernel(&vec![(false, false); 6], &root).unwrap();
    assert_eq!(k.kernel_path, "d/VMLINUZ-6.1");
    assert_eq!(k.initrd_path, "d/initrd.gz");
    assert_eq!(
        failure(search_kernel_recursive(&vec![file("vmlinuz")])),
        (
            ErrorKind::IsoExtraction,
            "Linux kernel (vmlinuz/initrd) not found inside ISO".to_string()
        )
    );
}

#[test]
fn walks_end_at_a_depth() {
    let mut es = vec![file("x.squashfs")];
    for i in 0..5 {
        es = vec![dir(&format!("d{i}"), es)];
    }
    assert_eq!(
        find_squashfs_path(&vec![false; 4], &es).unwrap(),
        "d4/d3/d2/d1/d0/x.squashfs"
    );
    let deeper = vec![dir("top", es)];
    assert_eq!(
        failure(find_squashfs_path(&vec![false; 4], &deeper)),
        (ErrorKind::IsoExtraction, "filesystem.squashfs not found inside ISO".to_string())
    );
}

#[test]
fn root_file_systems_are_found() {
    assert_eq!(
        find_squashfs_path(&vec![false, true, true, false], &vec![]).unwrap(),
        "casper/filesystem.squashfs"
    );
    for name in ["Airootfs.SFS", "squashfs.img", "a.SquashFS"] {
        let root = vec![
            Entry { name: "link".to_string(), node: Node::Other },
            dir("a", vec![file(name)]),
        ];
        assert_eq!(find_squashfs_path(&vec![], &root).unwrap(), format!("a/{name}"));
    }
}

#[test]
fn paths_on_the_image() {
    assert_eq!(copy_iso_file("E", "live/vmlinuz"), "E:\\live\\vmlinuz");
    assert_eq!(squashfs_host_path("E::", "live/f.squashfs"), "E:\\live\\f.squashfs");
    assert_eq!(initrd_host_path("E:", "live/initrd"), "E:\\live\\initrd");
    assert_eq!(get_iso_size_mb(3 * 1024 * 1024 + 5), 3);
}

#[test]
fn compressed_data_is_told_by_its_first_bytes() {
    assert!(is_gzip(b"\x1f\x8b"));
    assert!(!is_gzip(b"\x1f"));
    assert!(is_zstd(b"\x28\xb5\x2f\xfd"));
    assert!(!is_zstd(b"\x28\xb5\x2f"));
    assert_eq!(try_gzip_decompress(&gzip(b"abc")), Some(b"abc".to_vec()));
    assert_eq!(try_gzip_decompress(&gzip(b"")), None);
    assert_eq!(try_gzip_decompress(b"\x1f\x8bnonsense"), None);
    let z = zstd::stream::encode_all(&b"xyz"[..], 1).unwrap();
    assert_eq!(try_zstd_decompress(&z), Some(b"xyz".to_vec()));
    assert_eq!(try_zstd_decompress(b"\x28\xb5\x2f\xfd"), None);
    assert_eq!(decoded_content(Ok(vec![])), None);
    assert_eq!(decoded_content(Err("e".to_string())), None);
    assert_eq!(decoded_content(Ok(vec![1])), Some(vec![1]));
}

#[test]
fn payload_behind_an_early_archive_is_found() {
    let early = build_cpio_newc(&stage_overlay_entries("i", "f", None, &[]));
    let mut payload = Vec::new();
    let mut x: u32 = 1;
    for _ in 0..4000 {
        x = x.wrapping_mul(1664525).wrapping_add(1013904223);
        payload.push(b'a' + (x >> 24) as u8 % 20);
    }
    payload.extend_from_slice(b"kernel/fs/ntfs3/ntfs3.ko");
    let zst = zstd::stream::encode_all(&payload[..], 19).unwrap();
    for frame in [gzip(&payload), zst] {
        assert!(!initrd_payload_has_ntfs(&frame));
        let mut raw = early.clone();
        raw.extend_from_slice(&[0; 37]);
        raw.extend_from_slice(&frame);
        let at = early.len() + 37;
        assert_eq!(initrd_archive_offsets(&raw), vec![at, at]);
        assert_eq!(initrd_payloads(&raw), vec![payload.clone(), payload.clone()]);
        assert_eq!(collect_initrd_scan_buffers(&raw), vec![raw.clone(), payload.clone()]);
        assert!(initrd_bytes_have_ntfs(&raw));
        assert!(probe_initrd_has_ntfs(&raw));
        assert_eq!(skip_leading_cpio(&raw)[0], 0);
    }
}

#[test]
fn initrds_without_ntfs() {
    assert!(!initrd_bytes_have_ntfs(b""));
    assert!(!initrd_bytes_have_ntfs(b"ext4.ko only"));
    assert!(!initrd_bytes_have_ntfs(&gzip(b"ext4.ko only, and nothing else in here")));
    assert!(initrd_bytes_have_ntfs(b"usr/sbin/ntfs-3g"));
    assert!(any_has_ntfs(&vec![b"a".to_vec(), b"xntfs.koy".to_vec()]));
    assert!(!any_has_ntfs(&vec![]));
}

#[test]
fn every_name_of_ntfs_support_is_found() {
    for name in [
        "ntfs3.ko", "ntfs.ko", "ntfs3.ko.xz", "ntfs3.ko.zst", "ntfs.ko.xz", "kernel/fs/ntfs",
        "kernel/fs/ntfs3", "modules/ntfs", "modules/ntfs3", "bin/ntfs-3g", "sbin/ntfs-3g", "ntfs-3g",
    ] {
        assert!(initrd_payload_has_ntfs(format!("<{name}>").as_bytes()), "{}", name);
    }
}

#[test]
fn bytes_are_found_anywhere() {
    assert!(bytes_contain(b"abc", b"abc"));
    assert!(bytes_contain(b"abc", b"c"));
    assert!(!bytes_contain(b"abc", b"abcd"));
    assert!(!bytes_contain(b"", b"a"));
    assert!(bytes_contain(b"aab", b"ab"));
}

#[test]
fn layout_sums_up_the_image() {
    let l = probe_iso_layout(5 * 1024 * 1024, 11 * 1024 * 1024 + 1, false, true, 12, 20);
    assert_eq!(l.squashfs_compressed_mb, 5);
    assert_eq!(l.squashfs_uncompressed_mb, 11);
    assert_eq!((l.min_root_disk_gb, l.suggested_root_disk_gb), (12, 20));
    assert!(l.has_uefi_kernel && l.has_ntfs_in_initrd);
    assert!(!probe_iso_layout(0, 0, false, false, 1, 1).has_ntfs_in_initrd);
}

/// Look at an image whose action numbered `bad` fails; what was done, and what
/// came of it.
fn look(bad: usize) -> (Vec<String>, Result<(u64, u64, u32, u32, bool), InstallerError>) {
    let mut probe = LayoutProbe::new("C:\\x.iso".to_string(), "E".to_string());
    let mut done = Vec::new();
    loop {
        let e = || InstallerError::Io("bad".to_string());
        let ok = done.len() != bad;
        let reply = match probe.action() {
            LayoutAction::FindKernel { letter } => {
                done.push(format!("kernel {letter}"));
                let k = LinuxKernelInfo {
                    kernel_path: "live/vmlinuz".to_string(),
                    initrd_path: "live/initrd".to_string(),
                };
                LayoutReply::Kernel(if ok { Ok(k) } else { Err(e()) })
            }
            LayoutAction::ProbeInitrd { path } => {
                done.push(format!("initrd {path}"));
                LayoutReply::Flag(if ok { Ok(false) } else { Err(e()) })
            }
            LayoutAction::FindSquashfs { letter } => {
                done.push(format!("squashfs {letter}"));
                LayoutReply::Path(if ok { Ok("live/f.squashfs".to_string()) } else { Err(e()) })
            }
            LayoutAction::ProbeModule { path } => {
                done.push(format!("module {path}"));
                LayoutReply::Flag(if ok { Ok(true) } else { Err(e()) })
            }
            LayoutAction::Stat { path } => {
                done.push(format!("stat {path}"));
                LayoutReply::Size(if ok { Ok(5 << 20) } else { Err("bad".to_string()) })
            }
            LayoutAction::Measure { path } => {
                done.push(format!("measure {path}"));
                LayoutReply::Unpacked(if ok { Ok((7 << 20, 10, 20)) } else { Err(e()) })
            }
            LayoutAction::Unmount { script } => {
                done.push(script);
                LayoutReply::Tried
            }
            LayoutAction::Nothing => break,
        };
        probe.step(reply);
    }
    let facts = probe.outcome().unwrap().map(|i| {
        assert!(i.has_uefi_kernel);
        (
            i.squashfs_compressed_mb,
            i.squashfs_uncompressed_mb,
            i.min_root_disk_gb,
            i.suggested_root_disk_gb,
            i.has_ntfs_in_initrd,
        )
    });
    (done, facts)
}

#[test]
fn looked_at_images_are_unmounted() {
    let (all, r) = look(99);
    assert_eq!(r.unwrap(), (5, 7, 10, 20, true));
    assert_eq!(
        all,
        vec![
            "kernel E".to_string(),
            "initrd E:\\live\\initrd".to_string(),
            "squashfs E".to_string(),
            "module E:\\live\\f.squashfs".to_string(),
            "stat E:\\live\\f.squashfs".to_string(),
            "measure E:\\live\\f.squashfs".to_string(),
            unmount_iso("C:\\x.iso"),
        ]
    );
    for bad in 0..6 {
        let (done, r) = look(bad);
        let mut want = all[..bad + 1].to_vec();
        want.push(unmount_iso("C:\\x.iso"));
        assert_eq!(done, want);
        let text = if bad == 4 { "squashfs stat failed: bad" } else { "bad" };
        assert_eq!(failure(r), (ErrorKind::Io, text.to_string()));
    }
    let mut p = LayoutProbe::new("C:\\x.iso".to_string(), "E".to_string());
    p.step(LayoutReply::Tried);
    assert!(matches!(p.action(), LayoutAction::FindKernel { .. }));
    assert!(p.outcome().is_none());
}
