use parkur::error::{ErrorKind, InstallerError};
use parkur::image_ops::{
    boot_copy_error, build_layout, copy_squashfs_from_iso, copy_step, create_preallocated_root_disk,
    createnew_args, disk_step_error, escape_conf, format_marker, free_bytes_script, fsutil_reply,
    get_free_bytes, get_ntfs_volume_serial, hashed_provisioning_config, place_boot_payload_on_host,
    read_squashfs_size, remove_host_artifacts, remove_host_folder, setvaliddata_args,
    validate_capacity, volume_serial_script, write_provisioning_config, DiskStep, Removal,
    BCD_TIMEOUT_BACKUP_FILENAME, COPY_CHUNK, MAX_ROOT_DISK_GB, MIN_ROOT_DISK_GB,
    SAFETY_HEADROOM_BYTES,
};
use parkur::password::{password_matches, HashedPassword};

const MIB: u64 = 1024 * 1024;

fn failure<T>(r: Result<T, InstallerError>) -> (ErrorKind, String) {
    match r {
        Ok(_) => panic!("an error was expected"),
        Err(e) => (e.kind(), e.message().clone()),
    }
}

#[test]
fn layout_of_an_installation() {
    let l = build_layout("D:");
    assert_eq!(l.drive_letter, "D");
    assert_eq!(l.host_dir, "D:\\NextOS");
    assert_eq!(l.boot_dir, "D:\\NextOS\\boot");
    assert_eq!(l.root_disk, "D:\\NextOS\\root.disk");
    assert_eq!(l.squashfs, "D:\\NextOS\\filesystem.squashfs");
    assert_eq!(l.config, "D:\\NextOS\\nextos.conf");
    assert_eq!(l.host_kernel, "D:\\NextOS\\boot\\vmlinuz");
    assert_eq!(l.host_initrd, "D:\\NextOS\\boot\\initrd.img");
    assert_eq!(l.host_overlay, "D:\\NextOS\\boot\\overlay.cpio.gz");
    assert_eq!(l.root_disk_unix_path, "/NextOS/root.disk");
    assert_eq!(l.squashfs_unix_path, "/NextOS/filesystem.squashfs");
    assert_eq!((MIN_ROOT_DISK_GB, MAX_ROOT_DISK_GB), (10, 100));
    assert!(BCD_TIMEOUT_BACKUP_FILENAME.starts_with('.'));
}

#[test]
fn free_space_is_read() {
    assert_eq!(free_bytes_script("D:"), "(Get-Volume -DriveLetter 'D').SizeRemaining");
    assert_eq!(get_free_bytes(Ok(" 12345\r\n".to_string())).unwrap(), 12345);
    assert_eq!(get_free_bytes(Ok("18446744073709551615".to_string())).unwrap(), u64::MAX);
    for bad in ["", "-1", "1.5", "18446744073709551616"] {
        assert_eq!(
            failure(get_free_bytes(Ok(format!(" {bad} ")))),
            (ErrorKind::DiskOperation, format!("free space query failed: '{bad}'"))
        );
    }
    assert_eq!(failure(get_free_bytes(Err(InstallerError::Io("x".to_string())))).1, "x");
}

#[test]
fn capacity_has_headroom() {
    assert_eq!(SAFETY_HEADROOM_BYTES, 2048 * MIB);
    let need = 10 + 20 + 2048 * MIB;
    assert!(validate_capacity("D:", need, 10, 20).is_ok());
    assert_eq!(
        failure(validate_capacity("D:", need - 1, 10, 20)),
        (
            ErrorKind::DiskOperation,
            "Insufficient free space on D:\\ — have 2 GB, need 2 GB (root.disk + squashfs + 2 GB headroom)."
                .to_string()
        )
    );
    assert!(validate_capacity("D:", u64::MAX, u64::MAX, u64::MAX).is_ok());
    assert!(validate_capacity("D:", u64::MAX - 1, u64::MAX, 0).is_err());
}

fn writes(size: u64) -> Vec<(u64, u64, bool)> {
    let mut at = 0;
    let mut out = Vec::new();
    for step in create_preallocated_root_disk("p", "d", size, false) {
        match step {
            DiskStep::Open { .. } => at = 0,
            DiskStep::Seek { offset } => at = offset,
            DiskStep::Wipe { len, at_head } => {
                out.push((at, len, at_head));
                at += len;
            }
            _ => {}
        }
    }
    out
}

#[test]
fn both_ends_of_the_root_disk_are_wiped() {
    let want: Vec<(u64, u64, bool)> =
        (0..8).chain(96..100).map(|m| (m * MIB, MIB, m < 8)).collect();
    assert_eq!(writes(100 * MIB), want);
    assert_eq!(writes(0), vec![]);
    assert_eq!(writes(5), vec![(0, 5, true)]);
    let plan = writes(8 * MIB + 3);
    assert_eq!(plan.len(), 9);
    assert_eq!(plan[8], (8 * MIB, 3, false));
    let plan = writes(12 * MIB + 7);
    assert_eq!(&plan[8..], &[
        (8 * MIB + 7, MIB, false),
        (9 * MIB + 7, MIB, false),
        (10 * MIB + 7, MIB, false),
        (11 * MIB + 7, MIB, false),
    ]);
}

fn step_name(step: &DiskStep) -> String {
    match step {
        DiskStep::RemoveOld { path } => format!("old {path}"),
        DiskStep::RemoveMarker { path } => format!("marker {path}"),
        DiskStep::Fsutil { action, args } => format!("{action}: {}", args.join(" ")),
        DiskStep::Open { path } => format!("open {path}"),
        DiskStep::Seek { offset } => format!("seek {offset}"),
        DiskStep::Wipe { len, .. } => format!("wipe {len}"),
        DiskStep::Sync => "sync".to_string(),
    }
}

#[test]
fn root_disk_is_made_step_by_step() {
    let steps = create_preallocated_root_disk("D:\\N\\r", "D:\\N", 5, true);
    let got: Vec<String> = steps.iter().map(step_name).collect();
    let want = [
        "old D:\\N\\r",
        "marker D:\\N\\.nextos-formatted",
        "createnew: file createnew D:\\N\\r 5",
        "setvaliddata: file setvaliddata D:\\N\\r 5",
        "open D:\\N\\r",
        "wipe 5",
        "sync",
    ];
    assert_eq!(got, want);
    let fresh = create_preallocated_root_disk("D:\\N\\r", "D:\\N", 5, false);
    assert_eq!(fresh.iter().map(step_name).collect::<Vec<String>>(), &want[1..]);
    let errors: Vec<Option<(ErrorKind, String)>> = steps
        .iter()
        .map(|s| disk_step_error(s, "x").map(|e| (e.kind(), e.message().clone())))
        .collect();
    let io = |m: &str| Some((ErrorKind::Io, m.to_string()));
    assert_eq!(
        errors,
        vec![
            io("existing root.disk removal failed: x"),
            None,
            io("fsutil createnew spawn failed: x"),
            io("fsutil setvaliddata spawn failed: x"),
            io("root.disk open failed: x"),
            io("root.disk head wipe failed: x"),
            io("root.disk sync failed: x"),
        ]
    );
    for (step, want) in [
        (DiskStep::Seek { offset: 1 }, "root.disk seek failed: x"),
        (DiskStep::Wipe { len: 1, at_head: false }, "root.disk tail wipe failed: x"),
    ] {
        assert_eq!(disk_step_error(&step, "x").unwrap().message(), want);
    }
}

#[test]
fn root_disk_is_made_by_fsutil() {
    assert_eq!(format_marker("D:\\NextOS"), "D:\\NextOS\\.nextos-formatted");
    assert_eq!(createnew_args("p", 42), vec!["file", "createnew", "p", "42"]);
    assert_eq!(setvaliddata_args("p", 0), vec!["file", "setvaliddata", "p", "0"]);
    assert!(fsutil_reply("createnew", true, "").is_ok());
    assert_eq!(
        failure(fsutil_reply("setvaliddata", false, " denied\r\n")),
        (ErrorKind::ImageOperation, "fsutil setvaliddata failed: denied".to_string())
    );
}

#[test]
fn boot_files_go_to_the_host() {
    let l = build_layout("D");
    let cs = place_boot_payload_on_host(&l, "k", "i", "o");
    let got: Vec<(&str, &str, &str)> =
        cs.iter().map(|c| (c.what.as_str(), c.src.as_str(), c.dest.as_str())).collect();
    assert_eq!(
        got,
        vec![
            ("kernel", "k", "D:\\NextOS\\boot\\vmlinuz"),
            ("initrd", "i", "D:\\NextOS\\boot\\initrd.img"),
            ("overlay", "o", "D:\\NextOS\\boot\\overlay.cpio.gz"),
        ]
    );
    let e = boot_copy_error(&cs[1], "full");
    assert_eq!(
        (e.kind(), e.message().as_str()),
        (ErrorKind::Io, "initrd copy to host failed (i -> D:\\NextOS\\boot\\initrd.img): full")
    );
    assert_eq!(copy_squashfs_from_iso("E:", "live/f.squashfs"), "E:\\live\\f.squashfs");
    assert_eq!(COPY_CHUNK, 16 * 1024 * 1024);
    assert_eq!(read_squashfs_size("E:\\f", Ok(7)).unwrap(), 7);
    assert_eq!(
        failure(read_squashfs_size("E:\\f", Err("gone".to_string()))),
        (ErrorKind::Io, "squashfs stat failed (E:\\f): gone".to_string())
    );
}

#[test]
fn volume_serial_is_hexadecimal() {
    assert_eq!(
        volume_serial_script("D:"),
        "(Get-CimInstance -ClassName Win32_LogicalDisk -Filter \"DeviceID='D:'\" -ErrorAction Stop).VolumeSerialNumber"
    );
    assert_eq!(get_ntfs_volume_serial("D:", Ok(" ab-Cd\r\n12".to_string())).unwrap(), "ABCD12");
    assert_eq!(
        failure(get_ntfs_volume_serial("D:", Ok("xyz".to_string()))),
        (ErrorKind::DiskOperation, "NTFS volume serial query failed for D:".to_string())
    );
    assert_eq!(
        failure(get_ntfs_volume_serial("D:", Err(InstallerError::Io("x".to_string())))).1,
        "x"
    );
}

#[test]
fn configuration_has_one_line_per_setting() {
    assert_eq!(escape_conf("a\\b\r\nc"), "a\\\\bc");
    let text = write_provisioning_config(
        &build_layout("D"),
        "ayaz",
        "$6$x\nNEXTOS_USERNAME=root",
        "pc",
        "tr_TR.UTF-8",
        "Europe\\Istanbul\r\n",
        "ABCD1234",
    );
    assert_eq!(
        text,
        "NEXTOS_USERNAME=ayaz\nNEXTOS_PASSWORD=$6$xNEXTOS_USERNAME=root\nNEXTOS_HOSTNAME=pc\nNEXTOS_LOCALE=tr_TR.UTF-8\nNEXTOS_TIMEZONE=Europe\\\\Istanbul\nNEXTOS_HOST_SERIAL=ABCD1234\nNEXTOS_ROOT_DISK_PATH=/NextOS/root.disk\nNEXTOS_SQUASHFS_PATH=/NextOS/filesystem.squashfs\n"
    );
    assert_eq!(text.lines().count(), 8);
}

#[test]
fn host_files_are_removed_before_their_directories() {
    let rs: Vec<String> = remove_host_artifacts(&build_layout("D"))
        .into_iter()
        .map(|r| match r {
            Removal::File(p) => p,
            Removal::EmptyDir(p) => format!("{p}\\"),
            Removal::Tree(p) => format!("{p}\\*"),
        })
        .collect();
    assert_eq!(
        rs,
        vec![
            "D:\\NextOS\\root.disk",
            "D:\\NextOS\\filesystem.squashfs",
            "D:\\NextOS\\nextos.conf",
            "D:\\NextOS\\boot\\vmlinuz",
            "D:\\NextOS\\boot\\initrd.img",
            "D:\\NextOS\\boot\\overlay.cpio.gz",
            "D:\\NextOS\\.nextos-formatted",
            "D:\\NextOS\\boot\\",
            "D:\\NextOS\\",
        ]
    );
}

#[test]
fn uninstalling_removes_the_whole_folder() {
    let rs = remove_host_folder(&build_layout("D:"));
    assert_eq!(rs.len(), 8);
    assert!(matches!(&rs[0], Removal::File(p) if p == "D:\\NextOS\\root.disk"));
    assert!(matches!(&rs[6], Removal::File(p) if p == "D:\\NextOS\\.nextos-formatted"));
    assert!(matches!(&rs[7], Removal::Tree(p) if p == "D:\\NextOS"));
}

#[test]
fn configuration_holds_the_hash_of_the_password() {
    let l = build_layout("D");
    let hashed = HashedPassword::new("Dene me123!");
    let hash = hashed.as_ref().unwrap().text().to_string();
    assert!(password_matches("Dene me123!", &hash));
    let text = hashed_provisioning_config(&l, "u", hashed, "h", "l", "t", "S").unwrap();
    assert_eq!(text, write_provisioning_config(&l, "u", &hash, "h", "l", "t", "S"));
    assert!(text.contains(&format!("\nNEXTOS_PASSWORD={hash}\n")));
    assert!(!text.contains("Dene me123!"));
    let e = Err(InstallerError::Io("x".to_string()));
    assert_eq!(failure(hashed_provisioning_config(&l, "u", e, "h", "l", "t", "S")).1, "x");
}

#[test]
fn copies_are_counted_and_told() {
    assert_eq!(copy_step(0, 5, 12), (5, Some((5, 12))));
    assert_eq!(copy_step(5, 7, 12), (12, Some((12, 12))));
    assert_eq!(copy_step(12, 0, 12), (12, None));
    assert_eq!(copy_step(0, 0, 0), (0, None));
    assert_eq!(copy_step(u64::MAX - 1, 1, 3), (u64::MAX, Some((u64::MAX, 3))));
}
