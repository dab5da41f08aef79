use parkur::boot_ops::{
    backup_esp_file_once, backup_firmware_boot_timeout_to_host, bcdedit_spawn_error,
    cleanup_esp_payload, cleanup_nextos_firmware_entries, collect_efi_from_dir,
    collect_efi_from_efi_img, copied_entry, copy_efi_payload_from_iso, copy_entry_args,
    delete_entry_args, deleted_entries, detect_boot_mode, efi_dest, efi_dirs, efi_img_candidates,
    efi_img_letter, efi_img_steps, efi_place_steps, entry_call_args, esp_nextos_dir,
    generate_loop_grub_cfg, grub_cfg_error, grub_step_error, grub_steps,
    is_pe_efi, known_efi_paths, mount_esp, next_efi_source, pick_efi_img, read_firmware_boot_timeout,
    read_timeout_args, reboot_args, reboot_system, register_firmware_entry, restore_esp_file,
    restore_firmware_boot_timeout_from_host, run_bcdedit, set_nextos_bootsequence, write_grub_cfg,
    BootMode, EfiCopies, EfiSource, EfiStage, EntryAction, EntryEvent, FileStep, GrubStep, ImgStep,
    PlaceStep, BOOT_MODE_SCRIPT, FIRMWARE_ENTRIES_SCRIPT,
    MOUNT_ESP_SCRIPT,
};
use parkur::error::{ErrorKind, InstallerError};
use parkur::tree::{Entry, Node};
use std::collections::BTreeMap;

fn failure<T>(r: Result<T, InstallerError>) -> (ErrorKind, String) {
    match r {
        Ok(_) => panic!("an error was expected"),
        Err(e) => (e.kind(), e.message().clone()),
    }
}

fn apply(fs: &mut BTreeMap<String, Vec<u8>>, steps: Vec<FileStep>) {
    for s in steps {
        match s {
            FileStep::Copy { from, to } => {
                if let Some(c) = fs.get(&from).cloned() {
                    fs.insert(to, c);
                }
            }
            FileStep::Rename { from, to } => {
                if let Some(c) = fs.remove(&from) {
                    fs.insert(to, c);
                }
            }
            FileStep::Remove { path } => {
                fs.remove(&path);
            }
        }
    }
}

fn overwrite(fs: &mut BTreeMap<String, Vec<u8>>, path: &str, content: &[u8]) {
    let backup = format!("{path}.parkur-backup");
    let steps = backup_esp_file_once(path, fs.contains_key(path), fs.contains_key(&backup));
    apply(fs, steps);
    fs.insert(path.to_string(), content.to_vec());
}

fn restore(fs: &mut BTreeMap<String, Vec<u8>>, path: &str) {
    let backup = format!("{path}.parkur-backup");
    let steps = restore_esp_file(path, fs.contains_key(&backup));
    apply(fs, steps);
}

#[test]
fn original_comes_back_after_any_number_of_installs() {
    let mut fs = BTreeMap::new();
    fs.insert("S:\\g".to_string(), b"original".to_vec());
    let before = fs.clone();
    for n in 1..4u8 {
        overwrite(&mut fs, "S:\\g", &[n]);
        assert_eq!(fs["S:\\g.parkur-backup"], b"original");
    }
    restore(&mut fs, "S:\\g");
    assert_eq!(fs, before);
}

#[test]
fn new_file_is_gone_after_restore() {
    let mut fs = BTreeMap::new();
    overwrite(&mut fs, "S:\\g", b"new");
    assert_eq!(fs.len(), 1);
    restore(&mut fs, "S:\\g");
    assert!(fs.is_empty());
}

#[test]
fn firmware_is_uefi_unless_it_says_bios() {
    assert_eq!(detect_boot_mode(Ok("UEFI\r\n".to_string())).unwrap(), BootMode::UEFI);
    assert_eq!(detect_boot_mode(Ok(" BIOS ".to_string())).unwrap(), BootMode::LegacyBIOS);
    assert_eq!(detect_boot_mode(Ok("?".to_string())).unwrap(), BootMode::UEFI);
    assert_eq!(failure(detect_boot_mode(Err(InstallerError::Io("x".to_string())))).1, "x");
    assert!(BOOT_MODE_SCRIPT.contains("-Name 'PEFirmwareType'"));
}

#[test]
fn system_partition_gets_one_letter() {
    assert_eq!(mount_esp(Ok("S\r\n".to_string())).unwrap(), "S");
    assert_eq!(
        failure(mount_esp(Ok("SS".to_string()))),
        (ErrorKind::BootloaderConfig, "Invalid ESP drive letter: 'SS'".to_string())
    );
    assert_eq!(
        failure(mount_esp(Err(InstallerError::Io("gone".to_string())))),
        (
            ErrorKind::BootloaderConfig,
            "ESP mount failed: ERR_GENERIC|{\"detail\": \"gone\"}".to_string()
        )
    );
    assert!(MOUNT_ESP_SCRIPT.contains("if (-not (Test-Path \"${l}:\\\")) {"));
}

#[test]
fn efi_programs_are_pe_images() {
    assert!(is_pe_efi(b"MZ", Some(1024)));
    assert!(!is_pe_efi(b"MZ", Some(1023)));
    assert!(!is_pe_efi(b"M", Some(4096)));
    assert!(!is_pe_efi(b"ZM", Some(4096)));
    assert!(!is_pe_efi(b"MZ", None));
}

#[test]
fn each_efi_program_is_copied_once() {
    let mut c = EfiCopies::new();
    assert!(c.is_empty());
    assert!(c.try_copy_efi_file("BOOTX64.EFI", true));
    assert!(!c.try_copy_efi_file("BOOTX64.EFI", false));
    assert!(!c.try_copy_efi_file("readme.txt", true));
    assert!(c.accepts("BOOTX64.EFI", true, b"MZ", Some(1024)));
    assert!(!c.accepts("BOOTX64.EFI", true, b"MZ", Some(1023)));
    c.offer("BOOTX64.EFI", true, b"MZ", Some(1024), false);
    c.offer("BOOTX64.EFI", true, b"MX", Some(1024), true);
    c.offer("BOOTX64.EFI", false, b"MZ", Some(1024), true);
    c.offer("readme.txt", true, b"MZ", Some(1024), true);
    assert!(c.is_empty());
    c.offer("BOOTX64.EFI", true, b"MZ", Some(1024), true);
    assert!(!c.try_copy_efi_file("bootx64.efi", true));
    assert!(!c.accepts("bootx64.efi", true, b"MZ", Some(1024)));
    assert!(c.has("bootx64.efi") && !c.has("BOOTX64.EFI"));
    assert!(c.wants("grubx64.efi", true));
    assert_eq!(efi_dest("S:\\EFI\\NextOS", "a.efi"), "S:\\EFI\\NextOS\\a.efi");
}

#[test]
fn efi_programs_are_looked_for() {
    let known = known_efi_paths("E:");
    assert_eq!(known.len(), 10);
    assert_eq!(known[0], "E:\\EFI\\boot\\bootx64.efi");
    assert_eq!(known[9], "E:\\EFI\\pardus\\grubx64.efi");
    assert_eq!(efi_dirs("E"), vec!["E:\\EFI", "E:\\efi"]);
    assert_eq!(
        efi_img_candidates("E:"),
        vec!["E:\\efi.img", "E:\\boot\\grub\\efi.img", "E:\\EFI\\boot\\efi.img"]
    );
    assert_eq!(pick_efi_img("E", &vec![false, true, true]).unwrap(), "E:\\boot\\grub\\efi.img");
    assert!(pick_efi_img("E", &vec![false, false, false]).is_none());
    let s = collect_efi_from_efi_img("C:\\it's.img");
    assert!(s.contains("$path = 'C:\\it''s.img'\n"));
    assert!(s.contains("if (-not $letter) { throw \"efi.img mounted but no drive letter\" }"));
    assert_eq!(efi_img_letter(Ok("F\n".to_string())).unwrap(), Some("F".to_string()));
    let named = |reply| {
        let (steps, outcome) = efi_img_steps("C:\\t.img", reply);
        let names: Vec<String> = steps
            .into_iter()
            .map(|s| match s {
                ImgStep::Walk { dir } => format!("walk {dir}"),
                ImgStep::Files { dir } => format!("files {dir}"),
                ImgStep::Run { script } => script,
                ImgStep::Remove { path } => format!("remove {path}"),
            })
            .collect();
        (names, outcome.is_ok())
    };
    let dismount = "Dismount-DiskImage -ImagePath 'C:\\t.img' -ErrorAction SilentlyContinue";
    assert_eq!(
        named(Ok(" F\r\n".to_string())),
        (
            vec!["walk F:\\EFI", "files F:\\", dismount, "remove C:\\t.img"]
                .into_iter()
                .map(String::from)
                .collect(),
            true
        )
    );
    assert_eq!(
        named(Ok("FG".to_string())),
        (vec![dismount.to_string(), "remove C:\\t.img".to_string()], true)
    );
    assert_eq!(
        named(Err(InstallerError::Io("no".to_string()))),
        (vec!["remove C:\\t.img".to_string()], false)
    );
    assert_eq!(efi_img_letter(Ok("".to_string())).unwrap(), None);
    assert_eq!(
        failure(efi_img_letter(Err(InstallerError::Io("no".to_string())))),
        (
            ErrorKind::BootloaderConfig,
            "efi.img mount failed: ERR_GENERIC|{\"detail\": \"no\"}".to_string()
        )
    );
}

#[test]
fn efi_directories_are_walked() {
    let f = |n: &str| Entry { name: n.to_string(), node: Node::File };
    let d = |n: &str, es: Vec<Entry>| Entry { name: n.to_string(), node: Node::Dir(es) };
    let mut deep = vec![f("deep.efi")];
    for _ in 0..4 {
        deep = vec![d("x", deep)];
    }
    let es = vec![d("boot", vec![f("a.efi"), f("b.txt")]), f("c.efi"), d("x", deep.clone_tree())];
    let mut out = Vec::new();
    collect_efi_from_dir(&es, "", 0, &mut out);
    let got: Vec<(&str, &str)> = out.iter().map(|p| (p.0.as_str(), p.1.as_str())).collect();
    assert_eq!(got, vec![("a.efi", "boot/a.efi"), ("b.txt", "boot/b.txt"), ("c.efi", "c.efi")]);
    let mut out = Vec::new();
    collect_efi_from_dir(&deep, "", 0, &mut out);
    assert_eq!(out[0].1, "x/x/x/x/deep.efi");
}

trait CloneTree {
    fn clone_tree(&self) -> Vec<Entry>;
}

impl CloneTree for Vec<Entry> {
    fn clone_tree(&self) -> Vec<Entry> {
        self.iter()
            .map(|e| Entry {
                name: e.name.clone(),
                node: match &e.node {
                    Node::File => Node::File,
                    Node::Dir(es) => Node::Dir(es.clone_tree()),
                    Node::Other => Node::Other,
                },
            })
            .collect()
    }
}

#[test]
fn shim_is_preferred_to_grub() {
    let copies = |names: &[&str]| {
        let mut c = EfiCopies::new();
        for n in names {
            c.offer(n, true, b"MZ", Some(2048), true);
        }
        c
    };
    let p = copy_efi_payload_from_iso(&copies(&["grubx64.efi", "bootx64.efi", "shimx64.efi"]), "S");
    let p = p.unwrap();
    assert_eq!(p.boot_path, "\\EFI\\NextOS\\shimx64.efi");
    assert_eq!(p.boot_dir, "S:\\EFI\\BOOT");
    assert_eq!(p.primary_src, "S:\\EFI\\NextOS\\shimx64.efi");
    assert_eq!(p.removable_dest, "S:\\EFI\\BOOT\\BOOTX64.EFI");
    assert_eq!(
        p.grub,
        Some(("S:\\EFI\\NextOS\\grubx64.efi".to_string(), "S:\\EFI\\BOOT\\grubx64.efi".to_string()))
    );
    let placed = |there| -> Vec<String> {
        efi_place_steps(&p, there)
            .into_iter()
            .map(|s| match s {
                PlaceStep::MakeDir { path } => format!("dir {path}"),
                PlaceStep::BackUp { path } => format!("keep {path}"),
                PlaceStep::Copy { from, to } => format!("{from} to {to}"),
            })
            .collect()
    };
    let want = [
        "dir S:\\EFI\\BOOT",
        "keep S:\\EFI\\BOOT\\BOOTX64.EFI",
        "S:\\EFI\\NextOS\\shimx64.efi to S:\\EFI\\BOOT\\BOOTX64.EFI",
        "keep S:\\EFI\\BOOT\\grubx64.efi",
        "S:\\EFI\\NextOS\\grubx64.efi to S:\\EFI\\BOOT\\grubx64.efi",
    ];
    assert_eq!(placed(true), want);
    assert_eq!(placed(false), &want[..3]);
    let p = copy_efi_payload_from_iso(&copies(&["grubx64.efi", "BOOTX64.EFI"]), "S").unwrap();
    assert_eq!(p.boot_path, "\\EFI\\NextOS\\bootx64.efi");
    let p = copy_efi_payload_from_iso(&copies(&["grubx64.efi"]), "S").unwrap();
    assert_eq!(p.boot_path, "\\EFI\\NextOS\\grubx64.efi");
    assert!(p.grub.is_none());
    assert_eq!(efi_place_steps(&p, true).len(), 3);
    assert_eq!(
        failure(copy_efi_payload_from_iso(&copies(&[]), "S")),
        (ErrorKind::BootloaderConfig, "ERR_NO_UEFI_EFI".to_string())
    );
    assert_eq!(
        failure(copy_efi_payload_from_iso(&copies(&["mmx64.efi"]), "S")),
        (ErrorKind::BootloaderConfig, "ERR_NO_BOOT_APP".to_string())
    );
}

#[test]
fn boot_menu_names_the_host_volume() {
    let cfg = generate_loop_grub_cfg("ABCD1234");
    assert!(cfg.starts_with("set default=\"0\"\nset timeout=\"3\"\n"));
    assert!(cfg.contains(
        "    linux ($ntfsroot)/NextOS/boot/vmlinuz ro nextos_host_serial=ABCD1234 nextos_root_disk=/NextOS/root.disk nextos_squashfs=/NextOS/filesystem.squashfs\n"
    ));
    assert!(cfg.contains("menuentry \"Windows\" {\n"));
    assert!(cfg.ends_with("bootmgfw.efi\n}\n"));
    assert!(!cfg.contains('\r'));
}

#[test]
fn boot_menu_goes_to_every_place() {
    let p = write_grub_cfg("S", "a\r\nb\n");
    assert_eq!(p.text, "a\nb\n");
    let want: Vec<(String, String)> =
        ["EFI\\debian", "EFI\\pardus", "EFI\\BOOT", "EFI\\NextOS", "boot\\grub"]
            .iter()
            .map(|d| (format!("S:\\{d}"), format!("S:\\{d}\\grub.cfg")))
            .collect();
    assert_eq!(p.targets, want);
    assert_eq!(p.primary, "S:\\EFI\\debian\\grub.cfg");
    let e = grub_cfg_error(&p.primary, "full");
    assert_eq!(
        (e.kind(), e.message().as_str()),
        (ErrorKind::BootloaderConfig, "grub.cfg write failed (S:\\EFI\\debian\\grub.cfg): full")
    );
}

#[test]
fn cleanup_covers_what_was_written() {
    let c = cleanup_esp_payload("S");
    assert_eq!(c.nextos_dir, esp_nextos_dir("S"));
    assert_eq!(c.nextos_dir, "S:\\EFI\\NextOS");
    assert_eq!(
        c.overwritten,
        vec![
            "S:\\EFI\\BOOT\\BOOTX64.EFI",
            "S:\\EFI\\BOOT\\grubx64.efi",
            "S:\\EFI\\BOOT\\grub.cfg",
            "S:\\EFI\\debian\\grub.cfg",
            "S:\\EFI\\pardus\\grub.cfg",
            "S:\\boot\\grub\\grub.cfg",
        ]
    );
    assert_eq!(c.dirs, vec!["S:\\EFI\\debian", "S:\\EFI\\pardus", "S:\\boot\\grub", "S:\\boot"]);
    for (_, file) in write_grub_cfg("S", "").targets {
        assert!(c.overwritten.contains(&file) || file.starts_with("S:\\EFI\\NextOS\\"));
    }
}

#[test]
fn bcdedit_failures_quote_the_call() {
    let args = vec!["/set".to_string(), "a\"b".to_string()];
    assert_eq!(run_bcdedit(&args, true, "out".to_string(), "err").unwrap(), "out");
    assert_eq!(
        failure(run_bcdedit(&args, false, " out \n".to_string(), " err ")),
        (
            ErrorKind::BootloaderConfig,
            "bcdedit [\"/set\", \"a\\\"b\"] failed: out err".to_string()
        )
    );
    assert_eq!(
        failure(run_bcdedit(&vec![], false, "".to_string(), "")).1,
        "bcdedit [] failed:  "
    );
    assert_eq!(bcdedit_spawn_error("x").message(), "bcdedit spawn: x");
}

#[test]
fn firmware_entry_is_registered() {
    assert_eq!(copy_entry_args(), vec!["/copy", "{bootmgr}", "/d", "NextOS"]);
    let guid = "{12345678-1234-1234-1234-123456789abc}";
    let out = format!("The entry was copied to {guid}.\r\n");
    assert_eq!(copied_entry(true, &out, "").unwrap(), guid);
    assert_eq!(
        failure(copied_entry(true, " nothing ", "")),
        (ErrorKind::BootloaderConfig, "GUID parse failed: nothing".to_string())
    );
    assert_eq!(
        failure(copied_entry(false, &out, " denied ")),
        (ErrorKind::BootloaderConfig, "bcdedit copy failed: denied".to_string())
    );
    assert_eq!(
        entry_call_args("{g}", "S", "\\EFI\\NextOS\\shimx64.efi"),
        vec![
            vec!["/set", "{g}", "device", "partition=S:"],
            vec!["/set", "{g}", "path", "\\EFI\\NextOS\\shimx64.efi"],
            vec!["/set", "{g}", "description", "NextOS"],
            vec!["/set", "{fwbootmgr}", "displayorder", "{g}", "/addfirst"],
            vec!["/timeout", "5"],
        ]
    );
}

/// Register an entry with calls of which the one numbered `bad` fails; what was
/// called, and what came of it.
fn registration(bad: usize) -> (Vec<String>, Result<String, InstallerError>) {
    let mut calls = Vec::new();
    let mut event = EntryEvent::Cleaned;
    loop {
        event = match register_firmware_entry("S", "\\x.efi", event) {
            Ok(EntryAction::Copy { args }) => {
                calls.push(args.join(" "));
                let out = "to {12345678-1234-1234-1234-123456789abc}".to_string();
                EntryEvent::Copied { answer: Ok((true, out, String::new())) }
            }
            Ok(EntryAction::Call { guid, index, args }) => {
                calls.push(args.join(" "));
                let reply = if index == bad {
                    Err(InstallerError::Io(format!("call {index}")))
                } else {
                    Ok(String::new())
                };
                EntryEvent::Called { guid, index, reply }
            }
            Ok(EntryAction::Registered { guid }) => return (calls, Ok(guid)),
            Err(e) => return (calls, Err(e)),
        };
    }
}

#[test]
fn first_failure_ends_the_registration() {
    let guid = "{12345678-1234-1234-1234-123456789abc}";
    let (all, r) = registration(9);
    assert_eq!(r.unwrap(), guid);
    assert_eq!(all.len(), 6);
    assert_eq!(all[0], "/copy {bootmgr} /d NextOS");
    assert_eq!(all[1], format!("/set {guid} device partition=S:"));
    assert_eq!(all[5], "/timeout 5");
    for bad in 0..5 {
        let (calls, r) = registration(bad);
        assert_eq!(calls, &all[..bad + 2]);
        assert_eq!(failure(r), (ErrorKind::Io, format!("call {bad}")));
    }
    let copied = |answer| register_firmware_entry("S", "p", EntryEvent::Copied { answer });
    assert_eq!(
        failure(copied(Err("gone".to_string()))),
        (ErrorKind::BootloaderConfig, "bcdedit copy spawn: gone".to_string())
    );
    assert_eq!(
        failure(copied(Ok((false, String::new(), " no ".to_string())))).1,
        "bcdedit copy failed: no"
    );
    assert_eq!(
        failure(copied(Ok((true, " x ".to_string(), String::new())))).1,
        "GUID parse failed: x"
    );
}

#[test]
fn menus_are_backed_up_before_they_are_written() {
    let plan = write_grub_cfg("S", "m\n");
    let steps = grub_steps(&plan);
    assert_eq!(steps.len(), 16);
    let mut old: BTreeMap<String, String> = BTreeMap::new();
    old.insert("S:\\EFI\\debian\\grub.cfg".to_string(), "debian".to_string());
    old.insert("S:\\EFI\\BOOT\\grub.cfg".to_string(), "second".to_string());
    old.insert("S:\\EFI\\BOOT\\grub.cfg.parkur-backup".to_string(), "first".to_string());
    let mut fs = old.clone();
    for step in &steps {
        match step {
            GrubStep::MakeDir { .. } => {}
            GrubStep::BackUp { path } => {
                let backup = format!("{path}.parkur-backup");
                for s in backup_esp_file_once(
                    path,
                    fs.contains_key(path),
                    fs.contains_key(&backup),
                ) {
                    if let FileStep::Copy { from, to } = s {
                        let bytes = fs[&from].clone();
                        fs.insert(to, bytes);
                    }
                }
            }
            GrubStep::Write { path, .. } => {
                fs.insert(path.clone(), plan.text.clone());
            }
        }
    }
    for (_, file) in &plan.targets {
        assert_eq!(fs[file], "m\n");
    }
    assert_eq!(fs["S:\\EFI\\debian\\grub.cfg.parkur-backup"], "debian");
    assert_eq!(fs["S:\\EFI\\BOOT\\grub.cfg.parkur-backup"], "first");
    assert_eq!(fs.len(), 7);
    for (i, step) in steps.iter().enumerate() {
        let e = grub_step_error(step, "full").map(|e| e.message().clone());
        let last = "grub.cfg write failed (S:\\EFI\\debian\\grub.cfg): full".to_string();
        assert_eq!(e, if i == 15 { Some(last) } else { None });
    }
}

#[test]
fn fat_image_is_searched_last_and_only_where_nothing_was_found() {
    let mut copied = EfiCopies::new();
    let (stage, source) = next_efi_source("E:", EfiStage::Start, &copied).unwrap();
    assert_eq!(stage, EfiStage::KnownPaths);
    assert!(matches!(source, EfiSource::Paths { paths } if paths == known_efi_paths("E:")));
    let (stage, source) = next_efi_source("E:", stage, &copied).unwrap();
    assert_eq!(stage, EfiStage::Folders);
    assert!(matches!(source, EfiSource::Folders { dirs } if dirs == efi_dirs("E:")));
    let (last, source) = next_efi_source("E:", stage, &copied).unwrap();
    assert_eq!(last, EfiStage::FatImage);
    assert!(matches!(source, EfiSource::FatImage));
    assert!(next_efi_source("E:", last, &copied).is_none());
    copied.offer("a.efi", true, b"MZ", Some(2048), true);
    assert!(next_efi_source("E:", stage, &copied).is_none());
    assert!(next_efi_source("E:", EfiStage::KnownPaths, &copied).is_some());
}

#[test]
fn firmware_entries_are_listed_and_deleted() {
    assert!(cleanup_nextos_firmware_entries(Ok("NONE\r\n".to_string())).unwrap().is_empty());
    assert!(cleanup_nextos_firmware_entries(Ok(" \n".to_string())).unwrap().is_empty());
    let es = cleanup_nextos_firmware_entries(Ok("{a}; {b};{c}\n".to_string())).unwrap();
    assert_eq!(es, vec!["{a}", "{b}", "{c}"]);
    assert_eq!(delete_entry_args("{a}"), vec!["/delete", "{a}", "/f"]);
    assert_eq!(deleted_entries(&es, &vec![true, false, true]), vec!["{a}", "{c}"]);
    assert_eq!(
        failure(cleanup_nextos_firmware_entries(Err(InstallerError::Io("x".to_string())))).1,
        "x"
    );
    assert!(FIRMWARE_ENTRIES_SCRIPT.contains("if ($line -match '^identifier\\s+(.+)$') {"));
}

#[test]
fn boot_timeout_is_read_and_restored() {
    assert_eq!(read_timeout_args(), vec!["/enum", "{bootmgr}"]);
    let out = "Windows Boot Manager\r\n--------\r\nTimeoutless     x\r\ntimeout                 30\r\ntimeout 5\r\n";
    assert_eq!(read_firmware_boot_timeout(Ok(out.to_string())), Some("30".to_string()));
    assert_eq!(read_firmware_boot_timeout(Ok("timeout".to_string())), None);
    assert_eq!(read_firmware_boot_timeout(Err(InstallerError::Io("x".to_string()))), None);
    let t = || Some("30".to_string());
    assert_eq!(backup_firmware_boot_timeout_to_host(false, t()), t());
    assert_eq!(backup_firmware_boot_timeout_to_host(true, t()), None);
    assert_eq!(backup_firmware_boot_timeout_to_host(false, None), None);
    assert_eq!(
        restore_firmware_boot_timeout_from_host(" 30\r\n").unwrap(),
        vec!["/timeout", "30"]
    );
    assert!(restore_firmware_boot_timeout_from_host(" \n").is_none());
}

#[test]
fn restart_goes_to_the_entry() {
    assert_eq!(
        set_nextos_bootsequence("{g}").unwrap(),
        vec!["/set", "{fwbootmgr}", "bootsequence", "{g}"]
    );
    assert!(set_nextos_bootsequence("").is_none());
    assert_eq!(reboot_args(), vec!["/r", "/t", "3", "/c", "Booting into NextOS"]);
    assert!(reboot_system(true, "").is_ok());
    assert_eq!(
        failure(reboot_system(false, " no\n")),
        (ErrorKind::BootloaderConfig, "reboot failed: no".to_string())
    );
}
