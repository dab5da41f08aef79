use parkur::boot_ops::generate_loop_grub_cfg;
use parkur::image_ops::{build_layout, write_provisioning_config, Removal};
use parkur::install::{Installation, Phase, Tidy};
use parkur::iso_ops::{unmount_iso, LinuxKernelInfo};
use parkur::password::HashedPassword;
use parkur::workshop::{Chore, Found, Job, Workshop};

fn installation() -> Installation {
    Installation::start_installation(
        "D:".to_string(),
        20,
        "ayaz".to_string(),
        "secret pw".to_string(),
        "pc".to_string(),
    )
    .0
}

fn shop() -> Workshop {
    Workshop::new(
        "D:",
        "C:\\x.iso".to_string(),
        "tr_TR".to_string(),
        "Europe/Istanbul".to_string(),
        "C:\\T".to_string(),
    )
}

fn filled() -> Workshop {
    let mut w = shop();
    w.keep(Phase::Probe, Found::Text("ABCD".to_string()));
    w.keep(Phase::MountIso, Found::Text("E".to_string()));
    w.keep(
        Phase::FindKernel,
        Found::Kernel(LinuxKernelInfo {
            kernel_path: "live/vmlinuz".to_string(),
            initrd_path: "live/initrd".to_string(),
        }),
    );
    w.keep(Phase::FindSquashfs, Found::Text("live/f.squashfs".to_string()));
    w.keep(Phase::MountEsp, Found::Text("S".to_string()));
    w.keep(Phase::CopyEfi, Found::Text("\\EFI\\NextOS\\shimx64.efi".to_string()));
    w.keep(Phase::FirmwareEntry, Found::Text("{g}".to_string()));
    w
}

/// What the phase does, as one text.
fn job(w: &Workshop, phase: Phase) -> String {
    let mut i = installation();
    i.phase = phase;
    i.uncompressed_bytes = 7;
    match w.job(&i) {
        Job::Probe { letter } | Job::ExistingInstall { letter } => letter,
        Job::FastStartup | Job::MountEsp | Job::Nothing => "-".to_string(),
        Job::HashPassword { password } => password,
        Job::MountIso { iso_path } => iso_path,
        Job::FindKernel { iso_drive } | Job::FindSquashfs { iso_drive } => iso_drive,
        Job::SquashfsSize { iso_drive, rel } => format!("{iso_drive} {rel}"),
        Job::UncompressedSize { path } | Job::HostDir { path } | Job::TempDir { path } => path,
        Job::RootDiskSize { bytes, uncompressed } => format!("{bytes} {uncompressed}"),
        Job::BootTimeout { host_dir } => host_dir,
        Job::RootDisk { path, host_dir, bytes } => format!("{path} {host_dir} {bytes}"),
        Job::CopySquashfs { iso_drive, rel, dest }
        | Job::CopyKernel { iso_drive, rel, dest }
        | Job::CopyInitrd { iso_drive, rel, dest } => format!("{iso_drive} {rel} {dest}"),
        Job::Config { path, text } => format!("{path} {}", text.unwrap_or_default()),
        Job::Overlay { initrd, squashfs, dest } => format!("{initrd} {squashfs} {dest}"),
        Job::CopyEfi { iso_drive, esp } => format!("{iso_drive} {esp}"),
        Job::BootPayload { kernel, initrd, overlay } => format!("{kernel} {initrd} {overlay}"),
        Job::GrubCfg { esp, text } => format!("{esp} {text}"),
        Job::FirmwareEntry { esp, efi_path } => format!("{esp} {efi_path}"),
    }
}

#[test]
fn phases_get_what_earlier_phases_found() {
    let w = filled();
    for (phase, want) in [
        (Phase::Probe, "D:"),
        (Phase::FastStartup, "-"),
        (Phase::ExistingInstall, "D:"),
        (Phase::HashPassword, "secret pw"),
        (Phase::MountIso, "C:\\x.iso"),
        (Phase::FindKernel, "E"),
        (Phase::FindSquashfs, "E"),
        (Phase::SquashfsSize, "E live/f.squashfs"),
        (Phase::UncompressedSize, "E:\\live\\f.squashfs"),
        (Phase::RootDiskSize, "21474836480 7"),
        (Phase::HostDir, "D:\\NextOS"),
        (Phase::BootTimeout, "D:\\NextOS"),
        (Phase::RootDisk, "D:\\NextOS\\root.disk D:\\NextOS 21474836480"),
        (Phase::CopySquashfs, "E live/f.squashfs D:\\NextOS\\filesystem.squashfs"),
        (Phase::TempDir, "C:\\T"),
        (Phase::CopyKernel, "E live/vmlinuz C:\\T\\vmlinuz"),
        (Phase::CopyInitrd, "E live/initrd C:\\T\\initrd.stock"),
        (
            Phase::Overlay,
            "C:\\T\\initrd.stock D:\\NextOS\\filesystem.squashfs C:\\T\\overlay.cpio.gz",
        ),
        (Phase::MountEsp, "-"),
        (Phase::CopyEfi, "E S"),
        (Phase::BootPayload, "C:\\T\\vmlinuz C:\\T\\initrd.stock C:\\T\\overlay.cpio.gz"),
        (Phase::FirmwareEntry, "S \\EFI\\NextOS\\shimx64.efi"),
        (Phase::Done, "-"),
        (Phase::Failed, "-"),
    ] {
        assert_eq!(job(&w, phase), want);
    }
    assert_eq!(job(&w, Phase::GrubCfg), format!("S {}", generate_loop_grub_cfg("ABCD")));
}

#[test]
fn configuration_gets_the_serial_and_the_hash() {
    let mut w = filled();
    assert_eq!(job(&w, Phase::Config), "D:\\NextOS\\nextos.conf ");
    let h = HashedPassword::new("secret pw").unwrap();
    let hash = h.text().to_string();
    w.keep(Phase::HashPassword, Found::Hash(h));
    let text = write_provisioning_config(
        &build_layout("D"),
        "ayaz",
        &hash,
        "pc",
        "tr_TR",
        "Europe/Istanbul",
        "ABCD",
    );
    assert_eq!(job(&w, Phase::Config), format!("D:\\NextOS\\nextos.conf {text}"));
    assert!(!text.contains("secret pw"));
}

#[test]
fn only_the_own_value_of_a_phase_is_kept() {
    let mut w = filled();
    w.keep(Phase::HostDir, Found::Text("x".to_string()));
    w.keep(Phase::Probe, Found::Nothing);
    w.keep(Phase::FindKernel, Found::Text("x".to_string()));
    assert_eq!((w.serial.as_str(), w.iso_drive.as_str(), w.esp.as_str()), ("ABCD", "E", "S"));
    assert_eq!(w.kernel.kernel_path, "live/vmlinuz");
    assert!(shop().serial.is_empty() && shop().hashed.is_none());
}

#[test]
fn chores_get_their_values() {
    let w = filled();
    assert!(matches!(w.chore(Tidy::UnmountIso), Chore::UnmountIso { script }
        if script == unmount_iso("C:\\x.iso")));
    assert!(matches!(w.chore(Tidy::RemoveTemp), Chore::RemoveTemp { path } if path == "C:\\T"));
    assert!(matches!(w.chore(Tidy::CleanEsp), Chore::CleanEsp { esp } if esp == "S"));
    assert!(matches!(w.chore(Tidy::StoreEntry), Chore::StoreEntry { entry } if entry == "{g}"));
    match w.chore(Tidy::RemoveHostFiles) {
        Chore::RemoveHostFiles { removals } => {
            assert_eq!(removals.len(), 9);
            assert!(matches!(&removals[8], Removal::EmptyDir(p) if p == "D:\\NextOS"));
        }
        _ => panic!("files are removed"),
    }
}
