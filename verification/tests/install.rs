use parkur::disk_ops::EnvProbe;
use parkur::error::{ErrorKind, InstallerError};
use parkur::install::{
    check_probe, copy_progress, phase_after, reboot_now, tidy_after, uninstall_nextos,
    validate_user_input, Installation, Phase, Reply, Task, Tidy, Uninstall,
};
use parkur::image_ops::Removal;
use parkur::password::{hash_outcome, hash_password_sha512, password_matches};
use sha_crypt::{PasswordVerifier, ShaCrypt};

fn failure<T>(r: Result<T, InstallerError>) -> (ErrorKind, String) {
    match r {
        Ok(_) => panic!("an error was expected"),
        Err(e) => (e.kind(), e.message().clone()),
    }
}

#[test]
fn password_hash_roundtrip() {
    let hash = hash_password_sha512("Dene me123!$#").unwrap();
    assert!(hash.starts_with("$6$"), "unexpected hash format: {}", hash);
    ShaCrypt::SHA512
        .verify_password(b"Dene me123!$#", hash.as_str())
        .expect("hash must verify against the original password");
}

#[test]
fn validate_rejects_short_password() {
    assert!(validate_user_input("ayaz", "abc", "pc").is_err());
    assert!(validate_user_input("ayaz", "abcd", "pc").is_ok());
}

#[test]
fn hashes_are_salted_and_match_their_password() {
    let a = hash_password_sha512("pass").unwrap();
    let b = hash_password_sha512("pass").unwrap();
    assert_ne!(a, b);
    assert!(a.starts_with("$6$rounds=5000$"));
    assert!(password_matches("pass", &a));
    assert!(password_matches("pass", &b));
    assert!(!password_matches("Pass", &a));
    assert!(!password_matches("pass", "pass"));
    assert_eq!(
        failure(hash_outcome(Err(("no salt".to_string(), "NoSalt".to_string())))),
        (ErrorKind::CommandExecution, "password hashing failed: no salt".to_string())
    );
}

#[test]
fn input_faults_come_in_order() {
    let m = |u: &str, p: &str, h: &str| {
        let (kind, message) = failure(validate_user_input(u, p, h));
        assert_eq!(kind, ErrorKind::InvalidInput);
        message
    };
    let user = "Username must start with a lowercase letter and contain only lowercase letters, digits, '-' and '_'.";
    let host = "Hostname must contain only lowercase letters, digits, and '-'.";
    assert_eq!(m("", "", ""), "Username cannot be empty.");
    assert_eq!(m("A", "abc", ""), "Password must be at least 4 characters.");
    assert_eq!(m("A", "abcd", ""), "Hostname cannot be empty.");
    assert_eq!(m("A", "abcd", "PC"), user);
    assert_eq!(m("1a", "abcd", "pc"), user);
    assert_eq!(m(&"a".repeat(33), "abcd", "pc"), user);
    assert_eq!(m("ay az", "abcd", "pc"), user);
    assert_eq!(m("ayaz", "abcd", "PC"), host);
    assert_eq!(m("ayaz", "abcd", "-pc"), host);
    assert_eq!(m("ayaz", "abcd", &"a".repeat(64)), host);
    assert!(validate_user_input("a_b-1", "éé", "1-pc").is_ok());
    assert!(validate_user_input(&"a".repeat(32), "abcd", &"a".repeat(63)).is_ok());
}

fn probe() -> EnvProbe {
    EnvProbe {
        is_admin: true,
        boot_mode: "UEFI".to_string(),
        secure_boot: true,
        free_bytes: 100 << 30,
        volume_serial: "ABCD1234".to_string(),
        bitlocker: false,
    }
}

fn start() -> Installation {
    let (s, tasks) = Installation::start_installation(
        "D:".to_string(),
        20,
        "ayaz".to_string(),
        "abcd".to_string(),
        "pc".to_string(),
    );
    assert_eq!(shown(&tasks), vec!["verify 0 Verifying environment"]);
    s
}

fn shown(tasks: &[Task]) -> Vec<String> {
    tasks
        .iter()
        .map(|t| match t {
            Task::Tell { step, progress, message } => format!("{step} {progress} {message}"),
            Task::Do(tidy) => format!("{:?}", tidy),
        })
        .collect()
}

/// The answer with which a phase succeeds.
fn good(p: Phase) -> Reply {
    match p {
        Phase::Probe => Reply::Probed(Ok(probe())),
        Phase::FastStartup | Phase::ExistingInstall => Reply::Flag(Ok(false)),
        Phase::SquashfsSize => Reply::Size(Ok(3 << 30)),
        Phase::UncompressedSize => Reply::Size(Ok(9 << 30)),
        _ => Reply::Outcome(Ok(())),
    }
}

fn bad(p: Phase) -> Reply {
    let e = InstallerError::Io("broken".to_string());
    match p {
        Phase::Probe => Reply::Probed(Err(e)),
        Phase::FastStartup | Phase::ExistingInstall => Reply::Flag(Err(e)),
        Phase::SquashfsSize | Phase::UncompressedSize => Reply::Size(Err(e)),
        _ => Reply::Outcome(Err(e)),
    }
}

/// The installation at the phase `p`.
fn at(p: Phase) -> Installation {
    let mut s = start();
    while s.phase != p {
        let r = good(s.phase);
        s.step(r);
    }
    s
}

#[test]
fn installation_runs_through_all_phases() {
    let mut s = start();
    let mut log = Vec::new();
    while s.phase != Phase::Done {
        let want = phase_after(s.phase);
        let r = good(s.phase);
        log.extend(shown(&s.step(r)));
        assert_eq!(s.phase, want);
    }
    assert_eq!(
        log,
        vec![
            "iso 8 Mounting source ISO",
            "verify 12 Validating capacity on D::\\ for 20 GB root.disk + 3072 MB squashfs (9216 MB extracted)",
            "image 22 Allocating raw root.disk (formatted in-flight on first boot)",
            "image 50 Copying root payload (squashfs) to host",
            "image 62 Writing provisioning configuration",
            "boot 68 Staging kernel and initrd",
            "boot 76 Building NextOS overlay initrd (cpio)",
            "boot 82 Mounting EFI System Partition",
            "boot 83 Secure Boot detected — copying full EFI shim chain for compatibility",
            "boot 86 Placing EFI payload on ESP",
            "UnmountIso",
            "boot 90 Copying kernel, initrd and overlay to host volume",
            "boot 94 Registering UEFI boot entry",
            "RemoveTemp",
            "StoreEntry",
            "done 100 Installation complete. Reboot to launch NextOS.",
        ]
    );
    assert!(matches!(s.outcome(), Some(Ok(()))));
}

#[test]
fn progress_rises() {
    let mut s = start();
    let mut last = 0;
    while s.phase != Phase::Done {
        let r = good(s.phase);
        for t in s.step(r) {
            if let Task::Tell { progress, .. } = t {
                assert!(progress > last);
                last = progress;
            }
        }
    }
    assert_eq!(last, 100);
}

#[test]
fn failures_are_tidied_up() {
    let iso: Vec<&str> = vec!["UnmountIso"];
    let host = vec!["UnmountIso", "RemoveHostFiles"];
    let temp = vec!["UnmountIso", "RemoveHostFiles", "RemoveTemp"];
    let esp = vec!["CleanEsp", "RemoveHostFiles", "RemoveTemp"];
    let table: Vec<(Phase, Vec<&str>)> = vec![
        (Phase::Probe, vec![]),
        (Phase::FastStartup, vec![]),
        (Phase::ExistingInstall, vec![]),
        (Phase::HashPassword, vec![]),
        (Phase::MountIso, vec![]),
        (Phase::FindKernel, iso.clone()),
        (Phase::FindSquashfs, iso.clone()),
        (Phase::SquashfsSize, iso.clone()),
        (Phase::UncompressedSize, iso.clone()),
        (Phase::RootDiskSize, iso.clone()),
        (Phase::HostDir, iso.clone()),
        (Phase::BootTimeout, iso.clone()),
        (Phase::RootDisk, iso.clone()),
        (Phase::CopySquashfs, host.clone()),
        (Phase::Config, host.clone()),
        (Phase::TempDir, host.clone()),
        (Phase::CopyKernel, temp.clone()),
        (Phase::CopyInitrd, temp.clone()),
        (Phase::Overlay, temp.clone()),
        (Phase::MountEsp, temp.clone()),
        (Phase::CopyEfi, vec!["CleanEsp", "UnmountIso", "RemoveHostFiles", "RemoveTemp"]),
        (Phase::BootPayload, esp.clone()),
        (Phase::GrubCfg, esp.clone()),
        (Phase::FirmwareEntry, esp.clone()),
    ];
    for (p, want) in table {
        let mut s = at(p);
        let tasks = s.step(bad(p));
        assert_eq!(shown(&tasks), want, "{:?}", p);
        assert_eq!(shown(&tidy_after(p)), want);
        assert_eq!(s.phase, Phase::Failed);
        match s.outcome() {
            Some(Err(e)) => assert_eq!(e.message(), "broken"),
            _ => panic!("{:?}", p),
        }
    }
    assert!(matches!(tidy_after(Phase::CopyEfi)[0], Task::Do(Tidy::CleanEsp)));
}

#[test]
fn unfit_machines_are_refused() {
    let mut p = probe();
    p.is_admin = false;
    assert_eq!(
        failure(check_probe("D:", &p)),
        (ErrorKind::PermissionDenied, "Run the installer as Administrator.".to_string())
    );
    let mut p = probe();
    p.boot_mode = "BIOS".to_string();
    assert_eq!(
        failure(check_probe("D:", &p)),
        (
            ErrorKind::BootloaderConfig,
            "Legacy BIOS is not supported. UEFI firmware required.".to_string()
        )
    );
    let mut p = probe();
    p.bitlocker = true;
    let mut s = start();
    assert!(s.step(Reply::Probed(Ok(p))).is_empty());
    match s.outcome() {
        Some(Err(e)) => assert_eq!(
            e.message(),
            "D:\\ sürücüsü BitLocker ile şifreli. Linux şifreli NTFS birimlerini okuyamaz — şifreyi çözün veya başka sürücü seçin."
        ),
        _ => panic!(),
    }
}

#[test]
fn fast_startup_and_an_older_install_are_refused() {
    let mut s = at(Phase::FastStartup);
    s.step(Reply::Flag(Ok(true)));
    match s.outcome() {
        Some(Err(e)) => {
            assert_eq!(e.kind(), ErrorKind::DiskOperation);
            assert!(e.message().starts_with("Hızlı Başlatma (Fast Startup) açık."));
            assert!(e.message().ends_with("→ \"Güç düğmelerinin yapacaklarını seçin\" üzerinden kapatın."));
        }
        _ => panic!(),
    }
    let mut s = at(Phase::ExistingInstall);
    s.step(Reply::Flag(Ok(true)));
    match s.outcome() {
        Some(Err(e)) => assert_eq!(
            e.message(),
            "D:\\ sürücüsünde zaten NextOS kurulumu var. Yeniden kurmak için önce kaldırın veya başka sürücü seçin."
        ),
        _ => panic!(),
    }
}

#[test]
fn bad_input_stops_before_the_image_is_mounted() {
    let mut s = at(Phase::ExistingInstall);
    s.password = "abc".to_string();
    assert!(s.step(Reply::Flag(Ok(false))).is_empty());
    assert_eq!(s.phase, Phase::Failed);
    match s.outcome() {
        Some(Err(e)) => assert_eq!(e.message(), "Password must be at least 4 characters."),
        _ => panic!(),
    }
}

#[test]
fn full_volumes_are_refused() {
    let mut s = at(Phase::RootDiskSize);
    s.free_bytes = 24 << 30;
    let log = shown(&s.step(Reply::Outcome(Ok(()))));
    assert_eq!(log.len(), 2);
    assert!(log[0].starts_with("verify 12 Validating capacity on D::\\"));
    assert_eq!(log[1], "UnmountIso");
    match s.outcome() {
        Some(Err(e)) => assert_eq!(
            e.message(),
            "Insufficient free space on D:\\ — have 24 GB, need 25 GB (root.disk + squashfs + 2 GB headroom)."
        ),
        _ => panic!(),
    }
}

#[test]
fn answers_to_another_phase_change_nothing() {
    let mut s = start();
    assert!(s.step(Reply::Outcome(Ok(()))).is_empty());
    assert_eq!(s.phase, Phase::Probe);
    let mut s = at(Phase::Done);
    assert!(s.step(Reply::Outcome(Ok(()))).is_empty());
    assert_eq!(s.phase, Phase::Done);
    assert!(start().outcome().is_none());
}

#[test]
fn copy_progress_is_told_when_it_rises() {
    assert_eq!(
        copy_progress(50, 51, 5 * 1024 * 1024, 60 * 1024 * 1024),
        Some("Copying squashfs... 5 / 60 MB".to_string())
    );
    assert_eq!(copy_progress(51, 51, 1, 2), None);
}

#[test]
fn uninstalling_needs_an_administrator() {
    let steps = uninstall_nextos("D:", Ok(true)).unwrap();
    assert_eq!(steps.len(), 4);
    assert!(matches!(&steps[0], Uninstall::FirmwareEntries));
    assert!(matches!(&steps[1], Uninstall::Esp));
    assert!(matches!(&steps[2], Uninstall::BootTimeout { host_dir } if host_dir == "D:\\NextOS"));
    match &steps[3] {
        Uninstall::HostFolder { removals } => {
            assert!(matches!(removals.last(), Some(Removal::Tree(p)) if p == "D:\\NextOS"));
        }
        _ => panic!("the folder goes last"),
    }
    assert_eq!(
        failure(uninstall_nextos("D:", Ok(false))),
        (ErrorKind::PermissionDenied, "Run as Administrator to uninstall.".to_string())
    );
    assert_eq!(failure(uninstall_nextos("D", Err(InstallerError::Io("x".to_string())))).1, "x");
    assert_eq!(reboot_now(Some(" {a}\r\n".to_string())), "{a}");
    assert_eq!(reboot_now(None), "");
}
