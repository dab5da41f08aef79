//! The installation itself: what the user may enter, in which order things are
//! done, what the client is told, and what is undone where something fails.
use crate::ascii::{decimal, decimal_text, is_digit, is_lower, is_upper};
use crate::config_ops::{begins_small, is_user_text, starts_small, user_text};
use crate::disk_ops::EnvProbe;
use crate::error::{ErrorKind, InstallerError};
use crate::image_ops::{
    build_layout, capacity_failure, is_layout, remove_host_folder, removals_of, required_bytes,
    validate_capacity, whole_folder, HostImageLayout, Removal, Removed,
};
use crate::text::{
    byte_len, bytes_of_joined_texts, chars_of, same, strip_end, trim, trim_end_char, trimmed,
};
use vstd::prelude::*;
use vstd::utf8::encode_utf8;

verus! {

pub const BYTES_PER_GB: u64 = 1024 * 1024 * 1024;

// ---------------------------------------------------------------------------
// What the user enters
// ---------------------------------------------------------------------------

/// Only small letters, digits and hyphens are in `s`.
pub open spec fn is_host_text(s: Seq<char>) -> bool {
    forall|i: int| 0 <= i < s.len() ==> is_lower(#[trigger] s[i]) || is_digit(s[i]) || s[i] == '-'
}

/// `s` begins with a letter or a digit.
pub open spec fn begins_alphanumeric(s: Seq<char>) -> bool {
    s.len() > 0 && (is_lower(s[0]) || is_upper(s[0]) || is_digit(s[0]))
}

fn host_text(s: &str) -> (r: bool)
    ensures
        r == is_host_text(s@),
{
    let v = chars_of(s);
    let mut i: usize = 0;
    while i < v.len()
        invariant
            v@ == s@,
            i <= v@.len(),
            forall|j: int|
                0 <= j < i ==> is_lower(#[trigger] s@[j]) || is_digit(s@[j]) || s@[j] == '-',
        decreases v@.len() - i,
    {
        let c = v[i];
        assert(s@[i as int] == c);
        if !(('a' <= c && c <= 'z') || ('0' <= c && c <= '9') || c == '-') {
            return false;
        }
        i = i + 1;
    }
    true
}

fn starts_alphanumeric(s: &str) -> (r: bool)
    ensures
        r == begins_alphanumeric(s@),
{
    let v = chars_of(s);
    v.len() > 0 && (('a' <= v[0] && v[0] <= 'z') || ('A' <= v[0] && v[0] <= 'Z') || ('0' <= v[0]
        && v[0] <= '9'))
}

/// What is wrong with what the user entered, the first fault in this order.
/// Lengths are counted in bytes.
pub open spec fn input_fault(user: Seq<char>, password: Seq<char>, host: Seq<char>) -> Option<
    Seq<char>,
> {
    if user.len() == 0 {
        Some("Username cannot be empty."@)
    } else if encode_utf8(password).len() < 4 {
        Some("Password must be at least 4 characters."@)
    } else if host.len() == 0 {
        Some("Hostname cannot be empty."@)
    } else if !is_user_text(user) || !begins_small(user) || encode_utf8(user).len() > 32 {
        Some(
            "Username must start with a lowercase letter and contain only lowercase letters, digits, '-' and '_'."@,
        )
    } else if !is_host_text(host) || !begins_alphanumeric(host) || encode_utf8(host).len() > 63 {
        Some("Hostname must contain only lowercase letters, digits, and '-'."@)
    } else {
        None
    }
}

/// Whether what the user entered can be used.
pub fn validate_user_input(user_name: &str, password: &str, hostname: &str) -> (r: Result<
    (),
    InstallerError,
>)
    ensures
        match input_fault(user_name@, password@, hostname@) {
            Some(m) => r is Err && r->Err_0@ == (ErrorKind::InvalidInput, m),
            None => r is Ok,
        },
        r is Ok <==> ({
            &&& user_name@.len() > 0 && 'a' <= user_name@[0] && user_name@[0] <= 'z' && (forall|i: int|
                0 <= i < user_name@.len() ==> ('a' <= #[trigger] user_name@[i] && user_name@[i] <= 'z') || ('0' <= user_name@[i] && user_name@[i]
                    <= '9') || user_name@[i] == '-' || user_name@[i] == '_') && encode_utf8(user_name@).len() <= 32
            &&& encode_utf8(password@).len() >= 4
            &&& hostname@.len() > 0 && (('a' <= hostname@[0] && hostname@[0] <= 'z') || ('0' <= hostname@[0] && hostname@[0] <= '9'))
                && (forall|i: int|
                0 <= i < hostname@.len() ==> ('a' <= #[trigger] hostname@[i] && hostname@[i] <= 'z') || ('0' <= hostname@[i] && hostname@[i]
                    <= '9') || hostname@[i] == '-') && encode_utf8(hostname@).len() <= 63
        }),
        user_name@.len() == 0 ==> r is Err && r->Err_0@ == (
            ErrorKind::InvalidInput,
            "Username cannot be empty."@,
        ),
        user_name@.len() > 0 && encode_utf8(password@).len() < 4 ==> r is Err && r->Err_0@ == (
            ErrorKind::InvalidInput,
            "Password must be at least 4 characters."@,
        ),
        user_name@.len() > 0 && encode_utf8(password@).len() >= 4 && hostname@.len() == 0 ==> r is Err
            && r->Err_0@ == (ErrorKind::InvalidInput, "Hostname cannot be empty."@),
{
    proof {
        input_is_accepted_by_its_conditions(user_name@, password@, hostname@);
    }
    if user_name.is_empty() {
        return Err(InstallerError::InvalidInput("Username cannot be empty.".to_owned()));
    }
    if byte_len(password) < 4 {
        return Err(
            InstallerError::InvalidInput("Password must be at least 4 characters.".to_owned()),
        );
    }
    if hostname.is_empty() {
        return Err(InstallerError::InvalidInput("Hostname cannot be empty.".to_owned()));
    }
    if !user_text(user_name) || !starts_small(user_name) || byte_len(user_name) > 32 {
        return Err(
            InstallerError::InvalidInput(
                "Username must start with a lowercase letter and contain only lowercase letters, digits, '-' and '_'.".to_owned(),
            ),
        );
    }
    if !host_text(hostname) || !starts_alphanumeric(hostname) || byte_len(hostname) > 63 {
        return Err(
            InstallerError::InvalidInput(
                "Hostname must contain only lowercase letters, digits, and '-'.".to_owned(),
            ),
        );
    }
    Ok(())
}

// ---------------------------------------------------------------------------
// The phases of an installation
// ---------------------------------------------------------------------------

/// What an installation does next, or how it ended.
#[derive(Debug, Clone, Copy, PartialEq, Eq, Structural)]
pub enum Phase {
    /// Probe the machine.
    Probe,
    /// Ask whether Fast Startup is on.
    FastStartup,
    /// Look for an installation on the host volume.
    ExistingInstall,
    /// Hash the password.
    HashPassword,
    /// Mount the image.
    MountIso,
    /// Find the kernel in the image.
    FindKernel,
    /// Find the root file system in the image.
    FindSquashfs,
    /// Read the size of the root file system.
    SquashfsSize,
    /// Read the size of the root file system once it is unpacked.
    UncompressedSize,
    /// Check the size of the root disk against it.
    RootDiskSize,
    /// Create the directory on the host volume.
    HostDir,
    /// Back up the boot menu timeout.
    BootTimeout,
    /// Create the root disk.
    RootDisk,
    /// Copy the root file system to the host volume.
    CopySquashfs,
    /// Write the provisioning configuration.
    Config,
    /// Create a temporary directory.
    TempDir,
    /// Copy the kernel into it.
    CopyKernel,
    /// Copy the initrd into it.
    CopyInitrd,
    /// Build the overlay in it.
    Overlay,
    /// Mount the EFI system partition.
    MountEsp,
    /// Copy the EFI programs to it.
    CopyEfi,
    /// Copy the kernel, the initrd and the overlay to the host volume.
    BootPayload,
    /// Write the boot menu.
    GrubCfg,
    /// Register the firmware entry.
    FirmwareEntry,
    Done,
    Failed,
}

/// What came of a phase.
pub enum Reply {
    Probed(Result<EnvProbe, InstallerError>),
    Flag(Result<bool, InstallerError>),
    Size(Result<u64, InstallerError>),
    Outcome(Result<(), InstallerError>),
}

/// What is undone or tidied up. Each of these may fail without harm.
#[derive(Debug, Clone, Copy, PartialEq, Eq, Structural)]
pub enum Tidy {
    UnmountIso,
    RemoveHostFiles,
    RemoveTemp,
    CleanEsp,
    /// Keep the identifier of the firmware entry for the restart.
    StoreEntry,
}

/// What is to be done between two phases.
pub enum Task {
    /// Tell the client how far the installation is.
    Tell { step: String, progress: u32, message: String },
    Do(Tidy),
}

/// What is to be done between two phases, by its texts.
pub enum Deed {
    Tell(Seq<char>, u32, Seq<char>),
    Do(Tidy),
}

impl View for Task {
    type V = Deed;

    open spec fn view(&self) -> Deed {
        match *self {
            Task::Tell { step, progress, message } => Deed::Tell(step@, progress, message@),
            Task::Do(t) => Deed::Do(t),
        }
    }
}

/// A list of tasks by their views.
pub open spec fn deeds(v: Seq<Task>) -> Seq<Deed> {
    v.map_values(|t: Task| t@)
}

/// An installation.
pub struct Installation {
    pub phase: Phase,
    pub letter: String,
    pub root_disk_gb: u32,
    pub user_name: String,
    pub password: String,
    pub hostname: String,
    pub free_bytes: u64,
    pub secure_boot: bool,
    pub squashfs_bytes: u64,
    pub uncompressed_bytes: u64,
    pub failure: Option<InstallerError>,
}

/// An installation that fails knows why.
pub open spec fn knows_why(s: Installation) -> bool {
    s.phase == Phase::Failed ==> s.failure is Some
}

/// What is tidied up where the phase `p` fails, in order.
pub open spec fn tidied(p: Phase) -> Seq<Tidy> {
    match p {
        Phase::FindKernel => seq![Tidy::UnmountIso],
        Phase::FindSquashfs => seq![Tidy::UnmountIso],
        Phase::SquashfsSize => seq![Tidy::UnmountIso],
        Phase::UncompressedSize => seq![Tidy::UnmountIso],
        Phase::RootDiskSize => seq![Tidy::UnmountIso],
        Phase::HostDir => seq![Tidy::UnmountIso],
        Phase::BootTimeout => seq![Tidy::UnmountIso],
        Phase::RootDisk => seq![Tidy::UnmountIso],
        Phase::CopySquashfs => seq![Tidy::UnmountIso, Tidy::RemoveHostFiles],
        Phase::Config => seq![Tidy::UnmountIso, Tidy::RemoveHostFiles],
        Phase::TempDir => seq![Tidy::UnmountIso, Tidy::RemoveHostFiles],
        Phase::CopyKernel => seq![Tidy::UnmountIso, Tidy::RemoveHostFiles, Tidy::RemoveTemp],
        Phase::CopyInitrd => seq![Tidy::UnmountIso, Tidy::RemoveHostFiles, Tidy::RemoveTemp],
        Phase::Overlay => seq![Tidy::UnmountIso, Tidy::RemoveHostFiles, Tidy::RemoveTemp],
        Phase::MountEsp => seq![Tidy::UnmountIso, Tidy::RemoveHostFiles, Tidy::RemoveTemp],
        Phase::CopyEfi => seq![
            Tidy::CleanEsp,
            Tidy::UnmountIso,
            Tidy::RemoveHostFiles,
            Tidy::RemoveTemp,
        ],
        Phase::BootPayload => seq![Tidy::CleanEsp, Tidy::RemoveHostFiles, Tidy::RemoveTemp],
        Phase::GrubCfg => seq![Tidy::CleanEsp, Tidy::RemoveHostFiles, Tidy::RemoveTemp],
        Phase::FirmwareEntry => seq![Tidy::CleanEsp, Tidy::RemoveHostFiles, Tidy::RemoveTemp],
        _ => Seq::empty(),
    }
}

/// What is tidied up, as deeds.
pub open spec fn tidy_deeds(p: Phase) -> Seq<Deed> {
    tidied(p).map_values(|t: Tidy| Deed::Do(t))
}

/// What is tidied up where the phase `p` fails, in order.
pub fn tidy_after(p: Phase) -> (r: Vec<Task>)
    ensures
        deeds(r@) == tidy_deeds(p),
{
    let mut r: Vec<Task> = Vec::new();
    match p {
        Phase::FindKernel | Phase::FindSquashfs | Phase::SquashfsSize | Phase::UncompressedSize
        | Phase::RootDiskSize | Phase::HostDir | Phase::BootTimeout | Phase::RootDisk => {
            r.push(Task::Do(Tidy::UnmountIso));
        },
        Phase::CopySquashfs | Phase::Config | Phase::TempDir => {
            r.push(Task::Do(Tidy::UnmountIso));
            r.push(Task::Do(Tidy::RemoveHostFiles));
        },
        Phase::CopyKernel | Phase::CopyInitrd | Phase::Overlay | Phase::MountEsp => {
            r.push(Task::Do(Tidy::UnmountIso));
            r.push(Task::Do(Tidy::RemoveHostFiles));
            r.push(Task::Do(Tidy::RemoveTemp));
        },
        Phase::CopyEfi => {
            r.push(Task::Do(Tidy::CleanEsp));
            r.push(Task::Do(Tidy::UnmountIso));
            r.push(Task::Do(Tidy::RemoveHostFiles));
            r.push(Task::Do(Tidy::RemoveTemp));
        },
        Phase::BootPayload | Phase::GrubCfg | Phase::FirmwareEntry => {
            r.push(Task::Do(Tidy::CleanEsp));
            r.push(Task::Do(Tidy::RemoveHostFiles));
            r.push(Task::Do(Tidy::RemoveTemp));
        },
        _ => {},
    }
    assert(deeds(r@) =~= tidy_deeds(p));
    r
}

/// The phase after `p`.
pub open spec fn following(p: Phase) -> Phase {
    match p {
        Phase::Probe => Phase::FastStartup,
        Phase::FastStartup => Phase::ExistingInstall,
        Phase::ExistingInstall => Phase::HashPassword,
        Phase::HashPassword => Phase::MountIso,
        Phase::MountIso => Phase::FindKernel,
        Phase::FindKernel => Phase::FindSquashfs,
        Phase::FindSquashfs => Phase::SquashfsSize,
        Phase::SquashfsSize => Phase::UncompressedSize,
        Phase::UncompressedSize => Phase::RootDiskSize,
        Phase::RootDiskSize => Phase::HostDir,
        Phase::HostDir => Phase::BootTimeout,
        Phase::BootTimeout => Phase::RootDisk,
        Phase::RootDisk => Phase::CopySquashfs,
        Phase::CopySquashfs => Phase::Config,
        Phase::Config => Phase::TempDir,
        Phase::TempDir => Phase::CopyKernel,
        Phase::CopyKernel => Phase::CopyInitrd,
        Phase::CopyInitrd => Phase::Overlay,
        Phase::Overlay => Phase::MountEsp,
        Phase::MountEsp => Phase::CopyEfi,
        Phase::CopyEfi => Phase::BootPayload,
        Phase::BootPayload => Phase::GrubCfg,
        Phase::GrubCfg => Phase::FirmwareEntry,
        Phase::FirmwareEntry => Phase::Done,
        Phase::Done => Phase::Done,
        Phase::Failed => Phase::Failed,
    }
}

/// The phase after `p`.
pub fn phase_after(p: Phase) -> (r: Phase)
    ensures
        r == following(p),
{
    match p {
        Phase::Probe => Phase::FastStartup,
        Phase::FastStartup => Phase::ExistingInstall,
        Phase::ExistingInstall => Phase::HashPassword,
        Phase::HashPassword => Phase::MountIso,
        Phase::MountIso => Phase::FindKernel,
        Phase::FindKernel => Phase::FindSquashfs,
        Phase::FindSquashfs => Phase::SquashfsSize,
        Phase::SquashfsSize => Phase::UncompressedSize,
        Phase::UncompressedSize => Phase::RootDiskSize,
        Phase::RootDiskSize => Phase::HostDir,
        Phase::HostDir => Phase::BootTimeout,
        Phase::BootTimeout => Phase::RootDisk,
        Phase::RootDisk => Phase::CopySquashfs,
        Phase::CopySquashfs => Phase::Config,
        Phase::Config => Phase::TempDir,
        Phase::TempDir => Phase::CopyKernel,
        Phase::CopyKernel => Phase::CopyInitrd,
        Phase::CopyInitrd => Phase::Overlay,
        Phase::Overlay => Phase::MountEsp,
        Phase::MountEsp => Phase::CopyEfi,
        Phase::CopyEfi => Phase::BootPayload,
        Phase::BootPayload => Phase::GrubCfg,
        Phase::GrubCfg => Phase::FirmwareEntry,
        Phase::FirmwareEntry => Phase::Done,
        Phase::Done => Phase::Done,
        Phase::Failed => Phase::Failed,
    }
}

/// The message before the capacity of the host volume is validated.
pub open spec fn capacity_message(s: Installation) -> Seq<char> {
    "Validating capacity on "@ + s.letter@ + ":\\ for "@ + decimal(s.root_disk_gb as nat)
        + " GB root.disk + "@ + decimal((s.squashfs_bytes / 0x10_0000) as nat) + " MB squashfs ("@
        + decimal((s.uncompressed_bytes / 0x10_0000) as nat) + " MB extracted)"@
}

/// What is done where the phase of `s` succeeded and the next one begins.
pub open spec fn entering(s: Installation) -> Seq<Deed> {
    match s.phase {
        Phase::HashPassword => seq![Deed::Tell("iso"@, 8, "Mounting source ISO"@)],
        Phase::RootDiskSize => seq![Deed::Tell("verify"@, 12, capacity_message(s))],
        Phase::BootTimeout => seq![
            Deed::Tell(
                "image"@,
                22,
                "Allocating raw root.disk (formatted in-flight on first boot)"@,
            ),
        ],
        Phase::RootDisk => seq![
            Deed::Tell("image"@, 50, "Copying root payload (squashfs) to host"@),
        ],
        Phase::CopySquashfs => seq![
            Deed::Tell("image"@, 62, "Writing provisioning configuration"@),
        ],
        Phase::Config => seq![Deed::Tell("boot"@, 68, "Staging kernel and initrd"@)],
        Phase::CopyInitrd => seq![
            Deed::Tell("boot"@, 76, "Building NextOS overlay initrd (cpio)"@),
        ],
        Phase::Overlay => seq![Deed::Tell("boot"@, 82, "Mounting EFI System Partition"@)],
        Phase::MountEsp => (if s.secure_boot {
            seq![
                Deed::Tell(
                    "boot"@,
                    83,
                    "Secure Boot detected — copying full EFI shim chain for compatibility"@,
                ),
            ]
        } else {
            Seq::empty()
        }) + seq![Deed::Tell("boot"@, 86, "Placing EFI payload on ESP"@)],
        Phase::CopyEfi => seq![
            Deed::Do(Tidy::UnmountIso),
            Deed::Tell("boot"@, 90, "Copying kernel, initrd and overlay to host volume"@),
        ],
        Phase::GrubCfg => seq![Deed::Tell("boot"@, 94, "Registering UEFI boot entry"@)],
        Phase::FirmwareEntry => seq![
            Deed::Do(Tidy::RemoveTemp),
            Deed::Do(Tidy::StoreEntry),
            Deed::Tell("done"@, 100, "Installation complete. Reboot to launch NextOS."@),
        ],
        _ => Seq::empty(),
    }
}

fn tell(step: &str, progress: u32, message: &str) -> (r: Task)
    ensures
        r@ == Deed::Tell(step@, progress, message@),
{
    Task::Tell { step: step.to_owned(), progress, message: message.to_owned() }
}

/// What is wrong with a machine on which the installation is to go to the drive
/// `letter`.
pub open spec fn probe_fault(letter: Seq<char>, p: EnvProbe) -> Option<(ErrorKind, Seq<char>)> {
    if !p.is_admin {
        Some((ErrorKind::PermissionDenied, "Run the installer as Administrator."@))
    } else if p.boot_mode@ == "BIOS"@ {
        Some(
            (
                ErrorKind::BootloaderConfig,
                "Legacy BIOS is not supported. UEFI firmware required."@,
            ),
        )
    } else if p.bitlocker {
        Some(
            (
                ErrorKind::DiskOperation,
                trim_end_char(letter, ':')
                    + ":\\ sürücüsü BitLocker ile şifreli. Linux şifreli NTFS birimlerini okuyamaz — şifreyi çözün veya başka sürücü seçin."@,
            ),
        )
    } else {
        None
    }
}

/// Whether the machine can be installed on.
pub fn check_probe(letter: &str, p: &EnvProbe) -> (r: Result<(), InstallerError>)
    ensures
        match probe_fault(letter@, *p) {
            Some(e) => r is Err && r->Err_0@ == e,
            None => r is Ok,
        },
{
    if !p.is_admin {
        return Err(
            InstallerError::PermissionDenied("Run the installer as Administrator.".to_owned()),
        );
    }
    if same(p.boot_mode.as_str(), "BIOS") {
        return Err(
            InstallerError::BootloaderConfig(
                "Legacy BIOS is not supported. UEFI firmware required.".to_owned(),
            ),
        );
    }
    if p.bitlocker {
        let l = strip_end(letter, ':');
        return Err(
            InstallerError::DiskOperation(
                l.concat(
                    ":\\ sürücüsü BitLocker ile şifreli. Linux şifreli NTFS birimlerini okuyamaz — şifreyi çözün veya başka sürücü seçin.",
                ),
            ),
        );
    }
    Ok(())
}

/// `r` is an answer to the phase `p`.
pub open spec fn answers(p: Phase, r: Reply) -> bool {
    match p {
        Phase::Probe => r is Probed,
        Phase::FastStartup | Phase::ExistingInstall => r is Flag,
        Phase::SquashfsSize | Phase::UncompressedSize => r is Size,
        Phase::Done | Phase::Failed => false,
        _ => r is Outcome,
    }
}

/// The size of the root disk in bytes.
pub open spec fn root_disk_bytes(s: Installation) -> u64 {
    (s.root_disk_gb * BYTES_PER_GB) as u64
}

/// The error with which the phase of `s` fails, if it does: that of the phase
/// itself, or that of a rule which the answer breaks.
pub open spec fn fault(s: Installation, r: Reply) -> Option<(ErrorKind, Seq<char>)> {
    match r {
        Reply::Probed(Err(e)) => Some(e@),
        Reply::Flag(Err(e)) => Some(e@),
        Reply::Size(Err(e)) => Some(e@),
        Reply::Outcome(Err(e)) => Some(e@),
        Reply::Probed(Ok(p)) => probe_fault(s.letter@, p),
        Reply::Flag(Ok(set)) => if s.phase == Phase::FastStartup {
            if set {
                Some(
                    (
                        ErrorKind::DiskOperation,
                        "Hızlı Başlatma (Fast Startup) açık. Kurulumdan önce Denetim Masası → Güç Seçenekleri → \"Güç düğmelerinin yapacaklarını seçin\" üzerinden kapatın."@,
                    ),
                )
            } else {
                None
            }
        } else if set {
            Some(
                (
                    ErrorKind::DiskOperation,
                    trim_end_char(s.letter@, ':')
                        + ":\\ sürücüsünde zaten NextOS kurulumu var. Yeniden kurmak için önce kaldırın veya başka sürücü seçin."@,
                ),
            )
        } else {
            match input_fault(s.user_name@, s.password@, s.hostname@) {
                Some(m) => Some((ErrorKind::InvalidInput, m)),
                None => None,
            }
        },
        Reply::Size(Ok(_)) => None,
        Reply::Outcome(Ok(_)) => if s.phase == Phase::RootDiskSize && s.free_bytes < required_bytes(
            root_disk_bytes(s),
            s.squashfs_bytes,
        ) {
            Some(
                (
                    ErrorKind::DiskOperation,
                    capacity_failure(
                        trim_end_char(s.letter@, ':'),
                        s.free_bytes,
                        required_bytes(root_disk_bytes(s), s.squashfs_bytes),
                    ),
                ),
            )
        } else {
            None
        },
    }
}

/// What `s` learns from the answer `r`.
pub open spec fn learned(s: Installation, r: Reply) -> Installation {
    match r {
        Reply::Probed(Ok(p)) => Installation {
            free_bytes: p.free_bytes,
            secure_boot: p.secure_boot,
            ..s
        },
        Reply::Size(Ok(n)) => if s.phase == Phase::SquashfsSize {
            Installation { squashfs_bytes: n, ..s }
        } else {
            Installation { uncompressed_bytes: n, ..s }
        },
        _ => s,
    }
}

/// What is done where the phase of `s` fails: it is tidied up. The client is
/// told of the capacity before it is validated.
pub open spec fn failing(s: Installation, r: Reply) -> Seq<Deed> {
    if s.phase == Phase::RootDiskSize && r is Outcome && r->Outcome_0 is Ok {
        entering(s) + tidy_deeds(s.phase)
    } else {
        tidy_deeds(s.phase)
    }
}

/// The phase after the answer `r`.
pub open spec fn next_phase(s: Installation, r: Reply) -> Phase {
    if !answers(s.phase, r) {
        s.phase
    } else if fault(s, r) is Some {
        Phase::Failed
    } else {
        following(s.phase)
    }
}

/// What is done after the answer `r`.
pub open spec fn done_after(s: Installation, r: Reply) -> Seq<Deed> {
    if !answers(s.phase, r) {
        Seq::empty()
    } else if fault(s, r) is Some {
        failing(s, r)
    } else {
        entering(s)
    }
}

impl Installation {
    /// An installation on the drive `letter` begins; the client is told so.
    pub fn start_installation(
        letter: String,
        root_disk_gb: u32,
        user_name: String,
        password: String,
        hostname: String,
    ) -> (r: (Installation, Vec<Task>))
        ensures
            r.0 == (Installation {
                phase: Phase::Probe,
                letter,
                root_disk_gb,
                user_name,
                password,
                hostname,
                free_bytes: 0,
                secure_boot: false,
                squashfs_bytes: 0,
                uncompressed_bytes: 0,
                failure: None,
            }),
            knows_why(r.0),
            deeds(r.1@) == seq![Deed::Tell("verify"@, 0, "Verifying environment"@)],
    {
        let tasks = vec![tell("verify", 0, "Verifying environment")];
        assert(deeds(tasks@) =~= seq![Deed::Tell("verify"@, 0, "Verifying environment"@)]);
        (
            Installation {
                phase: Phase::Probe,
                letter,
                root_disk_gb,
                user_name,
                password,
                hostname,
                free_bytes: 0,
                secure_boot: false,
                squashfs_bytes: 0,
                uncompressed_bytes: 0,
                failure: None,
            },
            tasks,
        )
    }

    fn capacity_text(&self) -> (r: String)
        ensures
            r@ == capacity_message(*self),
    {
        let gb = decimal_text(self.root_disk_gb as u64);
        let packed = decimal_text(self.squashfs_bytes / (1024 * 1024));
        let unpacked = decimal_text(self.uncompressed_bytes / (1024 * 1024));
        "Validating capacity on ".to_owned().concat(self.letter.as_str()).concat(
            ":\\ for ",
        ).concat(gb.as_str()).concat(" GB root.disk + ").concat(packed.as_str()).concat(
            " MB squashfs (",
        ).concat(unpacked.as_str()).concat(" MB extracted)")
    }

    fn enter(&self) -> (r: Vec<Task>)
        ensures
            deeds(r@) == entering(*self),
    {
        let mut r: Vec<Task> = Vec::new();
        match self.phase {
            Phase::HashPassword => {
                r.push(tell("iso", 8, "Mounting source ISO"));
            },
            Phase::RootDiskSize => {
                let text = self.capacity_text();
                r.push(tell("verify", 12, text.as_str()));
            },
            Phase::BootTimeout => {
                r.push(
                    tell(
                        "image",
                        22,
                        "Allocating raw root.disk (formatted in-flight on first boot)",
                    ),
                );
            },
            Phase::RootDisk => {
                r.push(tell("image", 50, "Copying root payload (squashfs) to host"));
            },
            Phase::CopySquashfs => {
                r.push(tell("image", 62, "Writing provisioning configuration"));
            },
            Phase::Config => {
                r.push(tell("boot", 68, "Staging kernel and initrd"));
            },
            Phase::CopyInitrd => {
                r.push(tell("boot", 76, "Building NextOS overlay initrd (cpio)"));
            },
            Phase::Overlay => {
                r.push(tell("boot", 82, "Mounting EFI System Partition"));
            },
            Phase::MountEsp => {
                if self.secure_boot {
                    r.push(
                        tell(
                            "boot",
                            83,
                            "Secure Boot detected — copying full EFI shim chain for compatibility",
                        ),
                    );
                }
                r.push(tell("boot", 86, "Placing EFI payload on ESP"));
            },
            Phase::CopyEfi => {
                r.push(Task::Do(Tidy::UnmountIso));
                r.push(tell("boot", 90, "Copying kernel, initrd and overlay to host volume"));
            },
            Phase::GrubCfg => {
                r.push(tell("boot", 94, "Registering UEFI boot entry"));
            },
            Phase::FirmwareEntry => {
                r.push(Task::Do(Tidy::RemoveTemp));
                r.push(Task::Do(Tidy::StoreEntry));
                r.push(tell("done", 100, "Installation complete. Reboot to launch NextOS."));
            },
            _ => {},
        }
        assert(deeds(r@) =~= entering(*self));
        r
    }

    /// The error of the answer, or of the rule that it breaks; the answer is
    /// one to the phase of the installation.
    fn judge(&self, r: Reply) -> (v: Result<(), InstallerError>)
        requires
            answers(self.phase, r),
        ensures
            match fault(*self, r) {
                Some(e) => v is Err && v->Err_0@ == e,
                None => v is Ok,
            },
    {
        match r {
            Reply::Probed(Err(e)) => Err(e),
            Reply::Flag(Err(e)) => Err(e),
            Reply::Size(Err(e)) => Err(e),
            Reply::Outcome(Err(e)) => Err(e),
            Reply::Probed(Ok(p)) => check_probe(self.letter.as_str(), &p),
            Reply::Flag(Ok(set)) => {
                if self.phase == Phase::FastStartup {
                    if set {
                        return Err(
                            InstallerError::DiskOperation(
                                "Hızlı Başlatma (Fast Startup) açık. Kurulumdan önce Denetim Masası → Güç Seçenekleri → \"Güç düğmelerinin yapacaklarını seçin\" üzerinden kapatın.".to_owned(),
                            ),
                        );
                    }
                    return Ok(());
                }
                if set {
                    let l = strip_end(self.letter.as_str(), ':');
                    return Err(
                        InstallerError::DiskOperation(
                            l.concat(
                                ":\\ sürücüsünde zaten NextOS kurulumu var. Yeniden kurmak için önce kaldırın veya başka sürücü seçin.",
                            ),
                        ),
                    );
                }
                validate_user_input(
                    self.user_name.as_str(),
                    self.password.as_str(),
                    self.hostname.as_str(),
                )
            },
            Reply::Size(Ok(_)) => Ok(()),
            Reply::Outcome(Ok(_)) => {
                if self.phase == Phase::RootDiskSize {
                    return validate_capacity(
                        self.letter.as_str(),
                        self.free_bytes,
                        self.root_disk_size(),
                        self.squashfs_bytes,
                    );
                }
                Ok(())
            },
        }
    }

    /// The size of the root disk in bytes.
    pub fn root_disk_size(&self) -> (r: u64)
        ensures
            r == self.root_disk_gb * BYTES_PER_GB,
            r == root_disk_bytes(*self),
    {
        let gb: u64 = self.root_disk_gb as u64;
        assert(gb * BYTES_PER_GB <= u64::MAX) by (nonlinear_arith)
            requires
                gb <= 0xffff_ffff,
                BYTES_PER_GB == 0x4000_0000,
        ;
        gb * BYTES_PER_GB
    }

    fn is_answer(&self, r: &Reply) -> (b: bool)
        ensures
            b == answers(self.phase, *r),
    {
        match self.phase {
            Phase::Probe => match r {
                Reply::Probed(_) => true,
                _ => false,
            },
            Phase::FastStartup | Phase::ExistingInstall => match r {
                Reply::Flag(_) => true,
                _ => false,
            },
            Phase::SquashfsSize | Phase::UncompressedSize => match r {
                Reply::Size(_) => true,
                _ => false,
            },
            Phase::Done | Phase::Failed => false,
            _ => match r {
                Reply::Outcome(_) => true,
                _ => false,
            },
        }
    }

    fn learn(&mut self, r: &Reply)
        ensures
            *final(self) == learned(*old(self), *r),
    {
        match r {
            Reply::Probed(Ok(p)) => {
                self.free_bytes = p.free_bytes;
                self.secure_boot = p.secure_boot;
            },
            Reply::Size(Ok(n)) => {
                if self.phase == Phase::SquashfsSize {
                    self.squashfs_bytes = *n;
                } else {
                    self.uncompressed_bytes = *n;
                }
            },
            _ => {},
        }
    }

    /// The installation goes on after the answer `reply` of its phase: what is
    /// to be done before the next phase is handed back. An answer to another
    /// phase changes nothing. Where the phase failed, or the answer breaks a
    /// rule, the installation fails, and what was done so far is tidied up.
    pub fn step(&mut self, reply: Reply) -> (r: Vec<Task>)
        requires
            knows_why(*old(self)),
        ensures
            knows_why(*final(self)),
            final(self).phase == next_phase(*old(self), reply),
            deeds(r@) == done_after(*old(self), reply),
            !answers(old(self).phase, reply) ==> *final(self) == *old(self),
            answers(old(self).phase, reply) ==> match fault(*old(self), reply) {
                Some(e) => final(self).failure is Some && final(self).failure->Some_0@ == e
                    && *final(self) == (Installation {
                    phase: Phase::Failed,
                    failure: final(self).failure,
                    ..learned(*old(self), reply)
                }),
                None => *final(self) == (Installation {
                    phase: following(old(self).phase),
                    ..learned(*old(self), reply)
                }),
            },
    {
        if !self.is_answer(&reply) {
            let none: Vec<Task> = Vec::new();
            assert(deeds(none@) =~= Seq::empty());
            return none;
        }
        let told_early = match &reply {
            Reply::Outcome(Ok(_)) => self.phase == Phase::RootDiskSize,
            _ => false,
        };
        let mut tasks = self.enter();
        let ghost s0 = *self;
        self.learn(&reply);
        proof {
            assert(fault(*self, reply) == fault(s0, reply));
        }
        match self.judge(reply) {
            Ok(_) => {
                self.phase = phase_after(self.phase);
                tasks
            },
            Err(e) => {
                let mut tidy = tidy_after(self.phase);
                self.phase = Phase::Failed;
                self.failure = Some(e);
                if told_early {
                    let ghost a = deeds(tasks@);
                    let ghost b = deeds(tidy@);
                    tasks.append(&mut tidy);
                    assert(deeds(tasks@) =~= a + b);
                    tasks
                } else {
                    tidy
                }
            },
        }
    }

    /// How the installation ended, if it did.
    pub fn outcome(self) -> (r: Option<Result<(), InstallerError>>)
        requires
            knows_why(self),
        ensures
            self.phase == Phase::Done ==> r == Some(Ok::<(), InstallerError>(())),
            self.phase == Phase::Failed ==> r == Some(
                Err::<(), InstallerError>(self.failure->Some_0),
            ),
            self.phase != Phase::Done && self.phase != Phase::Failed ==> r is None,
    {
        match self.phase {
            Phase::Done => Some(Ok(())),
            Phase::Failed => match self.failure {
                Some(e) => Some(Err(e)),
                None => None,
            },
            _ => None,
        }
    }
}

/// What the client is told while the root file system is copied, where the
/// percentage `pct` is higher than the one it was told last.
pub fn copy_progress(last_pct: u32, pct: u32, done: u64, total: u64) -> (r: Option<String>)
    ensures
        match r {
            Some(m) => pct > last_pct && m@ == "Copying squashfs... "@ + decimal(
                (done / 0x10_0000) as nat,
            ) + " / "@ + decimal((total / 0x10_0000) as nat) + " MB"@,
            None => pct <= last_pct,
        },
{
    if pct > last_pct {
        let d = decimal_text(done / (1024 * 1024));
        let t = decimal_text(total / (1024 * 1024));
        Some(
            "Copying squashfs... ".to_owned().concat(d.as_str()).concat(" / ").concat(
                t.as_str(),
            ).concat(" MB"),
        )
    } else {
        None
    }
}

// ---------------------------------------------------------------------------
// Uninstalling and restarting
// ---------------------------------------------------------------------------

/// What uninstalling does, in order. Each of these may fail without harm.
pub enum Uninstall {
    /// Delete the firmware entries.
    FirmwareEntries,
    /// Mount the system partition and clean it, if it can be mounted.
    Esp,
    /// Restore the boot menu timeout from its backup in a directory.
    BootTimeout { host_dir: String },
    /// Remove the directory of the installation from the host volume.
    HostFolder { removals: Vec<Removal> },
}

/// A step of uninstalling by its paths.
pub enum Undoing {
    FirmwareEntries,
    Esp,
    BootTimeout(Seq<char>),
    HostFolder(Seq<Removed>),
}

impl View for Uninstall {
    type V = Undoing;

    open spec fn view(&self) -> Undoing {
        match *self {
            Uninstall::FirmwareEntries => Undoing::FirmwareEntries,
            Uninstall::Esp => Undoing::Esp,
            Uninstall::BootTimeout { host_dir } => Undoing::BootTimeout(host_dir@),
            Uninstall::HostFolder { removals } => Undoing::HostFolder(removals_of(removals@)),
        }
    }
}

/// Steps of uninstalling by their views.
pub open spec fn undone(v: Seq<Uninstall>) -> Seq<Undoing> {
    v.map_values(|s: Uninstall| s@)
}

/// What uninstalling with the files of `layout` does, in order. The backup of
/// the boot menu timeout is used before it goes with its directory.
pub open spec fn undoings(layout: HostImageLayout) -> Seq<Undoing> {
    seq![
        Undoing::FirmwareEntries,
        Undoing::Esp,
        Undoing::BootTimeout(layout.host_dir@),
        Undoing::HostFolder(whole_folder(layout)),
    ]
}

/// What uninstalling from the drive `host_drive_letter` does, if the program
/// runs as administrator.
pub fn uninstall_nextos(host_drive_letter: &str, admin: Result<bool, InstallerError>) -> (r: Result<
    Vec<Uninstall>,
    InstallerError,
>)
    ensures
        match admin {
            Ok(true) => r is Ok && exists|layout: HostImageLayout|
                is_layout(layout, trim_end_char(host_drive_letter@, ':')) && undone(r->Ok_0@)
                    == #[trigger] undoings(layout),
            Ok(false) => r is Err && r->Err_0@ == (
                ErrorKind::PermissionDenied,
                "Run as Administrator to uninstall."@,
            ),
            Err(e) => r == Err::<Vec<Uninstall>, InstallerError>(e),
        },
{
    match admin {
        Ok(true) => {
            let layout = build_layout(host_drive_letter);
            let steps = vec![
                Uninstall::FirmwareEntries,
                Uninstall::Esp,
                Uninstall::BootTimeout { host_dir: layout.host_dir.clone() },
                Uninstall::HostFolder { removals: remove_host_folder(&layout) },
            ];
            assert(undone(steps@) =~= undoings(layout));
            Ok(steps)
        },
        Ok(false) => Err(
            InstallerError::PermissionDenied("Run as Administrator to uninstall.".to_owned()),
        ),
        Err(e) => Err(e),
    }
}

/// The firmware entry to restart into, from the file that holds it, if it could
/// be read.
pub fn reboot_now(stored: Option<String>) -> (r: String)
    ensures
        r@ == (match stored {
            Some(t) => trimmed(t@),
            None => ""@,
        }),
{
    match stored {
        Some(t) => trim(t.as_str()),
        None => "".to_owned(),
    }
}

// ---------------------------------------------------------------------------
// Laws
// ---------------------------------------------------------------------------

/// How far the client was told the installation is when it reached `p`.
pub open spec fn level(p: Phase) -> int {
    match p {
        Phase::Probe | Phase::FastStartup | Phase::ExistingInstall | Phase::HashPassword => 0,
        Phase::MountIso | Phase::FindKernel | Phase::FindSquashfs | Phase::SquashfsSize
        | Phase::UncompressedSize | Phase::RootDiskSize => 8,
        Phase::HostDir | Phase::BootTimeout => 12,
        Phase::RootDisk => 22,
        Phase::CopySquashfs => 50,
        Phase::Config => 62,
        Phase::TempDir | Phase::CopyKernel | Phase::CopyInitrd => 68,
        Phase::Overlay => 76,
        Phase::MountEsp => 82,
        Phase::CopyEfi => 86,
        Phase::BootPayload | Phase::GrubCfg => 90,
        Phase::FirmwareEntry => 94,
        Phase::Done | Phase::Failed => 100,
    }
}

/// How far the client is told the installation is, in order.
pub open spec fn progress_in(ds: Seq<Deed>) -> Seq<int>
    decreases ds.len(),
{
    if ds.len() == 0 {
        Seq::empty()
    } else {
        match ds.last() {
            Deed::Tell(_, n, _) => progress_in(ds.drop_last()).push(n as int),
            Deed::Do(_) => progress_in(ds.drop_last()),
        }
    }
}

/// Each number is greater than those before it.
pub open spec fn rises(ns: Seq<int>) -> bool {
    forall|i: int, j: int| 0 <= i < j < ns.len() ==> ns[i] < ns[j]
}

proof fn progress_of_two(a: Seq<Deed>, b: Seq<Deed>)
    ensures
        progress_in(a + b) == progress_in(a) + progress_in(b),
    decreases b.len(),
{
    if b.len() == 0 {
        assert(a + b =~= a);
        assert(progress_in(a) + progress_in(b) =~= progress_in(a));
    } else {
        assert((a + b).drop_last() =~= a + b.drop_last());
        progress_of_two(a, b.drop_last());
        match b.last() {
            Deed::Tell(_, n, _) => {
                assert(progress_in(a) + progress_in(b.drop_last()).push(n as int) =~= (progress_in(a)
                    + progress_in(b.drop_last())).push(n as int));
            },
            Deed::Do(_) => {},
        }
    }
}

proof fn progress_of_tidying(p: Phase)
    ensures
        progress_in(tidy_deeds(p)) == Seq::<int>::empty(),
{
    tidying_tells_nothing(tidied(p));
}

proof fn tidying_tells_nothing(ts: Seq<Tidy>)
    ensures
        progress_in(ts.map_values(|t: Tidy| Deed::Do(t))) == Seq::<int>::empty(),
    decreases ts.len(),
{
    let ds = ts.map_values(|t: Tidy| Deed::Do(t));
    if ts.len() > 0 {
        assert(ds.drop_last() =~= ts.drop_last().map_values(|t: Tidy| Deed::Do(t)));
        tidying_tells_nothing(ts.drop_last());
    }
}

proof fn progress_of_entering(s: Installation)
    ensures
        rises(progress_in(entering(s))),
        forall|i: int|
            0 <= i < progress_in(entering(s)).len() ==> level(s.phase) < #[trigger] progress_in(
                entering(s),
            )[i] <= level(following(s.phase)),
{
    let ds = entering(s);
    reveal_with_fuel(progress_in, 4);
    if ds.len() == 1 {
        assert(ds.drop_last() =~= Seq::empty());
    } else if ds.len() == 2 {
        assert(ds.drop_last() =~= seq![ds[0]]);
        assert(ds.drop_last().drop_last() =~= Seq::empty());
    } else if ds.len() == 3 {
        assert(ds.drop_last() =~= seq![ds[0], ds[1]]);
        assert(ds.drop_last().drop_last() =~= seq![ds[0]]);
        assert(ds.drop_last().drop_last().drop_last() =~= Seq::empty());
    }
}

/// The next state of an installation is one that `step` may leave it in.
pub open spec fn steps_to(s: Installation, r: Reply, t: Installation) -> bool {
    &&& t.phase == next_phase(s, r)
    &&& !answers(s.phase, r) ==> t == s
    &&& answers(s.phase, r) && fault(s, r) is None ==> t == (Installation {
        phase: following(s.phase),
        ..learned(s, r)
    })
}

/// `ss` is the course of an installation that got the answers `rs`.
pub open spec fn is_course(ss: Seq<Installation>, rs: Seq<Reply>) -> bool {
    &&& ss.len() == rs.len() + 1
    &&& ss[0].phase == Phase::Probe
    &&& forall|i: int| 0 <= i < rs.len() ==> #[trigger] steps_to(ss[i], rs[i], ss[i + 1])
}

/// Everything that is done in the first `n` steps of a course.
pub open spec fn done_in(ss: Seq<Installation>, rs: Seq<Reply>, n: int) -> Seq<Deed>
    decreases n,
{
    if n <= 0 {
        seq![Deed::Tell("verify"@, 0, "Verifying environment"@)]
    } else {
        done_in(ss, rs, n - 1) + done_after(ss[n - 1], rs[n - 1])
    }
}

proof fn progress_rises_up_to(ss: Seq<Installation>, rs: Seq<Reply>, n: int)
    requires
        is_course(ss, rs),
        0 <= n <= rs.len(),
    ensures
        rises(progress_in(done_in(ss, rs, n))),
        forall|i: int|
            0 <= i < progress_in(done_in(ss, rs, n)).len() ==> #[trigger] progress_in(
                done_in(ss, rs, n),
            )[i] <= level(ss[n].phase),
    decreases n,
{
    if n == 0 {
        let d = done_in(ss, rs, 0);
        reveal_with_fuel(progress_in, 2);
        assert(d.drop_last() =~= Seq::empty());
    } else {
        progress_rises_up_to(ss, rs, n - 1);
        let s = ss[n - 1];
        let r = rs[n - 1];
        assert(steps_to(s, r, ss[n - 1 + 1]));
        let before = done_in(ss, rs, n - 1);
        let now = done_after(s, r);
        progress_of_two(before, now);
        progress_of_entering(s);
        progress_of_tidying(s.phase);
        progress_of_two(entering(s), tidy_deeds(s.phase));
        assert(progress_in(entering(s)) + Seq::empty() =~= progress_in(entering(s)));
        assert(progress_in(before) + Seq::empty() =~= progress_in(before));
        let a = progress_in(before);
        let b = progress_in(now);
        assert(b.len() == 0 || b == progress_in(entering(s))) by {
            if !answers(s.phase, r) {
                assert(now =~= Seq::empty());
            }
        }
        assert forall|i: int, j: int| 0 <= i < j < (a + b).len() implies (a + b)[i] < (a + b)[j] by {
            if i < a.len() && j >= a.len() {
                assert(a[i] <= level(s.phase));
                assert(level(s.phase) < b[j - a.len()]);
            }
        }
        assert forall|i: int| 0 <= i < (a + b).len() implies #[trigger] (a + b)[i] <= level(
            ss[n].phase,
        ) by {
            if i < a.len() {
                assert(a[i] <= level(s.phase));
            } else {
                assert(b[i - a.len()] <= level(following(s.phase)));
            }
        }
    }
}

/// The client is told of progress that only rises, whatever the phases answer.
pub proof fn progress_only_rises(ss: Seq<Installation>, rs: Seq<Reply>)
    requires
        is_course(ss, rs),
    ensures
        rises(progress_in(done_in(ss, rs, rs.len() as int))),
{
    progress_rises_up_to(ss, rs, rs.len() as int);
}

/// The image is mounted in the phase `p`.
pub open spec fn iso_is_mounted(p: Phase) -> bool {
    p != Phase::Probe && p != Phase::FastStartup && p != Phase::ExistingInstall && p
        != Phase::HashPassword && p != Phase::MountIso && p != Phase::BootPayload && p
        != Phase::GrubCfg && p != Phase::FirmwareEntry && p != Phase::Done && p != Phase::Failed
}

/// The temporary directory is there in the phase `p`.
pub open spec fn temp_is_there(p: Phase) -> bool {
    p == Phase::CopyKernel || p == Phase::CopyInitrd || p == Phase::Overlay || p == Phase::MountEsp
        || p == Phase::CopyEfi || p == Phase::BootPayload || p == Phase::GrubCfg || p
        == Phase::FirmwareEntry
}

/// The image is unmounted exactly where the installation leaves the phases in
/// which it is mounted, whether it goes on or fails.
pub proof fn mounted_image_is_unmounted(s: Installation, r: Reply)
    ensures
        done_after(s, r).contains(Deed::Do(Tidy::UnmountIso)) <==> iso_is_mounted(s.phase)
            && !iso_is_mounted(next_phase(s, r)),
{
    tidying_does(s, Tidy::UnmountIso);
}

/// The temporary directory is removed exactly where the installation ends after
/// it was created, well or not.
pub proof fn temp_directory_is_removed(s: Installation, r: Reply)
    ensures
        done_after(s, r).contains(Deed::Do(Tidy::RemoveTemp)) <==> temp_is_there(s.phase)
            && !temp_is_there(next_phase(s, r)),
{
    tidying_does(s, Tidy::RemoveTemp);
}

/// The files on the host volume are removed exactly where the installation
/// fails after the root disk was created.
pub proof fn host_files_are_removed(s: Installation, r: Reply)
    ensures
        done_after(s, r).contains(Deed::Do(Tidy::RemoveHostFiles)) <==> next_phase(s, r)
            == Phase::Failed && (s.phase == Phase::CopySquashfs || s.phase == Phase::Config
            || s.phase == Phase::TempDir || temp_is_there(s.phase)),
{
    tidying_does(s, Tidy::RemoveHostFiles);
}

/// The system partition is cleaned exactly where the installation fails after
/// it was mounted.
pub proof fn system_partition_is_cleaned(s: Installation, r: Reply)
    ensures
        done_after(s, r).contains(Deed::Do(Tidy::CleanEsp)) <==> next_phase(s, r) == Phase::Failed
            && (s.phase == Phase::CopyEfi || s.phase == Phase::BootPayload || s.phase
            == Phase::GrubCfg || s.phase == Phase::FirmwareEntry),
{
    tidying_does(s, Tidy::CleanEsp);
}

/// Which phases do the tidying `t` when they fail, and when they succeed.
proof fn tidying_does(s: Installation, t: Tidy)
    ensures
        tidy_deeds(s.phase).contains(Deed::Do(t)) <==> tidied(s.phase).contains(t),
        tidied(s.phase).contains(Tidy::UnmountIso) <==> iso_is_mounted(s.phase),
        tidied(s.phase).contains(Tidy::RemoveTemp) <==> temp_is_there(s.phase),
        tidied(s.phase).contains(Tidy::RemoveHostFiles) <==> (s.phase == Phase::CopySquashfs
            || s.phase == Phase::Config || s.phase == Phase::TempDir || temp_is_there(s.phase)),
        tidied(s.phase).contains(Tidy::CleanEsp) <==> (s.phase == Phase::CopyEfi || s.phase
            == Phase::BootPayload || s.phase == Phase::GrubCfg || s.phase == Phase::FirmwareEntry),
        entering(s).contains(Deed::Do(Tidy::UnmountIso)) <==> s.phase == Phase::CopyEfi,
        entering(s).contains(Deed::Do(Tidy::RemoveTemp)) <==> s.phase == Phase::FirmwareEntry,
        !entering(s).contains(Deed::Do(Tidy::RemoveHostFiles)),
        !entering(s).contains(Deed::Do(Tidy::CleanEsp)),
        forall|d: Deed| #[trigger]
            (entering(s) + tidy_deeds(s.phase)).contains(d) <==> entering(s).contains(d)
                || tidy_deeds(s.phase).contains(d),
{
    let ts = tidied(s.phase);
    let ds = tidy_deeds(s.phase);
    if ts.contains(t) {
        let i = choose|i: int| 0 <= i < ts.len() && ts[i] == t;
        assert(ds[i] == Deed::Do(t));
    }
    let e = entering(s);
    if s.phase == Phase::CopyEfi {
        assert(e[0] == Deed::Do(Tidy::UnmountIso));
    }
    if s.phase == Phase::FirmwareEntry {
        assert(e[0] == Deed::Do(Tidy::RemoveTemp));
    }
    if ts.len() > 0 {
        assert(ts.contains(ts[0]));
    }
    if ts.len() > 1 {
        assert(ts.contains(ts[1]));
    }
    if ts.len() > 2 {
        assert(ts.contains(ts[2]));
    }
    if ts.len() > 3 {
        assert(ts.contains(ts[3]));
    }
    assert forall|d: Deed| #[trigger] (e + ds).contains(d) <==> e.contains(d) || ds.contains(d) by {
        if e.contains(d) {
            let i = choose|i: int| 0 <= i < e.len() && e[i] == d;
            assert((e + ds)[i] == d);
        }
        if ds.contains(d) {
            let i = choose|i: int| 0 <= i < ds.len() && ds[i] == d;
            assert((e + ds)[e.len() + i] == d);
        }
        if (e + ds).contains(d) {
            let i = choose|i: int| 0 <= i < (e + ds).len() && (e + ds)[i] == d;
            if i < e.len() {
                assert(e[i] == d);
            } else {
                assert(ds[i - e.len()] == d);
            }
        }
    }
}

/// The place of a phase in an installation.
pub open spec fn place(p: Phase) -> int {
    match p {
        Phase::Probe => 0,
        Phase::FastStartup => 1,
        Phase::ExistingInstall => 2,
        Phase::HashPassword => 3,
        Phase::MountIso => 4,
        Phase::FindKernel => 5,
        Phase::FindSquashfs => 6,
        Phase::SquashfsSize => 7,
        Phase::UncompressedSize => 8,
        Phase::RootDiskSize => 9,
        Phase::HostDir => 10,
        Phase::BootTimeout => 11,
        Phase::RootDisk => 12,
        Phase::CopySquashfs => 13,
        Phase::Config => 14,
        Phase::TempDir => 15,
        Phase::CopyKernel => 16,
        Phase::CopyInitrd => 17,
        Phase::Overlay => 18,
        Phase::MountEsp => 19,
        Phase::CopyEfi => 20,
        Phase::BootPayload => 21,
        Phase::GrubCfg => 22,
        Phase::FirmwareEntry => 23,
        Phase::Done => 24,
        Phase::Failed => 25,
    }
}

/// An installation reaches a phase only through all the phases before it, each
/// of which answered without a fault: at every place up to the present one
/// there was such a step.
pub proof fn phases_succeed_in_order(ss: Seq<Installation>, rs: Seq<Reply>, p: int)
    requires
        is_course(ss, rs),
        ss.last().phase != Phase::Failed,
        0 <= p < place(ss.last().phase),
    ensures
        exists|i: int|
            0 <= i < rs.len() && place((#[trigger] ss[i]).phase) == p && answers(ss[i].phase, rs[i])
                && fault(ss[i], rs[i]) is None,
    decreases rs.len(),
{
    let n = rs.len() as int;
    if n > 0 {
        let s = ss[n - 1];
        let r = rs[n - 1];
        assert(steps_to(s, r, ss[n - 1 + 1]));
        assert(ss.last() == ss[n]);
        assert(s.phase != Phase::Failed) by {
            if s.phase == Phase::Failed {
                assert(!answers(s.phase, r));
            }
        }
        if answers(s.phase, r) && place(s.phase) == p {
            assert(fault(s, r) is None);
            assert(place(ss[n - 1].phase) == p);
        } else {
            let fs = ss.drop_last();
            let fr = rs.drop_last();
            assert(is_course(fs, fr)) by {
                assert forall|i: int| 0 <= i < fr.len() implies #[trigger] steps_to(
                    fs[i],
                    fr[i],
                    fs[i + 1],
                ) by {
                    assert(steps_to(ss[i], rs[i], ss[i + 1]));
                }
            }
            assert(fs.last() == s);
            phases_succeed_in_order(fs, fr, p);
            let i = choose|i: int|
                0 <= i < fr.len() && place((#[trigger] fs[i]).phase) == p && answers(
                    fs[i].phase,
                    fr[i],
                ) && fault(fs[i], fr[i]) is None;
            assert(ss[i] == fs[i] && rs[i] == fr[i]);
        }
    } else {
        assert(ss.last() == ss[0]);
    }
}

/// The machine is one that can be installed on: the program runs as
/// administrator, the firmware is no legacy BIOS, and the volume is not
/// encrypted.
pub open spec fn is_fit(p: EnvProbe) -> bool {
    p.is_admin && p.boot_mode@ != "BIOS"@ && !p.bitlocker
}

/// An installation that is done met every requirement on its way: a fit
/// machine, Fast Startup off, no installation on the volume, usable input, and
/// enough free space for the root disk, the squashfs and the headroom.
pub proof fn finished_installations_met_the_requirements(ss: Seq<Installation>, rs: Seq<Reply>)
    requires
        is_course(ss, rs),
        ss.last().phase == Phase::Done,
    ensures
        exists|i: int|
            0 <= i < rs.len() && (#[trigger] rs[i]) is Probed && rs[i]->Probed_0 is Ok && is_fit(
                rs[i]->Probed_0->Ok_0,
            ) && rs[i]->Probed_0->Ok_0.is_admin && rs[i]->Probed_0->Ok_0.boot_mode@ != "BIOS"@
                && !rs[i]->Probed_0->Ok_0.bitlocker,
        exists|i: int|
            0 <= i < rs.len() && (#[trigger] ss[i]).phase == Phase::FastStartup && rs[i]
                == Reply::Flag(Ok(false)),
        exists|i: int|
            0 <= i < rs.len() && (#[trigger] ss[i]).phase == Phase::ExistingInstall && rs[i]
                == Reply::Flag(Ok(false)) && input_fault(
                ss[i].user_name@,
                ss[i].password@,
                ss[i].hostname@,
            ) is None,
        exists|i: int|
            0 <= i < rs.len() && (#[trigger] ss[i]).phase == Phase::RootDiskSize && ss[i].free_bytes
                >= required_bytes(root_disk_bytes(ss[i]), ss[i].squashfs_bytes) && (
            ss[i].free_bytes >= ss[i].root_disk_gb * 1073741824 + ss[i].squashfs_bytes + 2147483648
                || ss[i].free_bytes == u64::MAX),
{
    phases_succeed_in_order(ss, rs, 0);
    let a = choose|i: int|
        0 <= i < rs.len() && place((#[trigger] ss[i]).phase) == 0 && answers(ss[i].phase, rs[i])
            && fault(ss[i], rs[i]) is None;
    assert(rs[a] is Probed);
    phases_succeed_in_order(ss, rs, 1);
    let b = choose|i: int|
        0 <= i < rs.len() && place((#[trigger] ss[i]).phase) == 1 && answers(ss[i].phase, rs[i])
            && fault(ss[i], rs[i]) is None;
    assert(ss[b].phase == Phase::FastStartup);
    phases_succeed_in_order(ss, rs, 2);
    let c = choose|i: int|
        0 <= i < rs.len() && place((#[trigger] ss[i]).phase) == 2 && answers(ss[i].phase, rs[i])
            && fault(ss[i], rs[i]) is None;
    assert(ss[c].phase == Phase::ExistingInstall);
    phases_succeed_in_order(ss, rs, 9);
    let d = choose|i: int|
        0 <= i < rs.len() && place((#[trigger] ss[i]).phase) == 9 && answers(ss[i].phase, rs[i])
            && fault(ss[i], rs[i]) is None;
    assert(ss[d].phase == Phase::RootDiskSize);
    root_disk_is_counted_in_gibibytes(ss[d]);
}

/// Up to the moment when the image is mounted, an installation that fails has
/// nothing to tidy up, and one that goes on only tells the client.
pub proof fn nothing_is_done_before_the_image_is_mounted(s: Installation, r: Reply)
    requires
        place(s.phase) <= place(Phase::MountIso),
    ensures
        forall|i: int| 0 <= i < done_after(s, r).len() ==> (#[trigger] done_after(s, r)[i]) is Tell,
{
}

/// What the user entered is accepted exactly where the user name begins with a
/// small letter, holds only small letters, digits, hyphens and underscores and
/// has at most 32 bytes, the password has at least 4 bytes, and the host name
/// begins with a small letter or a digit, holds only small letters, digits and
/// hyphens and has at most 63 bytes.
pub proof fn input_is_accepted_by_its_conditions(
    user: Seq<char>,
    password: Seq<char>,
    host: Seq<char>,
)
    ensures
        input_fault(user, password, host) is None <==> ({
            &&& user.len() > 0 && 'a' <= user[0] && user[0] <= 'z' && (forall|i: int|
                0 <= i < user.len() ==> ('a' <= #[trigger] user[i] && user[i] <= 'z') || ('0' <= user[i] && user[i]
                    <= '9') || user[i] == '-' || user[i] == '_') && encode_utf8(user).len() <= 32
            &&& encode_utf8(password).len() >= 4
            &&& host.len() > 0 && (('a' <= host[0] && host[0] <= 'z') || ('0' <= host[0] && host[0] <= '9'))
                && (forall|i: int|
                0 <= i < host.len() ==> ('a' <= #[trigger] host[i] && host[i] <= 'z') || ('0' <= host[i] && host[i]
                    <= '9') || host[i] == '-') && encode_utf8(host).len() <= 63
        }),
{
}

/// Where the user name and the host name are good, the password alone decides,
/// and of the password only whether it has at least 4 bytes.
pub proof fn password_is_judged_by_its_least_length(
    user: Seq<char>,
    password: Seq<char>,
    host: Seq<char>,
)
    requires
        user.len() > 0 && 'a' <= user[0] && user[0] <= 'z' && (forall|i: int|
            0 <= i < user.len() ==> ('a' <= #[trigger] user[i] && user[i] <= 'z') || ('0' <= user[i] && user[i]
                <= '9') || user[i] == '-' || user[i] == '_') && encode_utf8(user).len() <= 32,
        host.len() > 0 && (('a' <= host[0] && host[0] <= 'z') || ('0' <= host[0] && host[0] <= '9'))
            && (forall|i: int|
            0 <= i < host.len() ==> ('a' <= #[trigger] host[i] && host[i] <= 'z') || ('0' <= host[i] && host[i]
                <= '9') || host[i] == '-') && encode_utf8(host).len() <= 63,
    ensures
        input_fault(user, password, host) is None <==> encode_utf8(password).len() >= 4,
{
}

/// A password that begins with an accepted password is accepted too.
pub proof fn longer_password_is_accepted_too(
    user: Seq<char>,
    password: Seq<char>,
    more: Seq<char>,
    host: Seq<char>,
)
    requires
        input_fault(user, password, host) is None,
    ensures
        input_fault(user, password + more, host) is None,
{
    bytes_of_joined_texts(password, more);
}

/// An installation first looks at the machine, then at the image, then writes to
/// the host volume and last to the system partition: these are its phases, one
/// behind the other, and none is left out.
pub proof fn phases_follow_one_another()
    ensures
        following(Phase::Probe) == Phase::FastStartup,
        following(Phase::FastStartup) == Phase::ExistingInstall,
        following(Phase::ExistingInstall) == Phase::HashPassword,
        following(Phase::HashPassword) == Phase::MountIso,
        following(Phase::MountIso) == Phase::FindKernel,
        following(Phase::FindKernel) == Phase::FindSquashfs,
        following(Phase::FindSquashfs) == Phase::SquashfsSize,
        following(Phase::SquashfsSize) == Phase::UncompressedSize,
        following(Phase::UncompressedSize) == Phase::RootDiskSize,
        following(Phase::RootDiskSize) == Phase::HostDir,
        following(Phase::HostDir) == Phase::BootTimeout,
        following(Phase::BootTimeout) == Phase::RootDisk,
        following(Phase::RootDisk) == Phase::CopySquashfs,
        following(Phase::CopySquashfs) == Phase::Config,
        following(Phase::Config) == Phase::TempDir,
        following(Phase::TempDir) == Phase::CopyKernel,
        following(Phase::CopyKernel) == Phase::CopyInitrd,
        following(Phase::CopyInitrd) == Phase::Overlay,
        following(Phase::Overlay) == Phase::MountEsp,
        following(Phase::MountEsp) == Phase::CopyEfi,
        following(Phase::CopyEfi) == Phase::BootPayload,
        following(Phase::BootPayload) == Phase::GrubCfg,
        following(Phase::GrubCfg) == Phase::FirmwareEntry,
        following(Phase::FirmwareEntry) == Phase::Done,
        following(Phase::Done) == Phase::Done,
        following(Phase::Failed) == Phase::Failed,
{
}

/// The root disk is as many times 1073741824 bytes as the user chose.
pub proof fn root_disk_is_counted_in_gibibytes(s: Installation)
    ensures
        root_disk_bytes(s) == s.root_disk_gb * 1073741824,
{
    let gb = s.root_disk_gb;
    assert(gb * 1073741824 <= u64::MAX) by (nonlinear_arith)
        requires
            gb <= 0xffff_ffff,
    ;
}

/// A machine is turned down exactly where the program does not run as
/// administrator, the firmware says `BIOS`, or the volume is encrypted, and the
/// first of these in this order says why.
pub proof fn machine_is_judged_by_three_conditions(letter: Seq<char>, p: EnvProbe)
    ensures
        probe_fault(letter, p) is None <==> p.is_admin && p.boot_mode@ != "BIOS"@ && !p.bitlocker,
        !p.is_admin ==> probe_fault(letter, p) is Some && probe_fault(letter, p)->Some_0.0
            == ErrorKind::PermissionDenied,
        p.is_admin && p.boot_mode@ == "BIOS"@ ==> probe_fault(letter, p) is Some && probe_fault(
            letter,
            p,
        )->Some_0.0 == ErrorKind::BootloaderConfig,
        p.is_admin && p.boot_mode@ != "BIOS"@ && p.bitlocker ==> probe_fault(letter, p) is Some
            && probe_fault(letter, p)->Some_0.0 == ErrorKind::DiskOperation,
{
}

/// A phase that reports an error fails the installation with that error, and a
/// phase that reports success does so only where Fast Startup is on, where an
/// installation is there already, where the input is refused, where the machine
/// is turned down, or where the space does not suffice.
pub proof fn errors_end_an_installation(s: Installation, r: Reply)
    requires
        answers(s.phase, r),
    ensures
        r matches Reply::Probed(Err(e)) ==> fault(s, r) == Some(e@),
        r matches Reply::Flag(Err(e)) ==> fault(s, r) == Some(e@),
        r matches Reply::Size(Err(e)) ==> fault(s, r) == Some(e@),
        r matches Reply::Outcome(Err(e)) ==> fault(s, r) == Some(e@),
        fault(s, r) is Some <==> next_phase(s, r) == Phase::Failed,
        r matches Reply::Size(Ok(_)) ==> fault(s, r) is None,
        r matches Reply::Outcome(Ok(_)) ==> (fault(s, r) is Some <==> s.phase == Phase::RootDiskSize
            && s.free_bytes < s.root_disk_gb * 1073741824 + s.squashfs_bytes + 2147483648
            && s.free_bytes < u64::MAX),
        r matches Reply::Flag(Ok(set)) ==> (s.phase == Phase::FastStartup ==> (fault(s, r) is Some
            <==> set)) && (s.phase == Phase::ExistingInstall ==> (fault(s, r) is Some <==> set
            || input_fault(s.user_name@, s.password@, s.hostname@) is Some)),
        r matches Reply::Probed(Ok(p)) ==> (fault(s, r) is Some <==> !(p.is_admin && p.boot_mode@
            != "BIOS"@ && !p.bitlocker)),
{
    root_disk_is_counted_in_gibibytes(s);
}

/// Every phase that has not ended the installation is answered by exactly one
/// kind of reply, whatever the reply says: the probe by what it found, the two
/// questions by a flag, the two sizes by a number, and every other phase by how
/// it went.
pub proof fn every_phase_has_its_kind_of_answer(p: Phase, r: Reply)
    ensures
        r is Probed ==> (answers(p, r) <==> p == Phase::Probe),
        r is Flag ==> (answers(p, r) <==> p == Phase::FastStartup || p == Phase::ExistingInstall),
        r is Size ==> (answers(p, r) <==> p == Phase::SquashfsSize || p == Phase::UncompressedSize),
        r is Outcome ==> (answers(p, r) <==> p != Phase::Probe && p != Phase::FastStartup && p
            != Phase::ExistingInstall && p != Phase::SquashfsSize && p != Phase::UncompressedSize
            && p != Phase::Done && p != Phase::Failed),
{
}

/// How far the client is told an installation is, phase by phase.
pub proof fn client_hears_these_percentages(s: Installation)
    ensures
        s.phase == Phase::HashPassword ==> progress_in(entering(s)) == seq![8int],
        s.phase == Phase::RootDiskSize ==> progress_in(entering(s)) == seq![12int],
        s.phase == Phase::BootTimeout ==> progress_in(entering(s)) == seq![22int],
        s.phase == Phase::RootDisk ==> progress_in(entering(s)) == seq![50int],
        s.phase == Phase::CopySquashfs ==> progress_in(entering(s)) == seq![62int],
        s.phase == Phase::Config ==> progress_in(entering(s)) == seq![68int],
        s.phase == Phase::CopyInitrd ==> progress_in(entering(s)) == seq![76int],
        s.phase == Phase::Overlay ==> progress_in(entering(s)) == seq![82int],
        s.phase == Phase::CopyEfi ==> progress_in(entering(s)) == seq![90int],
        s.phase == Phase::GrubCfg ==> progress_in(entering(s)) == seq![94int],
        s.phase == Phase::FirmwareEntry ==> progress_in(entering(s)) == seq![100int],
        s.phase == Phase::MountEsp && s.secure_boot ==> progress_in(entering(s)) == seq![83int, 86],
        s.phase == Phase::MountEsp && !s.secure_boot ==> progress_in(entering(s)) == seq![86int],
{
    let ds = entering(s);
    reveal_with_fuel(progress_in, 4);
    if ds.len() == 1 {
        assert(ds.drop_last() =~= Seq::empty());
    } else if ds.len() == 2 {
        assert(ds.drop_last() =~= seq![ds[0]]);
        assert(ds.drop_last().drop_last() =~= Seq::empty());
    } else if ds.len() == 3 {
        assert(ds.drop_last() =~= seq![ds[0], ds[1]]);
        assert(ds.drop_last().drop_last() =~= seq![ds[0]]);
        assert(ds.drop_last().drop_last().drop_last() =~= Seq::empty());
    }
    assert(Seq::<int>::empty().push(8) =~= seq![8int]);
    assert(Seq::<int>::empty().push(83).push(86) =~= seq![83int, 86]);
}

/// What an installation was told at its start stays as it is, and what it
/// learned is what the answers said: the free space is that of the probe, and
/// the sizes are those of the phases that asked for them.
pub proof fn what_is_learned_comes_from_the_answers(ss: Seq<Installation>, rs: Seq<Reply>)
    requires
        is_course(ss, rs),
        ss.last().phase != Phase::Failed,
    ensures
        ss.last().letter == ss[0].letter && ss.last().root_disk_gb == ss[0].root_disk_gb
            && ss.last().user_name == ss[0].user_name && ss.last().password == ss[0].password
            && ss.last().hostname == ss[0].hostname,
        place(ss.last().phase) > place(Phase::Probe) ==> exists|i: int|
            0 <= i < rs.len() && (#[trigger] rs[i]) is Probed && rs[i]->Probed_0 is Ok
                && ss.last().free_bytes == rs[i]->Probed_0->Ok_0.free_bytes && ss.last().secure_boot
                == rs[i]->Probed_0->Ok_0.secure_boot,
        place(ss.last().phase) > place(Phase::SquashfsSize) ==> exists|i: int|
            0 <= i < rs.len() && ss[i].phase == Phase::SquashfsSize && #[trigger] rs[i]
                == Reply::Size(Ok(ss.last().squashfs_bytes)),
        place(ss.last().phase) > place(Phase::UncompressedSize) ==> exists|i: int|
            0 <= i < rs.len() && ss[i].phase == Phase::UncompressedSize && #[trigger] rs[i]
                == Reply::Size(Ok(ss.last().uncompressed_bytes)),
    decreases rs.len(),
{
    let n = rs.len() as int;
    if n == 0 {
        assert(ss.last() == ss[0]);
    } else {
        let s = ss[n - 1];
        let r = rs[n - 1];
        assert(steps_to(s, r, ss[n - 1 + 1]));
        assert(ss.last() == ss[n]);
        assert(s.phase != Phase::Failed) by {
            if s.phase == Phase::Failed {
                assert(!answers(s.phase, r));
            }
        }
        let fs = ss.drop_last();
        let fr = rs.drop_last();
        assert(is_course(fs, fr)) by {
            assert forall|i: int| 0 <= i < fr.len() implies #[trigger] steps_to(
                fs[i],
                fr[i],
                fs[i + 1],
            ) by {
                assert(steps_to(ss[i], rs[i], ss[i + 1]));
            }
        }
        assert(fs.last() == s);
        assert(fs[0] == ss[0]);
        what_is_learned_comes_from_the_answers(fs, fr);
        if place(ss.last().phase) > place(Phase::Probe) {
            if s.phase == Phase::Probe {
                assert(rs[n - 1] is Probed);
            } else {
                let i = choose|i: int|
                    0 <= i < fr.len() && (#[trigger] fr[i]) is Probed && fr[i]->Probed_0 is Ok
                        && s.free_bytes == fr[i]->Probed_0->Ok_0.free_bytes && s.secure_boot
                        == fr[i]->Probed_0->Ok_0.secure_boot;
                assert(rs[i] == fr[i]);
            }
        }
        if place(ss.last().phase) > place(Phase::SquashfsSize) {
            if s.phase == Phase::SquashfsSize {
                assert(ss[n - 1].phase == Phase::SquashfsSize);
                assert(rs[n - 1] == Reply::Size(Ok(ss.last().squashfs_bytes)));
            } else {
                let i = choose|i: int|
                    0 <= i < fr.len() && fs[i].phase == Phase::SquashfsSize && #[trigger] fr[i]
                        == Reply::Size(Ok(s.squashfs_bytes));
                assert(rs[i] == fr[i] && ss[i] == fs[i]);
            }
        }
        if place(ss.last().phase) > place(Phase::UncompressedSize) {
            if s.phase == Phase::UncompressedSize {
                assert(ss[n - 1].phase == Phase::UncompressedSize);
                assert(rs[n - 1] == Reply::Size(Ok(ss.last().uncompressed_bytes)));
            } else {
                let i = choose|i: int|
                    0 <= i < fr.len() && fs[i].phase == Phase::UncompressedSize && #[trigger] fr[i]
                        == Reply::Size(Ok(s.uncompressed_bytes));
                assert(rs[i] == fr[i] && ss[i] == fs[i]);
            }
        }
    }
}

/// Uninstalling deletes the firmware entries, cleans the system partition and
/// removes the directory of the installation, and before that directory goes the
/// boot menu timeout is restored from its backup in it.
pub proof fn uninstalling_undoes_everything(layout: HostImageLayout)
    ensures
        undoings(layout).len() == 4,
        undoings(layout)[0] == Undoing::FirmwareEntries,
        undoings(layout)[1] == Undoing::Esp,
        undoings(layout)[2] == Undoing::BootTimeout(layout.host_dir@),
        undoings(layout)[3] is HostFolder,
        undoings(layout)[3]->HostFolder_0.last() == Removed::Tree(layout.host_dir@),
{
}

/// What is seen of a task and of a step of uninstalling is what stands in it.
pub proof fn tasks_are_seen_as_they_are(
    step: String,
    progress: u32,
    message: String,
    t: Tidy,
    removals: Vec<Removal>,
)
    ensures
        (Task::Tell { step, progress, message })@ == Deed::Tell(step@, progress, message@),
        Task::Do(t)@ == Deed::Do(t),
        Uninstall::FirmwareEntries@ == Undoing::FirmwareEntries,
        Uninstall::Esp@ == Undoing::Esp,
        (Uninstall::BootTimeout { host_dir: step })@ == Undoing::BootTimeout(step@),
        (Uninstall::HostFolder { removals })@ == Undoing::HostFolder(removals_of(removals@)),
{
}

/// While the space is checked the client is told of the drive, of the size of
/// the root disk as the user chose it, and of the root file system, packed and
/// unpacked, in whole units of 1048576 bytes.
pub proof fn check_of_the_space_is_told(s: Installation, packed: nat, extracted: nat)
    requires
        packed * 1048576 <= s.squashfs_bytes < (packed + 1) * 1048576,
        extracted * 1048576 <= s.uncompressed_bytes < (extracted + 1) * 1048576,
    ensures
        capacity_message(s) == "Validating capacity on "@ + s.letter@ + ":\\ for "@ + decimal(
            s.root_disk_gb as nat,
        ) + " GB root.disk + "@ + decimal(packed) + " MB squashfs ("@ + decimal(extracted)
            + " MB extracted)"@,
{
}

/// Where a phase fails, the system partition is cleaned before anything else,
/// the image is unmounted before the files of the host go, and the temporary
/// files go last. Nothing is done twice.
pub proof fn tidying_goes_in_order(p: Phase, i: int, j: int)
    requires
        0 <= i < j < tidied(p).len(),
    ensures
        tidied(p)[i] != tidied(p)[j],
        tidied(p)[j] != Tidy::CleanEsp,
        tidied(p)[i] != Tidy::RemoveTemp,
        tidied(p)[j] == Tidy::UnmountIso ==> tidied(p)[i] == Tidy::CleanEsp,
{
}

/// A refusal names what is wrong: what is missing or too short comes before what
/// is malformed, the name of the user before the password, and the password
/// before the name of the computer.
pub proof fn refused_input_is_told_by_its_fault(
    user: Seq<char>,
    password: Seq<char>,
    host: Seq<char>,
)
    ensures
        user.len() == 0 ==> input_fault(user, password, host) == Some("Username cannot be empty."@),
        user.len() > 0 && encode_utf8(password).len() < 4 ==> input_fault(user, password, host)
            == Some("Password must be at least 4 characters."@),
        user.len() > 0 && encode_utf8(password).len() >= 4 && host.len() == 0 ==> input_fault(
            user,
            password,
            host,
        ) == Some("Hostname cannot be empty."@),
        user.len() > 0 && encode_utf8(password).len() >= 4 && host.len() > 0 && !({
            &&& 'a' <= user[0] && user[0] <= 'z'
            &&& encode_utf8(user).len() <= 32
            &&& forall|i: int|
                0 <= i < user.len() ==> ('a' <= #[trigger] user[i] && user[i] <= 'z') || ('0'
                    <= user[i] && user[i] <= '9') || user[i] == '-' || user[i] == '_'
        }) ==> input_fault(user, password, host) == Some(
            "Username must start with a lowercase letter and contain only lowercase letters, digits, '-' and '_'."@,
        ),
        user.len() > 0 && encode_utf8(password).len() >= 4 && host.len() > 0 && ({
            &&& 'a' <= user[0] && user[0] <= 'z'
            &&& encode_utf8(user).len() <= 32
            &&& forall|i: int|
                0 <= i < user.len() ==> ('a' <= #[trigger] user[i] && user[i] <= 'z') || ('0'
                    <= user[i] && user[i] <= '9') || user[i] == '-' || user[i] == '_'
        }) ==> input_fault(user, password, host) is None || input_fault(user, password, host)
            == Some("Hostname must contain only lowercase letters, digits, and '-'."@),
{
}

/// A machine that is turned down, and a drive that is, hears which of its
/// conditions failed.
pub proof fn refused_machine_is_told_why(s: Installation, p: EnvProbe, letter: Seq<char>)
    requires
        letter.len() == 1,
        letter[0] != ':',
        s.letter@ == letter || s.letter@ == letter + seq![':'],
    ensures
        !p.is_admin ==> fault(s, Reply::Probed(Ok(p))) == Some(
            (ErrorKind::PermissionDenied, "Run the installer as Administrator."@),
        ),
        p.is_admin && p.boot_mode@ == "BIOS"@ ==> fault(s, Reply::Probed(Ok(p))) == Some(
            (
                ErrorKind::BootloaderConfig,
                "Legacy BIOS is not supported. UEFI firmware required."@,
            ),
        ),
        p.is_admin && p.boot_mode@ != "BIOS"@ && p.bitlocker ==> fault(s, Reply::Probed(Ok(p)))
            == Some(
            (
                ErrorKind::DiskOperation,
                letter
                    + ":\\ sürücüsü BitLocker ile şifreli. Linux şifreli NTFS birimlerini okuyamaz — şifreyi çözün veya başka sürücü seçin."@,
            ),
        ),
        s.phase == Phase::FastStartup ==> fault(s, Reply::Flag(Ok(true))) == Some(
            (
                ErrorKind::DiskOperation,
                "Hızlı Başlatma (Fast Startup) açık. Kurulumdan önce Denetim Masası → Güç Seçenekleri → \"Güç düğmelerinin yapacaklarını seçin\" üzerinden kapatın."@,
            ),
        ),
        s.phase == Phase::ExistingInstall ==> fault(s, Reply::Flag(Ok(true))) == Some(
            (
                ErrorKind::DiskOperation,
                letter
                    + ":\\ sürücüsünde zaten NextOS kurulumu var. Yeniden kurmak için önce kaldırın veya başka sürücü seçin."@,
            ),
        ),
{
    reveal_with_fuel(crate::text::trim_end_char, 3);
    if s.letter@ == letter + seq![':'] {
        assert(s.letter@.drop_last() =~= letter);
    }
    assert(trim_end_char(s.letter@, ':') == letter);
}

/// What the client hears when a phase is over: which part of the work comes
/// next, how far the work is, and what is being done.
pub proof fn client_hears_what_comes_next(s: Installation)
    ensures
        s.phase == Phase::HashPassword ==> entering(s) == seq![
            Deed::Tell("iso"@, 8, "Mounting source ISO"@),
        ],
        s.phase == Phase::BootTimeout ==> entering(s) == seq![
            Deed::Tell(
                "image"@,
                22,
                "Allocating raw root.disk (formatted in-flight on first boot)"@,
            ),
        ],
        s.phase == Phase::RootDisk ==> entering(s) == seq![
            Deed::Tell("image"@, 50, "Copying root payload (squashfs) to host"@),
        ],
        s.phase == Phase::CopySquashfs ==> entering(s) == seq![
            Deed::Tell("image"@, 62, "Writing provisioning configuration"@),
        ],
        s.phase == Phase::Config ==> entering(s) == seq![
            Deed::Tell("boot"@, 68, "Staging kernel and initrd"@),
        ],
        s.phase == Phase::CopyInitrd ==> entering(s) == seq![
            Deed::Tell("boot"@, 76, "Building NextOS overlay initrd (cpio)"@),
        ],
        s.phase == Phase::Overlay ==> entering(s) == seq![
            Deed::Tell("boot"@, 82, "Mounting EFI System Partition"@),
        ],
        s.phase == Phase::MountEsp && s.secure_boot ==> entering(s) == seq![
            Deed::Tell(
                "boot"@,
                83,
                "Secure Boot detected — copying full EFI shim chain for compatibility"@,
            ),
            Deed::Tell("boot"@, 86, "Placing EFI payload on ESP"@),
        ],
        s.phase == Phase::MountEsp && !s.secure_boot ==> entering(s) == seq![
            Deed::Tell("boot"@, 86, "Placing EFI payload on ESP"@),
        ],
        s.phase == Phase::CopyEfi ==> entering(s) == seq![
            Deed::Do(Tidy::UnmountIso),
            Deed::Tell("boot"@, 90, "Copying kernel, initrd and overlay to host volume"@),
        ],
        s.phase == Phase::GrubCfg ==> entering(s) == seq![
            Deed::Tell("boot"@, 94, "Registering UEFI boot entry"@),
        ],
        s.phase == Phase::FirmwareEntry ==> entering(s) == seq![
            Deed::Do(Tidy::RemoveTemp),
            Deed::Do(Tidy::StoreEntry),
            Deed::Tell("done"@, 100, "Installation complete. Reboot to launch NextOS."@),
        ],
        s.phase == Phase::RootDiskSize ==> entering(s).len() == 1 && entering(s)[0] is Tell
            && entering(s)[0]->Tell_0 == "verify"@ && entering(s)[0]->Tell_1 == 12,
        s.phase == Phase::RootDiskSize ==> entering(s)[0]->Tell_2 == capacity_message(s),
{
}

} // verus!
