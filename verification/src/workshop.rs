//! What each phase of an installation works on: the values that the user gave,
//! and those that earlier phases found.
use crate::boot_ops::{generate_loop_grub_cfg, GRUB_CFG_HEAD, GRUB_CFG_TAIL};
use crate::image_ops::{
    artifacts, as_lines, build_layout, copy_squashfs_from_iso, is_layout, removals_of,
    remove_host_artifacts, settings, write_provisioning_config, HostImageLayout, Removal,
};
use crate::install::{root_disk_bytes, root_disk_is_counted_in_gibibytes, Installation, Phase, Tidy};
use crate::iso_ops::{dismount_text, on_drive, unmount_iso, LinuxKernelInfo};
use crate::password::{is_hash_of, HashedPassword};
use crate::text::{text_of, trim_end_char, with_lf};
use crate::winpath::{in_dir, join_name};
use vstd::prelude::*;

verus! {

/// What an installation is given besides its own values, and what its phases
/// found so far.
pub struct Workshop {
    pub iso_path: String,
    pub locale: String,
    pub timezone: String,
    /// The temporary directory.
    pub temp: String,
    pub layout: HostImageLayout,
    /// The serial number of the host volume.
    pub serial: String,
    pub hashed: Option<HashedPassword>,
    /// The letter that the image is mounted as.
    pub iso_drive: String,
    pub kernel: LinuxKernelInfo,
    /// Where the root file system stands in the image.
    pub squashfs_rel: String,
    /// The letter of the system partition.
    pub esp: String,
    /// The program that the firmware starts.
    pub efi_path: String,
    /// The identifier of the firmware entry.
    pub entry: String,
}

/// What a phase found.
pub enum Found {
    Nothing,
    Text(String),
    Kernel(LinuxKernelInfo),
    Hash(HashedPassword),
}

/// The workshop after the phase `p` found `f`: a serial number when the machine
/// was probed, a hash, the letter of the image, the kernel and the root file
/// system in it, the letter of the system partition, the program that the
/// firmware starts, and its entry.
pub open spec fn with_found(w: Workshop, p: Phase, f: Found) -> Workshop {
    match (p, f) {
        (Phase::Probe, Found::Text(t)) => Workshop { serial: t, ..w },
        (Phase::HashPassword, Found::Hash(h)) => Workshop { hashed: Some(h), ..w },
        (Phase::MountIso, Found::Text(t)) => Workshop { iso_drive: t, ..w },
        (Phase::FindKernel, Found::Kernel(k)) => Workshop { kernel: k, ..w },
        (Phase::FindSquashfs, Found::Text(t)) => Workshop { squashfs_rel: t, ..w },
        (Phase::MountEsp, Found::Text(t)) => Workshop { esp: t, ..w },
        (Phase::CopyEfi, Found::Text(t)) => Workshop { efi_path: t, ..w },
        (Phase::FirmwareEntry, Found::Text(t)) => Workshop { entry: t, ..w },
        _ => w,
    }
}

/// What a phase does, with all that it needs.
pub enum Job {
    Probe { letter: String },
    FastStartup,
    ExistingInstall { letter: String },
    HashPassword { password: String },
    MountIso { iso_path: String },
    FindKernel { iso_drive: String },
    FindSquashfs { iso_drive: String },
    SquashfsSize { iso_drive: String, rel: String },
    UncompressedSize { path: String },
    RootDiskSize { bytes: u64, uncompressed: u64 },
    HostDir { path: String },
    BootTimeout { host_dir: String },
    RootDisk { path: String, host_dir: String, bytes: u64 },
    CopySquashfs { iso_drive: String, rel: String, dest: String },
    /// The text is missing where no password was hashed.
    Config { path: String, text: Option<String> },
    TempDir { path: String },
    CopyKernel { iso_drive: String, rel: String, dest: String },
    CopyInitrd { iso_drive: String, rel: String, dest: String },
    Overlay { initrd: String, squashfs: String, dest: String },
    MountEsp,
    CopyEfi { iso_drive: String, esp: String },
    BootPayload { kernel: String, initrd: String, overlay: String },
    GrubCfg { esp: String, text: String },
    FirmwareEntry { esp: String, efi_path: String },
    Nothing,
}

/// A job by its texts.
pub enum Work {
    Probe(Seq<char>),
    FastStartup,
    ExistingInstall(Seq<char>),
    HashPassword(Seq<char>),
    MountIso(Seq<char>),
    FindKernel(Seq<char>),
    FindSquashfs(Seq<char>),
    SquashfsSize(Seq<char>, Seq<char>),
    UncompressedSize(Seq<char>),
    RootDiskSize(u64, u64),
    HostDir(Seq<char>),
    BootTimeout(Seq<char>),
    RootDisk(Seq<char>, Seq<char>, u64),
    CopySquashfs(Seq<char>, Seq<char>, Seq<char>),
    Config(Seq<char>, Option<Seq<char>>),
    TempDir(Seq<char>),
    CopyKernel(Seq<char>, Seq<char>, Seq<char>),
    CopyInitrd(Seq<char>, Seq<char>, Seq<char>),
    Overlay(Seq<char>, Seq<char>, Seq<char>),
    MountEsp,
    CopyEfi(Seq<char>, Seq<char>),
    BootPayload(Seq<char>, Seq<char>, Seq<char>),
    GrubCfg(Seq<char>, Seq<char>),
    FirmwareEntry(Seq<char>, Seq<char>),
    Nothing,
}

impl View for Job {
    type V = Work;

    open spec fn view(&self) -> Work {
        match *self {
            Job::Probe { letter } => Work::Probe(letter@),
            Job::FastStartup => Work::FastStartup,
            Job::ExistingInstall { letter } => Work::ExistingInstall(letter@),
            Job::HashPassword { password } => Work::HashPassword(password@),
            Job::MountIso { iso_path } => Work::MountIso(iso_path@),
            Job::FindKernel { iso_drive } => Work::FindKernel(iso_drive@),
            Job::FindSquashfs { iso_drive } => Work::FindSquashfs(iso_drive@),
            Job::SquashfsSize { iso_drive, rel } => Work::SquashfsSize(iso_drive@, rel@),
            Job::UncompressedSize { path } => Work::UncompressedSize(path@),
            Job::RootDiskSize { bytes, uncompressed } => Work::RootDiskSize(bytes, uncompressed),
            Job::HostDir { path } => Work::HostDir(path@),
            Job::BootTimeout { host_dir } => Work::BootTimeout(host_dir@),
            Job::RootDisk { path, host_dir, bytes } => Work::RootDisk(path@, host_dir@, bytes),
            Job::CopySquashfs { iso_drive, rel, dest } => Work::CopySquashfs(iso_drive@, rel@, dest@),
            Job::Config { path, text } => Work::Config(path@, text_of(text)),
            Job::TempDir { path } => Work::TempDir(path@),
            Job::CopyKernel { iso_drive, rel, dest } => Work::CopyKernel(iso_drive@, rel@, dest@),
            Job::CopyInitrd { iso_drive, rel, dest } => Work::CopyInitrd(iso_drive@, rel@, dest@),
            Job::Overlay { initrd, squashfs, dest } => Work::Overlay(initrd@, squashfs@, dest@),
            Job::MountEsp => Work::MountEsp,
            Job::CopyEfi { iso_drive, esp } => Work::CopyEfi(iso_drive@, esp@),
            Job::BootPayload { kernel, initrd, overlay } => Work::BootPayload(kernel@, initrd@, overlay@),
            Job::GrubCfg { esp, text } => Work::GrubCfg(esp@, text@),
            Job::FirmwareEntry { esp, efi_path } => Work::FirmwareEntry(esp@, efi_path@),
            Job::Nothing => Work::Nothing,
        }
    }
}

/// The copy of the kernel in the temporary directory.
pub open spec fn kernel_copy(w: Workshop) -> Seq<char> {
    in_dir(w.temp@, "vmlinuz"@)
}

/// The copy of the initrd in the temporary directory.
pub open spec fn initrd_copy(w: Workshop) -> Seq<char> {
    in_dir(w.temp@, "initrd.stock"@)
}

/// The overlay in the temporary directory.
pub open spec fn overlay_file(w: Workshop) -> Seq<char> {
    in_dir(w.temp@, "overlay.cpio.gz"@)
}

/// The provisioning configuration, where the password was hashed.
pub open spec fn config_text(w: Workshop, i: Installation) -> Option<Seq<char>> {
    match w.hashed {
        Some(h) => Some(
            with_lf(
                as_lines(
                    settings(
                        w.layout,
                        i.user_name@,
                        h.hash(),
                        i.hostname@,
                        w.locale@,
                        w.timezone@,
                        w.serial@,
                    ),
                ),
            ),
        ),
        None => None,
    }
}

/// What the phase of the installation `i` does.
pub open spec fn work_of(w: Workshop, i: Installation) -> Work {
    match i.phase {
        Phase::Probe => Work::Probe(i.letter@),
        Phase::FastStartup => Work::FastStartup,
        Phase::ExistingInstall => Work::ExistingInstall(i.letter@),
        Phase::HashPassword => Work::HashPassword(i.password@),
        Phase::MountIso => Work::MountIso(w.iso_path@),
        Phase::FindKernel => Work::FindKernel(w.iso_drive@),
        Phase::FindSquashfs => Work::FindSquashfs(w.iso_drive@),
        Phase::SquashfsSize => Work::SquashfsSize(w.iso_drive@, w.squashfs_rel@),
        Phase::UncompressedSize => Work::UncompressedSize(
            on_drive(trim_end_char(w.iso_drive@, ':'), w.squashfs_rel@),
        ),
        Phase::RootDiskSize => Work::RootDiskSize(root_disk_bytes(i), i.uncompressed_bytes),
        Phase::HostDir => Work::HostDir(w.layout.host_dir@),
        Phase::BootTimeout => Work::BootTimeout(w.layout.host_dir@),
        Phase::RootDisk => Work::RootDisk(
            w.layout.root_disk@,
            w.layout.host_dir@,
            root_disk_bytes(i),
        ),
        Phase::CopySquashfs => Work::CopySquashfs(
            w.iso_drive@,
            w.squashfs_rel@,
            w.layout.squashfs@,
        ),
        Phase::Config => Work::Config(w.layout.config@, config_text(w, i)),
        Phase::TempDir => Work::TempDir(w.temp@),
        Phase::CopyKernel => Work::CopyKernel(
            w.iso_drive@,
            w.kernel.kernel_path@,
            kernel_copy(w),
        ),
        Phase::CopyInitrd => Work::CopyInitrd(
            w.iso_drive@,
            w.kernel.initrd_path@,
            initrd_copy(w),
        ),
        Phase::Overlay => Work::Overlay(initrd_copy(w), w.layout.squashfs@, overlay_file(w)),
        Phase::MountEsp => Work::MountEsp,
        Phase::CopyEfi => Work::CopyEfi(w.iso_drive@, w.esp@),
        Phase::BootPayload => Work::BootPayload(kernel_copy(w), initrd_copy(w), overlay_file(w)),
        Phase::GrubCfg => Work::GrubCfg(
            w.esp@,
            with_lf(GRUB_CFG_HEAD@ + w.serial@ + GRUB_CFG_TAIL@),
        ),
        Phase::FirmwareEntry => Work::FirmwareEntry(w.esp@, w.efi_path@),
        Phase::Done | Phase::Failed => Work::Nothing,
    }
}

/// What is tidied up, with all that is needed for it.
pub enum Chore {
    UnmountIso { script: String },
    RemoveHostFiles { removals: Vec<Removal> },
    RemoveTemp { path: String },
    CleanEsp { esp: String },
    StoreEntry { entry: String },
}

/// What is tidied up by `t` with the values of `w`.
pub open spec fn is_chore(w: Workshop, t: Tidy, c: Chore) -> bool {
    match t {
        Tidy::UnmountIso => c is UnmountIso && c->script@ == dismount_text(w.iso_path@),
        Tidy::RemoveHostFiles => c is RemoveHostFiles && removals_of(c->removals@) == artifacts(
            w.layout,
        ),
        Tidy::RemoveTemp => c is RemoveTemp && c->path@ == w.temp@,
        Tidy::CleanEsp => c is CleanEsp && c->esp@ == w.esp@,
        Tidy::StoreEntry => c is StoreEntry && c->entry@ == w.entry@,
    }
}

impl Workshop {
    /// The workshop of an installation on the drive `letter`; nothing was found
    /// yet.
    pub fn new(
        letter: &str,
        iso_path: String,
        locale: String,
        timezone: String,
        temp: String,
    ) -> (r: Workshop)
        ensures
            is_layout(r.layout, trim_end_char(letter@, ':')),
            r.iso_path == iso_path,
            r.locale == locale,
            r.timezone == timezone,
            r.temp == temp,
            r.hashed is None,
            r.serial@ == ""@,
            r.iso_drive@ == ""@,
            r.kernel.kernel_path@ == ""@,
            r.kernel.initrd_path@ == ""@,
            r.squashfs_rel@ == ""@,
            r.esp@ == ""@,
            r.efi_path@ == ""@,
            r.entry@ == ""@,
    {
        Workshop {
            iso_path,
            locale,
            timezone,
            temp,
            layout: build_layout(letter),
            serial: "".to_owned(),
            hashed: None,
            iso_drive: "".to_owned(),
            kernel: LinuxKernelInfo { kernel_path: "".to_owned(), initrd_path: "".to_owned() },
            squashfs_rel: "".to_owned(),
            esp: "".to_owned(),
            efi_path: "".to_owned(),
            entry: "".to_owned(),
        }
    }

    /// Keep what the phase `p` found for the phases behind it.
    pub fn keep(&mut self, p: Phase, found: Found)
        ensures
            *final(self) == with_found(*old(self), p, found),
    {
        match (p, found) {
            (Phase::Probe, Found::Text(t)) => {
                self.serial = t;
            },
            (Phase::HashPassword, Found::Hash(h)) => {
                self.hashed = Some(h);
            },
            (Phase::MountIso, Found::Text(t)) => {
                self.iso_drive = t;
            },
            (Phase::FindKernel, Found::Kernel(k)) => {
                self.kernel = k;
            },
            (Phase::FindSquashfs, Found::Text(t)) => {
                self.squashfs_rel = t;
            },
            (Phase::MountEsp, Found::Text(t)) => {
                self.esp = t;
            },
            (Phase::CopyEfi, Found::Text(t)) => {
                self.efi_path = t;
            },
            (Phase::FirmwareEntry, Found::Text(t)) => {
                self.entry = t;
            },
            _ => {},
        }
    }

    fn config(&self, i: &Installation) -> (r: Option<String>)
        ensures
            text_of(r) == config_text(*self, *i),
            self.hashed matches Some(h) ==> is_hash_of(h.password(), h.hash()),
    {
        match &self.hashed {
            Some(h) => Some(
                write_provisioning_config(
                    &self.layout,
                    i.user_name.as_str(),
                    h.text(),
                    i.hostname.as_str(),
                    self.locale.as_str(),
                    self.timezone.as_str(),
                    self.serial.as_str(),
                ),
            ),
            None => None,
        }
    }

    /// What the phase of the installation does, with all that it needs. What is
    /// written of the password is a hash of it.
    pub fn job(&self, i: &Installation) -> (r: Job)
        ensures
            r@ == work_of(*self, *i),
            i.phase == Phase::Config ==> (self.hashed matches Some(h) ==> is_hash_of(
                h.password(),
                h.hash(),
            )),
    {
        match i.phase {
            Phase::Probe => Job::Probe { letter: i.letter.clone() },
            Phase::FastStartup => Job::FastStartup,
            Phase::ExistingInstall => Job::ExistingInstall { letter: i.letter.clone() },
            Phase::HashPassword => Job::HashPassword { password: i.password.clone() },
            Phase::MountIso => Job::MountIso { iso_path: self.iso_path.clone() },
            Phase::FindKernel => Job::FindKernel { iso_drive: self.iso_drive.clone() },
            Phase::FindSquashfs => Job::FindSquashfs { iso_drive: self.iso_drive.clone() },
            Phase::SquashfsSize => Job::SquashfsSize {
                iso_drive: self.iso_drive.clone(),
                rel: self.squashfs_rel.clone(),
            },
            Phase::UncompressedSize => Job::UncompressedSize {
                path: copy_squashfs_from_iso(self.iso_drive.as_str(), self.squashfs_rel.as_str()),
            },
            Phase::RootDiskSize => Job::RootDiskSize {
                bytes: i.root_disk_size(),
                uncompressed: i.uncompressed_bytes,
            },
            Phase::HostDir => Job::HostDir { path: self.layout.host_dir.clone() },
            Phase::BootTimeout => Job::BootTimeout { host_dir: self.layout.host_dir.clone() },
            Phase::RootDisk => Job::RootDisk {
                path: self.layout.root_disk.clone(),
                host_dir: self.layout.host_dir.clone(),
                bytes: i.root_disk_size(),
            },
            Phase::CopySquashfs => Job::CopySquashfs {
                iso_drive: self.iso_drive.clone(),
                rel: self.squashfs_rel.clone(),
                dest: self.layout.squashfs.clone(),
            },
            Phase::Config => Job::Config {
                path: self.layout.config.clone(),
                text: self.config(i),
            },
            Phase::TempDir => Job::TempDir { path: self.temp.clone() },
            Phase::CopyKernel => Job::CopyKernel {
                iso_drive: self.iso_drive.clone(),
                rel: self.kernel.kernel_path.clone(),
                dest: join_name(self.temp.as_str(), "vmlinuz"),
            },
            Phase::CopyInitrd => Job::CopyInitrd {
                iso_drive: self.iso_drive.clone(),
                rel: self.kernel.initrd_path.clone(),
                dest: join_name(self.temp.as_str(), "initrd.stock"),
            },
            Phase::Overlay => Job::Overlay {
                initrd: join_name(self.temp.as_str(), "initrd.stock"),
                squashfs: self.layout.squashfs.clone(),
                dest: join_name(self.temp.as_str(), "overlay.cpio.gz"),
            },
            Phase::MountEsp => Job::MountEsp,
            Phase::CopyEfi => Job::CopyEfi {
                iso_drive: self.iso_drive.clone(),
                esp: self.esp.clone(),
            },
            Phase::BootPayload => Job::BootPayload {
                kernel: join_name(self.temp.as_str(), "vmlinuz"),
                initrd: join_name(self.temp.as_str(), "initrd.stock"),
                overlay: join_name(self.temp.as_str(), "overlay.cpio.gz"),
            },
            Phase::GrubCfg => Job::GrubCfg {
                esp: self.esp.clone(),
                text: generate_loop_grub_cfg(self.serial.as_str()),
            },
            Phase::FirmwareEntry => Job::FirmwareEntry {
                esp: self.esp.clone(),
                efi_path: self.efi_path.clone(),
            },
            Phase::Done | Phase::Failed => Job::Nothing,
        }
    }

    /// What is tidied up by `t`, with all that is needed for it.
    pub fn chore(&self, t: Tidy) -> (r: Chore)
        ensures
            is_chore(*self, t, r),
    {
        match t {
            Tidy::UnmountIso => Chore::UnmountIso { script: unmount_iso(self.iso_path.as_str()) },
            Tidy::RemoveHostFiles => Chore::RemoveHostFiles {
                removals: remove_host_artifacts(&self.layout),
            },
            Tidy::RemoveTemp => Chore::RemoveTemp { path: self.temp.clone() },
            Tidy::CleanEsp => Chore::CleanEsp { esp: self.esp.clone() },
            Tidy::StoreEntry => Chore::StoreEntry { entry: self.entry.clone() },
        }
    }
}

/// What phases found, one after the other.
pub open spec fn with_all_found(w: Workshop, fs: Seq<(Phase, Found)>) -> Workshop
    decreases fs.len(),
{
    if fs.len() == 0 {
        w
    } else {
        with_found(with_all_found(w, fs.drop_last()), fs.last().0, fs.last().1)
    }
}

/// The serial number that probing the machine found is the one in the
/// configuration and in the boot menu, whatever later phases found.
pub proof fn probed_serial_is_written(
    w: Workshop,
    serial: String,
    fs: Seq<(Phase, Found)>,
    config: Installation,
    menu: Installation,
)
    requires
        forall|k: int| 0 <= k < fs.len() ==> (#[trigger] fs[k]).0 != Phase::Probe,
        config.phase == Phase::Config,
        menu.phase == Phase::GrubCfg,
    ensures
        ({
            let after = with_all_found(with_found(w, Phase::Probe, Found::Text(serial)), fs);
            &&& work_of(after, menu) == Work::GrubCfg(
                after.esp@,
                with_lf(GRUB_CFG_HEAD@ + serial@ + GRUB_CFG_TAIL@),
            )
            &&& after.hashed matches Some(h) ==> work_of(after, config) == Work::Config(
                after.layout.config@,
                Some(
                    with_lf(
                        as_lines(
                            settings(
                                after.layout,
                                config.user_name@,
                                h.hash(),
                                config.hostname@,
                                after.locale@,
                                after.timezone@,
                                serial@,
                            ),
                        ),
                    ),
                ),
            )
        }),
{
    serial_stays(with_found(w, Phase::Probe, Found::Text(serial)), fs);
}

proof fn serial_stays(w: Workshop, fs: Seq<(Phase, Found)>)
    requires
        forall|k: int| 0 <= k < fs.len() ==> (#[trigger] fs[k]).0 != Phase::Probe,
    ensures
        with_all_found(w, fs).serial == w.serial,
    decreases fs.len(),
{
    if fs.len() > 0 {
        assert forall|k: int| 0 <= k < fs.drop_last().len() implies (
        #[trigger] fs.drop_last()[k]).0 != Phase::Probe by {
            assert(fs.drop_last()[k] == fs[k]);
        }
        serial_stays(w, fs.drop_last());
        assert(fs[fs.len() - 1].0 != Phase::Probe);
    }
}

/// What a phase copied to the temporary directory is what the later phases take
/// from there: the overlay is built for the initrd that was copied, and the
/// kernel, the initrd and the overlay go to the host volume.
pub proof fn copies_are_taken_up(
    w: Workshop,
    kernel: Installation,
    initrd: Installation,
    overlay: Installation,
    payload: Installation,
)
    requires
        kernel.phase == Phase::CopyKernel,
        initrd.phase == Phase::CopyInitrd,
        overlay.phase == Phase::Overlay,
        payload.phase == Phase::BootPayload,
    ensures
        work_of(w, overlay)->Overlay_0 == work_of(w, initrd)->CopyInitrd_2,
        work_of(w, payload) == Work::BootPayload(
            work_of(w, kernel)->CopyKernel_2,
            work_of(w, initrd)->CopyInitrd_2,
            work_of(w, overlay)->Overlay_2,
        ),
{
}

/// What a phase found reaches the phases that need it: the drive of the image,
/// the kernel and its initrd, the root file system, the system partition, the
/// path of the EFI program and the firmware entry each go where they belong, and
/// the password is handed to the phase that hashes it alone.
pub proof fn found_values_reach_their_phases(w: Workshop, i: Installation, t: String, k: LinuxKernelInfo)
    ensures
        ({
            let m = with_found(w, Phase::MountIso, Found::Text(t));
            &&& i.phase == Phase::FindKernel ==> work_of(m, i) == Work::FindKernel(t@)
            &&& i.phase == Phase::FindSquashfs ==> work_of(m, i) == Work::FindSquashfs(t@)
            &&& i.phase == Phase::SquashfsSize ==> work_of(m, i) == Work::SquashfsSize(
                t@,
                w.squashfs_rel@,
            )
            &&& i.phase == Phase::CopySquashfs ==> work_of(m, i) == Work::CopySquashfs(
                t@,
                w.squashfs_rel@,
                w.layout.squashfs@,
            )
            &&& i.phase == Phase::CopyEfi ==> work_of(m, i) == Work::CopyEfi(t@, w.esp@)
        }),
        ({
            let m = with_found(w, Phase::FindKernel, Found::Kernel(k));
            &&& i.phase == Phase::CopyKernel ==> work_of(m, i) == Work::CopyKernel(
                w.iso_drive@,
                k.kernel_path@,
                in_dir(w.temp@, "vmlinuz"@),
            )
            &&& i.phase == Phase::CopyInitrd ==> work_of(m, i) == Work::CopyInitrd(
                w.iso_drive@,
                k.initrd_path@,
                in_dir(w.temp@, "initrd.stock"@),
            )
        }),
        ({
            let m = with_found(w, Phase::FindSquashfs, Found::Text(t));
            &&& i.phase == Phase::SquashfsSize ==> work_of(m, i) == Work::SquashfsSize(
                w.iso_drive@,
                t@,
            )
            &&& i.phase == Phase::UncompressedSize ==> work_of(m, i) == Work::UncompressedSize(
                on_drive(trim_end_char(w.iso_drive@, ':'), t@),
            )
            &&& i.phase == Phase::CopySquashfs ==> work_of(m, i) == Work::CopySquashfs(
                w.iso_drive@,
                t@,
                w.layout.squashfs@,
            )
        }),
        ({
            let m = with_found(w, Phase::MountEsp, Found::Text(t));
            &&& i.phase == Phase::CopyEfi ==> work_of(m, i) == Work::CopyEfi(w.iso_drive@, t@)
            &&& i.phase == Phase::GrubCfg ==> work_of(m, i) is GrubCfg && work_of(m, i)->GrubCfg_0
                == t@
            &&& i.phase == Phase::FirmwareEntry ==> work_of(m, i) == Work::FirmwareEntry(
                t@,
                w.efi_path@,
            )
        }),
        ({
            let m = with_found(w, Phase::CopyEfi, Found::Text(t));
            i.phase == Phase::FirmwareEntry ==> work_of(m, i) == Work::FirmwareEntry(w.esp@, t@)
        }),
        with_found(w, Phase::FirmwareEntry, Found::Text(t)).entry == t,
        i.phase == Phase::HashPassword ==> work_of(w, i) == Work::HashPassword(i.password@),
{
}

/// What an installation writes to the host volume goes to the files of its
/// layout, and the root disk is as large as the user chose.
pub proof fn host_files_are_those_of_the_layout(w: Workshop, i: Installation)
    ensures
        i.phase == Phase::HostDir ==> work_of(w, i) == Work::HostDir(w.layout.host_dir@),
        i.phase == Phase::BootTimeout ==> work_of(w, i) == Work::BootTimeout(w.layout.host_dir@),
        i.phase == Phase::RootDiskSize ==> work_of(w, i) is RootDiskSize && work_of(
            w,
            i,
        )->RootDiskSize_0 == i.root_disk_gb * 1073741824 && work_of(w, i)->RootDiskSize_1
            == i.uncompressed_bytes,
        i.phase == Phase::RootDisk ==> work_of(w, i) is RootDisk && work_of(w, i)->RootDisk_0
            == w.layout.root_disk@ && work_of(w, i)->RootDisk_1 == w.layout.host_dir@ && work_of(
            w,
            i,
        )->RootDisk_2 == i.root_disk_gb * 1073741824,
        i.phase == Phase::Config ==> work_of(w, i) is Config && work_of(w, i)->Config_0
            == w.layout.config@,
        i.phase == Phase::TempDir ==> work_of(w, i) == Work::TempDir(w.temp@),
        i.phase == Phase::Overlay ==> work_of(w, i) == Work::Overlay(
            in_dir(w.temp@, "initrd.stock"@),
            w.layout.squashfs@,
            in_dir(w.temp@, "overlay.cpio.gz"@),
        ),
        i.phase == Phase::Done || i.phase == Phase::Failed ==> work_of(w, i) == Work::Nothing,
{
    root_disk_is_counted_in_gibibytes(i);
}

/// What is tidied up is what was made: the image that was mounted is unmounted,
/// the temporary directory that was created is removed, the system partition
/// that the programs were copied to is cleaned, the files of the layout are
/// removed, and the entry that was registered is kept.
pub proof fn chores_undo_what_was_made(
    w: Workshop,
    mount: Installation,
    temp: Installation,
    efi: Installation,
    c: Chore,
)
    requires
        mount.phase == Phase::MountIso,
        temp.phase == Phase::TempDir,
        efi.phase == Phase::CopyEfi,
    ensures
        is_chore(w, Tidy::UnmountIso, c) ==> c is UnmountIso && c->script@ == dismount_text(
            work_of(w, mount)->MountIso_0,
        ),
        is_chore(w, Tidy::RemoveTemp, c) ==> c is RemoveTemp && c->path@ == work_of(
            w,
            temp,
        )->TempDir_0,
        is_chore(w, Tidy::CleanEsp, c) ==> c is CleanEsp && c->esp@ == work_of(w, efi)->CopyEfi_1,
        is_chore(w, Tidy::StoreEntry, c) ==> c is StoreEntry && c->entry@ == w.entry@,
        is_chore(w, Tidy::RemoveHostFiles, c) ==> c is RemoveHostFiles && removals_of(
            c->removals@,
        ) == artifacts(w.layout),
{
}

/// What is seen of a piece of work is what stands in it.
pub proof fn work_is_seen_as_it_is(a: String, b: String, c: String, m: u64, n: u64)
    ensures
        (Job::Probe { letter: a })@ == Work::Probe(a@),
        (Job::ExistingInstall { letter: a })@ == Work::ExistingInstall(a@),
        (Job::HashPassword { password: a })@ == Work::HashPassword(a@),
        (Job::MountIso { iso_path: a })@ == Work::MountIso(a@),
        (Job::FindKernel { iso_drive: a })@ == Work::FindKernel(a@),
        (Job::FindSquashfs { iso_drive: a })@ == Work::FindSquashfs(a@),
        (Job::SquashfsSize { iso_drive: a, rel: b })@ == Work::SquashfsSize(a@, b@),
        (Job::UncompressedSize { path: a })@ == Work::UncompressedSize(a@),
        (Job::RootDiskSize { bytes: m, uncompressed: n })@ == Work::RootDiskSize(m, n),
        (Job::HostDir { path: a })@ == Work::HostDir(a@),
        (Job::BootTimeout { host_dir: a })@ == Work::BootTimeout(a@),
        (Job::RootDisk { path: a, host_dir: b, bytes: n })@ == Work::RootDisk(a@, b@, n),
        (Job::CopySquashfs { iso_drive: a, rel: b, dest: c })@ == Work::CopySquashfs(a@, b@, c@),
        (Job::TempDir { path: a })@ == Work::TempDir(a@),
        (Job::CopyKernel { iso_drive: a, rel: b, dest: c })@ == Work::CopyKernel(a@, b@, c@),
        (Job::CopyInitrd { iso_drive: a, rel: b, dest: c })@ == Work::CopyInitrd(a@, b@, c@),
        (Job::Overlay { initrd: a, squashfs: b, dest: c })@ == Work::Overlay(a@, b@, c@),
        (Job::CopyEfi { iso_drive: a, esp: b })@ == Work::CopyEfi(a@, b@),
        (Job::BootPayload { kernel: a, initrd: b, overlay: c })@ == Work::BootPayload(a@, b@, c@),
        (Job::GrubCfg { esp: a, text: b })@ == Work::GrubCfg(a@, b@),
        (Job::FirmwareEntry { esp: a, efi_path: b })@ == Work::FirmwareEntry(a@, b@),
        (Job::Config { path: a, text: Some(b) })@ == Work::Config(a@, Some(b@)),
        (Job::Config { path: a, text: None })@ == Work::Config(a@, None),
{
}

} // verus!
