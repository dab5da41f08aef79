//! The files on the host volume: where they stand, whether they fit, and what
//! is written into them.
use crate::ascii::{
    characters_go_one_by_one, decimal, decimal_text, hex_digits_upper, keep_hex_upper, neither, parse_u64, parsed_u64,
    remove_two, without_two,
};
use crate::error::{ErrorKind, InstallerError};
use crate::iso_ops::on_drive;
use crate::password::{is_hash_of, HashedPassword};
use crate::text::{
    has_prefix, lines_of, lines_of_line, replace, replace_char, replacing_by_one_character,
    replacing_in_joined_texts, strip_end, texts, trim, trim_end_char, trimmed, with_lf,
};
use crate::util::to_lf;
use vstd::prelude::*;

verus! {

pub const NEXTOS_HOST_DIR_NAME: &'static str = "NextOS";

pub const ROOT_DISK_FILENAME: &'static str = "root.disk";

pub const SQUASHFS_FILENAME: &'static str = "filesystem.squashfs";

pub const PROVISIONING_FILENAME: &'static str = "nextos.conf";

pub const MIN_ROOT_DISK_GB: u32 = 10;

pub const MAX_ROOT_DISK_GB: u32 = 100;

pub const SAFETY_HEADROOM_BYTES: u64 = 2 * 1024 * 1024 * 1024;

pub const HOST_BOOT_DIR_NAME: &'static str = "boot";

pub const HOST_KERNEL_FILENAME: &'static str = "vmlinuz";

pub const HOST_INITRD_FILENAME: &'static str = "initrd.img";

pub const HOST_OVERLAY_FILENAME: &'static str = "overlay.cpio.gz";

/// The first boot creates this file once it has formatted the root disk;
/// without it the root disk counts as raw.
pub const FORMAT_MARKER_FILENAME: &'static str = ".nextos-formatted";

/// Holds the boot menu timeout that the machine had before the installation.
pub const BCD_TIMEOUT_BACKUP_FILENAME: &'static str = ".bcd-timeout-backup";

/// Where the files of an installation stand on the host volume.
pub struct HostImageLayout {
    pub drive_letter: String,
    pub host_dir: String,
    pub boot_dir: String,
    pub root_disk: String,
    pub squashfs: String,
    pub config: String,
    pub host_kernel: String,
    pub host_initrd: String,
    pub host_overlay: String,
    pub root_disk_unix_path: String,
    pub squashfs_unix_path: String,
}

/// The file `name` in the directory `dir` of the host.
pub open spec fn host_path(dir: Seq<char>, name: Seq<char>) -> Seq<char> {
    dir + "\\"@ + name
}

/// The file `name` in the directory `dir` of the host.
pub fn host_join(dir: &str, name: &str) -> (r: String)
    ensures
        r@ == host_path(dir@, name@),
{
    dir.to_owned().concat("\\").concat(name)
}

/// The directory of the installation on the drive `letter`.
pub open spec fn host_dir_of(letter: Seq<char>) -> Seq<char> {
    letter + ":\\"@ + NEXTOS_HOST_DIR_NAME@
}

/// `layout` is that of an installation on the drive `letter`.
pub open spec fn is_layout(layout: HostImageLayout, letter: Seq<char>) -> bool {
    let base = host_dir_of(letter);
    let boot = host_path(base, HOST_BOOT_DIR_NAME@);
    &&& layout.drive_letter@ == letter
    &&& layout.host_dir@ == base
    &&& layout.boot_dir@ == boot
    &&& layout.root_disk@ == host_path(base, ROOT_DISK_FILENAME@)
    &&& layout.squashfs@ == host_path(base, SQUASHFS_FILENAME@)
    &&& layout.config@ == host_path(base, PROVISIONING_FILENAME@)
    &&& layout.host_kernel@ == host_path(boot, HOST_KERNEL_FILENAME@)
    &&& layout.host_initrd@ == host_path(boot, HOST_INITRD_FILENAME@)
    &&& layout.host_overlay@ == host_path(boot, HOST_OVERLAY_FILENAME@)
    &&& layout.root_disk_unix_path@ == "/"@ + NEXTOS_HOST_DIR_NAME@ + "/"@ + ROOT_DISK_FILENAME@
    &&& layout.squashfs_unix_path@ == "/"@ + NEXTOS_HOST_DIR_NAME@ + "/"@ + SQUASHFS_FILENAME@
}

/// Where the files of an installation on the drive `drive_letter` stand.
pub fn build_layout(drive_letter: &str) -> (r: HostImageLayout)
    ensures
        is_layout(r, trim_end_char(drive_letter@, ':')),
        r.host_dir@ == trim_end_char(drive_letter@, ':') + ":\\"@ + "NextOS"@,
        r.root_disk@ == r.host_dir@ + "\\"@ + "root.disk"@,
        r.squashfs@ == r.host_dir@ + "\\"@ + "filesystem.squashfs"@,
        r.config@ == r.host_dir@ + "\\"@ + "nextos.conf"@,
        r.boot_dir@ == r.host_dir@ + "\\"@ + "boot"@,
        r.host_kernel@ == r.boot_dir@ + "\\"@ + "vmlinuz"@,
        r.host_initrd@ == r.boot_dir@ + "\\"@ + "initrd.img"@,
        r.host_overlay@ == r.boot_dir@ + "\\"@ + "overlay.cpio.gz"@,
{
    let letter = strip_end(drive_letter, ':');
    let base = letter.clone().concat(":\\").concat(NEXTOS_HOST_DIR_NAME);
    let boot = host_join(base.as_str(), HOST_BOOT_DIR_NAME);
    HostImageLayout {
        drive_letter: letter,
        root_disk: host_join(base.as_str(), ROOT_DISK_FILENAME),
        squashfs: host_join(base.as_str(), SQUASHFS_FILENAME),
        config: host_join(base.as_str(), PROVISIONING_FILENAME),
        host_kernel: host_join(boot.as_str(), HOST_KERNEL_FILENAME),
        host_initrd: host_join(boot.as_str(), HOST_INITRD_FILENAME),
        host_overlay: host_join(boot.as_str(), HOST_OVERLAY_FILENAME),
        boot_dir: boot,
        host_dir: base,
        root_disk_unix_path: "/".to_owned().concat(NEXTOS_HOST_DIR_NAME).concat("/").concat(
            ROOT_DISK_FILENAME,
        ),
        squashfs_unix_path: "/".to_owned().concat(NEXTOS_HOST_DIR_NAME).concat("/").concat(
            SQUASHFS_FILENAME,
        ),
    }
}

// ---------------------------------------------------------------------------
// Space
// ---------------------------------------------------------------------------

/// The script that asks for the free space of a drive.
pub fn free_bytes_script(drive_letter: &str) -> (r: String)
    ensures
        r@ == "(Get-Volume -DriveLetter '"@ + trim_end_char(drive_letter@, ':')
            + "').SizeRemaining"@,
{
    let letter = strip_end(drive_letter, ':');
    "(Get-Volume -DriveLetter '".to_owned().concat(letter.as_str()).concat("').SizeRemaining")
}

/// The free space of a drive, from what the script answered.
pub fn get_free_bytes(reply: Result<String, InstallerError>) -> (r: Result<u64, InstallerError>)
    ensures
        match reply {
            Ok(raw) => match parsed_u64(trimmed(raw@)) {
                Some(n) => r == Ok::<u64, InstallerError>(n),
                None => r is Err && r->Err_0@ == (
                    ErrorKind::DiskOperation,
                    "free space query failed: '"@ + trimmed(raw@) + "'"@,
                ),
            },
            Err(e) => r == Err::<u64, InstallerError>(e),
        },
{
    match reply {
        Ok(raw) => {
            let t = trim(raw.as_str());
            match parse_u64(t.as_str()) {
                Some(n) => Ok(n),
                None => Err(
                    InstallerError::DiskOperation(
                        "free space query failed: '".to_owned().concat(t.as_str()).concat("'"),
                    ),
                ),
            }
        },
        Err(e) => Err(e),
    }
}

/// The space that an installation needs: the root disk, the squashfs and some
/// headroom, at most what 64 bits can count.
pub open spec fn required_bytes(root_disk_bytes: u64, squashfs_bytes: u64) -> int {
    let sum = root_disk_bytes + squashfs_bytes + SAFETY_HEADROOM_BYTES;
    if sum <= u64::MAX {
        sum
    } else {
        u64::MAX as int
    }
}

/// The message for a drive with too little space.
pub open spec fn capacity_failure(letter: Seq<char>, free: u64, required: int) -> Seq<char> {
    "Insufficient free space on "@ + letter + ":\\ — have "@ + decimal((free / 0x4000_0000) as nat)
        + " GB, need "@ + decimal((required / 0x4000_0000) as nat)
        + " GB (root.disk + squashfs + 2 GB headroom)."@
}

/// Whether a drive with `free` bytes has room for the installation.
pub fn validate_capacity(
    drive_letter: &str,
    free: u64,
    root_disk_bytes: u64,
    squashfs_bytes: u64,
) -> (r: Result<(), InstallerError>)
    ensures
        free >= required_bytes(root_disk_bytes, squashfs_bytes) ==> r is Ok,
        r is Ok <==> free >= root_disk_bytes + squashfs_bytes + 2147483648 || free == u64::MAX,
        free < required_bytes(root_disk_bytes, squashfs_bytes) ==> r is Err && r->Err_0@ == (
            ErrorKind::DiskOperation,
            capacity_failure(
                trim_end_char(drive_letter@, ':'),
                free,
                required_bytes(root_disk_bytes, squashfs_bytes),
            ),
        ),
{
    let required = root_disk_bytes.saturating_add(squashfs_bytes).saturating_add(
        SAFETY_HEADROOM_BYTES,
    );
    if free < required {
        let free_gb = decimal_text(free / (1024 * 1024 * 1024));
        let req_gb = decimal_text(required / (1024 * 1024 * 1024));
        let letter = strip_end(drive_letter, ':');
        let m = "Insufficient free space on ".to_owned().concat(letter.as_str()).concat(
            ":\\ — have ",
        ).concat(free_gb.as_str()).concat(" GB, need ").concat(req_gb.as_str()).concat(
            " GB (root.disk + squashfs + 2 GB headroom).",
        );
        return Err(InstallerError::DiskOperation(m));
    }
    Ok(())
}

// ---------------------------------------------------------------------------
// The root disk
// ---------------------------------------------------------------------------

/// The format marker in the directory `host_dir`.
pub fn format_marker(host_dir: &str) -> (r: String)
    ensures
        r@ == host_path(host_dir@, FORMAT_MARKER_FILENAME@),
{
    host_join(host_dir, FORMAT_MARKER_FILENAME)
}

/// The arguments for `fsutil` that do `action` to the file `path` of `size`
/// bytes.
pub open spec fn fsutil_args(action: Seq<char>, path: Seq<char>, size: u64) -> Seq<Seq<char>> {
    seq!["file"@, action, path, decimal(size as nat)]
}

fn fsutil_file(action: &str, path: &str, size_bytes: u64) -> (r: Vec<String>)
    ensures
        texts(r@) == fsutil_args(action@, path@, size_bytes),
{
    let size = decimal_text(size_bytes);
    let r: Vec<String> = vec!["file".to_owned(), action.to_owned(), path.to_owned(), size];
    assert(texts(r@) =~= fsutil_args(action@, path@, size_bytes));
    r
}

/// The arguments for `fsutil` that create the file `path` of `size_bytes` bytes.
pub fn createnew_args(path: &str, size_bytes: u64) -> (r: Vec<String>)
    ensures
        texts(r@) == fsutil_args("createnew"@, path@, size_bytes),
{
    fsutil_file("createnew", path, size_bytes)
}

/// The arguments for `fsutil` that make all of the file `path` valid data.
pub fn setvaliddata_args(path: &str, size_bytes: u64) -> (r: Vec<String>)
    ensures
        texts(r@) == fsutil_args("setvaliddata"@, path@, size_bytes),
{
    fsutil_file("setvaliddata", path, size_bytes)
}

/// What an `fsutil` run that did `action` answers.
pub fn fsutil_reply(action: &str, success: bool, stderr: &str) -> (r: Result<(), InstallerError>)
    ensures
        success ==> r is Ok,
        !success ==> r is Err && r->Err_0@ == (
            ErrorKind::ImageOperation,
            "fsutil "@ + action@ + " failed: "@ + trimmed(stderr@),
        ),
{
    if success {
        return Ok(());
    }
    let e = trim(stderr);
    Err(
        InstallerError::ImageOperation(
            "fsutil ".to_owned().concat(action).concat(" failed: ").concat(e.as_str()),
        ),
    )
}

/// At most this many bytes are wiped by one write.
pub const WIPE_CHUNK: u64 = 1024 * 1024;

/// How many bytes at the beginning of the root disk are wiped.
pub const WIPE_HEAD_BYTES: u64 = 8 * 1024 * 1024;

/// How many bytes at the end of the root disk are wiped.
pub const WIPE_TAIL_BYTES: u64 = 4 * 1024 * 1024;

/// The writes that wipe `len` bytes from `start` on, by offset and length.
pub open spec fn wipe_chunks(start: int, len: int) -> Seq<(int, int)>
    decreases len,
{
    if len <= 0 {
        Seq::empty()
    } else if len <= WIPE_CHUNK {
        seq![(start, len)]
    } else {
        seq![(start, WIPE_CHUNK as int)] + wipe_chunks(start + WIPE_CHUNK, len - WIPE_CHUNK)
    }
}

/// How many bytes are wiped at the beginning of a disk of `size` bytes.
pub open spec fn head_len(size: u64) -> int {
    if size < WIPE_HEAD_BYTES {
        size as int
    } else {
        WIPE_HEAD_BYTES as int
    }
}

/// How many bytes are wiped at the end of a disk of `size` bytes.
pub open spec fn tail_len(size: u64) -> int {
    if size - head_len(size) < WIPE_TAIL_BYTES {
        size - head_len(size)
    } else {
        WIPE_TAIL_BYTES as int
    }
}

/// The writes that wipe a disk of `size` bytes.
pub open spec fn wipe_plan(size: u64) -> Seq<(int, int)> {
    wipe_chunks(0, head_len(size)) + wipe_chunks(size - tail_len(size), tail_len(size))
}

/// A step that makes the root disk. The program opens the file once, and writes
/// from where the last step left it.
pub enum DiskStep {
    RemoveOld { path: String },
    /// This may fail without harm.
    RemoveMarker { path: String },
    Fsutil { action: String, args: Vec<String> },
    Open { path: String },
    Seek { offset: u64 },
    /// Write zeros, at the beginning of the disk or at its end.
    Wipe { len: u64, at_head: bool },
    Sync,
}

/// A step by its texts.
pub enum DiskDeed {
    RemoveOld(Seq<char>),
    RemoveMarker(Seq<char>),
    Fsutil(Seq<char>, Seq<Seq<char>>),
    Open(Seq<char>),
    Seek(int),
    Wipe(int, bool),
    Sync,
}

impl View for DiskStep {
    type V = DiskDeed;

    open spec fn view(&self) -> DiskDeed {
        match *self {
            DiskStep::RemoveOld { path } => DiskDeed::RemoveOld(path@),
            DiskStep::RemoveMarker { path } => DiskDeed::RemoveMarker(path@),
            DiskStep::Fsutil { action, args } => DiskDeed::Fsutil(action@, texts(args@)),
            DiskStep::Open { path } => DiskDeed::Open(path@),
            DiskStep::Seek { offset } => DiskDeed::Seek(offset as int),
            DiskStep::Wipe { len, at_head } => DiskDeed::Wipe(len as int, at_head),
            DiskStep::Sync => DiskDeed::Sync,
        }
    }
}

/// A list of steps by their views.
pub open spec fn disk_deeds(v: Seq<DiskStep>) -> Seq<DiskDeed> {
    v.map_values(|s: DiskStep| s@)
}

/// Writes as steps.
pub open spec fn wipe_deeds(ws: Seq<(int, int)>, at_head: bool) -> Seq<DiskDeed> {
    ws.map_values(|w: (int, int)| DiskDeed::Wipe(w.1, at_head))
}

/// The steps that make a root disk of `size` bytes in the directory `host_dir`:
/// what was there goes, the file is allocated, and both its ends are wiped.
pub open spec fn root_disk_deeds(
    path: Seq<char>,
    host_dir: Seq<char>,
    size: u64,
    exists: bool,
) -> Seq<DiskDeed> {
    (if exists {
        seq![DiskDeed::RemoveOld(path)]
    } else {
        Seq::empty()
    }) + seq![
        DiskDeed::RemoveMarker(host_path(host_dir, FORMAT_MARKER_FILENAME@)),
        DiskDeed::Fsutil("createnew"@, fsutil_args("createnew"@, path, size)),
        DiskDeed::Fsutil("setvaliddata"@, fsutil_args("setvaliddata"@, path, size)),
        DiskDeed::Open(path),
    ] + wipe_deeds(wipe_chunks(0, head_len(size)), true) + (if tail_len(size) > 0 {
        seq![DiskDeed::Seek(size - tail_len(size))]
    } else {
        Seq::empty()
    }) + wipe_deeds(wipe_chunks(size - tail_len(size), tail_len(size)), false) + seq![
        DiskDeed::Sync,
    ]
}

fn push_wipes(out: &mut Vec<DiskStep>, start: u64, len: u64, at_head: bool)
    requires
        start + len <= u64::MAX,
    ensures
        disk_deeds(final(out)@) == disk_deeds(old(out)@) + wipe_deeds(
            wipe_chunks(start as int, len as int),
            at_head,
        ),
{
    let mut at: u64 = start;
    let mut left: u64 = len;
    let ghost whole = disk_deeds(out@) + wipe_deeds(wipe_chunks(start as int, len as int), at_head);
    while left > 0
        invariant
            at + left <= u64::MAX,
            whole == disk_deeds(out@) + wipe_deeds(wipe_chunks(at as int, left as int), at_head),
        decreases left,
    {
        let n: u64 = if left < WIPE_CHUNK { left } else { WIPE_CHUNK };
        let ghost before = disk_deeds(out@);
        out.push(DiskStep::Wipe { len: n, at_head });
        proof {
            assert(disk_deeds(out@) =~= before.push(DiskDeed::Wipe(n as int, at_head)));
            assert(whole =~= disk_deeds(out@) + wipe_deeds(
                wipe_chunks(at + n, left - n),
                at_head,
            ));
        }
        at = at + n;
        left = left - n;
    }
    assert(whole =~= disk_deeds(out@));
}

/// The steps that make a root disk of `size_bytes` bytes at `path`, in order;
/// `exists` says whether there is one already. The bytes of a preallocated file
/// are what the volume held there before, so its beginning and its end are
/// wiped: no signature of an earlier file system must be found in them.
pub fn create_preallocated_root_disk(
    path: &str,
    host_dir: &str,
    size_bytes: u64,
    exists: bool,
) -> (r: Vec<DiskStep>)
    ensures
        disk_deeds(r@) == root_disk_deeds(path@, host_dir@, size_bytes, exists),
{
    let head: u64 = if size_bytes < WIPE_HEAD_BYTES { size_bytes } else { WIPE_HEAD_BYTES };
    let rest: u64 = size_bytes - head;
    let tail: u64 = if rest < WIPE_TAIL_BYTES { rest } else { WIPE_TAIL_BYTES };
    let mut out: Vec<DiskStep> = Vec::new();
    if exists {
        out.push(DiskStep::RemoveOld { path: path.to_owned() });
    }
    out.push(DiskStep::RemoveMarker { path: format_marker(host_dir) });
    out.push(
        DiskStep::Fsutil { action: "createnew".to_owned(), args: createnew_args(path, size_bytes) },
    );
    out.push(
        DiskStep::Fsutil {
            action: "setvaliddata".to_owned(),
            args: setvaliddata_args(path, size_bytes),
        },
    );
    out.push(DiskStep::Open { path: path.to_owned() });
    let ghost first = disk_deeds(out@);
    assert(first =~= (if exists {
        seq![DiskDeed::RemoveOld(path@)]
    } else {
        Seq::empty()
    }) + seq![
        DiskDeed::RemoveMarker(host_path(host_dir@, FORMAT_MARKER_FILENAME@)),
        DiskDeed::Fsutil("createnew"@, fsutil_args("createnew"@, path@, size_bytes)),
        DiskDeed::Fsutil("setvaliddata"@, fsutil_args("setvaliddata"@, path@, size_bytes)),
        DiskDeed::Open(path@),
    ]);
    push_wipes(&mut out, 0, head, true);
    let ghost second = disk_deeds(out@);
    if tail > 0 {
        out.push(DiskStep::Seek { offset: size_bytes - tail });
    }
    assert(disk_deeds(out@) =~= second + (if tail_len(size_bytes) > 0 {
        seq![DiskDeed::Seek(size_bytes - tail_len(size_bytes))]
    } else {
        Seq::empty()
    }));
    push_wipes(&mut out, size_bytes - tail, tail, false);
    let ghost third = disk_deeds(out@);
    out.push(DiskStep::Sync);
    assert(disk_deeds(out@) =~= third + seq![DiskDeed::Sync]);
    out
}

/// What is said of a step that failed, before the cause; nothing where it may
/// fail.
pub open spec fn disk_step_failure(d: DiskDeed) -> Option<Seq<char>> {
    match d {
        DiskDeed::RemoveOld(_) => Some("existing root.disk removal failed: "@),
        DiskDeed::RemoveMarker(_) => None,
        DiskDeed::Fsutil(action, _) => Some("fsutil "@ + action + " spawn failed: "@),
        DiskDeed::Open(_) => Some("root.disk open failed: "@),
        DiskDeed::Seek(_) => Some("root.disk seek failed: "@),
        DiskDeed::Wipe(_, true) => Some("root.disk head wipe failed: "@),
        DiskDeed::Wipe(_, false) => Some("root.disk tail wipe failed: "@),
        DiskDeed::Sync => Some("root.disk sync failed: "@),
    }
}

/// The error for a step that failed; none where it may fail.
pub fn disk_step_error(step: &DiskStep, cause: &str) -> (r: Option<InstallerError>)
    ensures
        match disk_step_failure(step@) {
            Some(m) => r is Some && r->Some_0@ == (ErrorKind::Io, m + cause@),
            None => r is None,
        },
{
    let m: String = match step {
        DiskStep::RemoveOld { .. } => "existing root.disk removal failed: ".to_owned(),
        DiskStep::RemoveMarker { .. } => {
            return None;
        },
        DiskStep::Fsutil { action, .. } => "fsutil ".to_owned().concat(action.as_str()).concat(
            " spawn failed: ",
        ),
        DiskStep::Open { .. } => "root.disk open failed: ".to_owned(),
        DiskStep::Seek { .. } => "root.disk seek failed: ".to_owned(),
        DiskStep::Wipe { at_head, .. } => if *at_head {
            "root.disk head wipe failed: ".to_owned()
        } else {
            "root.disk tail wipe failed: ".to_owned()
        },
        DiskStep::Sync => "root.disk sync failed: ".to_owned(),
    };
    Some(InstallerError::Io(m.concat(cause)))
}

// ---------------------------------------------------------------------------
// The boot files
// ---------------------------------------------------------------------------

/// A file that is copied to the host volume.
pub struct BootCopy {
    pub what: String,
    pub src: String,
    pub dest: String,
}

/// A copy by its texts.
pub open spec fn copy_of(c: BootCopy) -> (Seq<char>, Seq<char>, Seq<char>) {
    (c.what@, c.src@, c.dest@)
}

/// The copies that put the kernel, the initrd and the overlay on the host
/// volume, in order.
pub fn place_boot_payload_on_host(
    layout: &HostImageLayout,
    kernel_src: &str,
    initrd_src: &str,
    overlay_src: &str,
) -> (r: Vec<BootCopy>)
    ensures
        r@.map_values(|c: BootCopy| copy_of(c)) == seq![
            ("kernel"@, kernel_src@, layout.host_kernel@),
            ("initrd"@, initrd_src@, layout.host_initrd@),
            ("overlay"@, overlay_src@, layout.host_overlay@),
        ],
{
    let r: Vec<BootCopy> = vec![
        BootCopy {
            what: "kernel".to_owned(),
            src: kernel_src.to_owned(),
            dest: layout.host_kernel.clone(),
        },
        BootCopy {
            what: "initrd".to_owned(),
            src: initrd_src.to_owned(),
            dest: layout.host_initrd.clone(),
        },
        BootCopy {
            what: "overlay".to_owned(),
            src: overlay_src.to_owned(),
            dest: layout.host_overlay.clone(),
        },
    ];
    assert(r@.map_values(|c: BootCopy| copy_of(c)) =~= seq![
        ("kernel"@, kernel_src@, layout.host_kernel@),
        ("initrd"@, initrd_src@, layout.host_initrd@),
        ("overlay"@, overlay_src@, layout.host_overlay@),
    ]);
    r
}

/// The error for a copy that failed.
pub fn boot_copy_error(c: &BootCopy, cause: &str) -> (r: InstallerError)
    ensures
        r@ == (
            ErrorKind::Io,
            c.what@ + " copy to host failed ("@ + c.src@ + " -> "@ + c.dest@ + "): "@ + cause@,
        ),
{
    InstallerError::Io(
        c.what.clone().concat(" copy to host failed (").concat(c.src.as_str()).concat(
            " -> ",
        ).concat(c.dest.as_str()).concat("): ").concat(cause),
    )
}

/// How many bytes of the squashfs are copied at a time.
pub const COPY_CHUNK: usize = 16 * 1024 * 1024;

/// The host path of the squashfs on the mounted image, to copy it from.
pub fn copy_squashfs_from_iso(iso_drive_letter: &str, squashfs_rel: &str) -> (r: String)
    ensures
        r@ == on_drive(trim_end_char(iso_drive_letter@, ':'), squashfs_rel@),
{
    crate::iso_ops::squashfs_host_path(iso_drive_letter, squashfs_rel)
}

/// The squashfs is copied on after `read` bytes were read and written, where
/// `done` bytes were copied before: how many are copied now, and what the caller
/// is told of it, the copied bytes and the total. Where nothing was read the
/// copy is complete, and nothing is told.
pub fn copy_step(done: u64, read: usize, total: u64) -> (r: (u64, Option<(u64, u64)>))
    requires
        done + read <= u64::MAX,
    ensures
        r.0 == done + read,
        r.1 == (if read == 0 {
            None
        } else {
            Some(((done + read) as u64, total))
        }),
{
    if read == 0 {
        return (done, None);
    }
    let now: u64 = done + read as u64;
    (now, Some((now, total)))
}

/// How many bytes are copied by reads of these sizes, of which an empty one is
/// the last.
pub open spec fn copied_by(reads: Seq<usize>) -> nat
    decreases reads.len(),
{
    if reads.len() == 0 || reads[0] == 0 {
        0
    } else {
        reads[0] as nat + copied_by(reads.skip(1))
    }
}

/// What the caller is told of a copy by reads of these sizes, where `done`
/// bytes were copied before.
pub open spec fn copy_told(done: nat, reads: Seq<usize>, total: u64) -> Seq<(nat, u64)>
    decreases reads.len(),
{
    if reads.len() == 0 || reads[0] == 0 {
        Seq::empty()
    } else {
        seq![(done + reads[0] as nat, total)] + copy_told(
            done + reads[0] as nat,
            reads.skip(1),
            total,
        )
    }
}

/// What the caller is told last of a copy is all that was copied, and what it
/// is told rises all the time.
pub proof fn copy_is_told_to_its_end(done: nat, reads: Seq<usize>, total: u64)
    ensures
        copied_by(reads) > 0 <==> copy_told(done, reads, total).len() > 0,
        copied_by(reads) > 0 ==> copy_told(done, reads, total).last() == (
            done + copied_by(reads),
            total,
        ),
        forall|i: int|
            0 <= i < copy_told(done, reads, total).len() ==> done < (#[trigger] copy_told(
                done,
                reads,
                total,
            )[i]).0,
        forall|i: int, j: int|
            0 <= i < j < copy_told(done, reads, total).len() ==> (#[trigger] copy_told(
                done,
                reads,
                total,
            )[i]).0 < (#[trigger] copy_told(done, reads, total)[j]).0,
    decreases reads.len(),
{
    if reads.len() > 0 && reads[0] != 0 {
        let now = done + reads[0] as nat;
        let rest = copy_told(now, reads.skip(1), total);
        let all = copy_told(done, reads, total);
        copy_is_told_to_its_end(now, reads.skip(1), total);
        assert(all =~= seq![(now, total)] + rest);
        if copied_by(reads.skip(1)) > 0 {
            assert(all.last() == rest.last());
        } else {
            assert(rest.len() == 0);
        }
        assert forall|i: int| 0 <= i < all.len() implies done < (#[trigger] all[i]).0 by {
            if i > 0 {
                assert(all[i] == rest[i - 1]);
            }
        }
        assert forall|i: int, j: int| 0 <= i < j < all.len() implies (#[trigger] all[i]).0 < (
        #[trigger] all[j]).0 by {
            assert(all[j] == rest[j - 1]);
            if i > 0 {
                assert(all[i] == rest[i - 1]);
            }
        }
    }
}

/// The size of the squashfs at `src`, or the error for one that cannot be read.
pub fn read_squashfs_size(src: &str, len: Result<u64, String>) -> (r: Result<u64, InstallerError>)
    ensures
        match len {
            Ok(n) => r == Ok::<u64, InstallerError>(n),
            Err(e) => r is Err && r->Err_0@ == (
                ErrorKind::Io,
                "squashfs stat failed ("@ + src@ + "): "@ + e@,
            ),
        },
{
    match len {
        Ok(n) => Ok(n),
        Err(e) => Err(
            InstallerError::Io(
                "squashfs stat failed (".to_owned().concat(src).concat("): ").concat(e.as_str()),
            ),
        ),
    }
}

// ---------------------------------------------------------------------------
// The volume serial
// ---------------------------------------------------------------------------

/// The script that asks for the serial number of a volume.
pub fn volume_serial_script(drive_letter: &str) -> (r: String)
    ensures
        r@ == "(Get-CimInstance -ClassName Win32_LogicalDisk -Filter \"DeviceID='"@ + trim_end_char(
            drive_letter@,
            ':',
        ) + ":'\" -ErrorAction Stop).VolumeSerialNumber"@,
{
    let letter = strip_end(drive_letter, ':');
    "(Get-CimInstance -ClassName Win32_LogicalDisk -Filter \"DeviceID='".to_owned().concat(
        letter.as_str(),
    ).concat(":'\" -ErrorAction Stop).VolumeSerialNumber")
}

/// The serial number of a volume, from what the script answered: its
/// hexadecimal digits in capital letters.
pub fn get_ntfs_volume_serial(drive_letter: &str, reply: Result<String, InstallerError>) -> (r:
    Result<String, InstallerError>)
    ensures
        match reply {
            Ok(raw) => if hex_digits_upper(trimmed(raw@)).len() > 0 {
                r is Ok && r->Ok_0@ == hex_digits_upper(trimmed(raw@))
            } else {
                r is Err && r->Err_0@ == (
                    ErrorKind::DiskOperation,
                    "NTFS volume serial query failed for "@ + trim_end_char(drive_letter@, ':')
                        + ":"@,
                )
            },
            Err(e) => r == Err::<String, InstallerError>(e),
        },
{
    match reply {
        Ok(raw) => {
            let t = trim(raw.as_str());
            let serial = keep_hex_upper(t.as_str());
            if serial.as_str().is_empty() {
                let letter = strip_end(drive_letter, ':');
                return Err(
                    InstallerError::DiskOperation(
                        "NTFS volume serial query failed for ".to_owned().concat(
                            letter.as_str(),
                        ).concat(":"),
                    ),
                );
            }
            Ok(serial)
        },
        Err(e) => Err(e),
    }
}

// ---------------------------------------------------------------------------
// The provisioning configuration
// ---------------------------------------------------------------------------

/// A value as the configuration holds it: backslashes doubled, and no line ends.
pub open spec fn escaped(s: Seq<char>) -> Seq<char> {
    without_two(replace_char(s, '\\', "\\\\"@), '\n', '\r')
}

/// A value as the configuration holds it.
pub fn escape_conf(s: &str) -> (r: String)
    ensures
        r@ == escaped(s@),
{
    let doubled = replace(s, '\\', "\\\\");
    remove_two(doubled.as_str(), '\n', '\r')
}

/// The settings of an installation, by name, in the order of the file.
pub open spec fn settings(
    layout: HostImageLayout,
    username: Seq<char>,
    password: Seq<char>,
    hostname: Seq<char>,
    locale: Seq<char>,
    timezone: Seq<char>,
    host_serial: Seq<char>,
) -> Seq<Seq<char>> {
    seq![
        "NEXTOS_USERNAME="@ + escaped(username),
        "NEXTOS_PASSWORD="@ + escaped(password),
        "NEXTOS_HOSTNAME="@ + escaped(hostname),
        "NEXTOS_LOCALE="@ + escaped(locale),
        "NEXTOS_TIMEZONE="@ + escaped(timezone),
        "NEXTOS_HOST_SERIAL="@ + escaped(host_serial),
        "NEXTOS_ROOT_DISK_PATH="@ + layout.root_disk_unix_path@,
        "NEXTOS_SQUASHFS_PATH="@ + layout.squashfs_unix_path@,
    ]
}

/// Lines with a line feed behind each.
pub open spec fn as_lines(ls: Seq<Seq<char>>) -> Seq<char>
    decreases ls.len(),
{
    if ls.len() == 0 {
        Seq::empty()
    } else {
        as_lines(ls.drop_last()) + ls.last() + seq!['\n']
    }
}

fn push_line(out: &mut String, name: &str, value: &str)
    ensures
        final(out)@ == old(out)@ + (name@ + value@) + seq!['\n'],
{
    out.append(name);
    out.append(value);
    out.push('\n');
    assert(out@ =~= old(out)@ + (name@ + value@) + seq!['\n']);
}

/// The text of the provisioning configuration, with Unix line ends.
pub fn write_provisioning_config(
    layout: &HostImageLayout,
    username: &str,
    password: &str,
    hostname: &str,
    locale: &str,
    timezone: &str,
    host_serial: &str,
) -> (r: String)
    ensures
        r@ == with_lf(
            as_lines(
                settings(
                    *layout,
                    username@,
                    password@,
                    hostname@,
                    locale@,
                    timezone@,
                    host_serial@,
                ),
            ),
        ),
{
    let ghost all = settings(
        *layout,
        username@,
        password@,
        hostname@,
        locale@,
        timezone@,
        host_serial@,
    );
    let mut body: String = String::new();
    push_line(&mut body, "NEXTOS_USERNAME=", escape_conf(username).as_str());
    push_line(&mut body, "NEXTOS_PASSWORD=", escape_conf(password).as_str());
    push_line(&mut body, "NEXTOS_HOSTNAME=", escape_conf(hostname).as_str());
    push_line(&mut body, "NEXTOS_LOCALE=", escape_conf(locale).as_str());
    push_line(&mut body, "NEXTOS_TIMEZONE=", escape_conf(timezone).as_str());
    push_line(&mut body, "NEXTOS_HOST_SERIAL=", escape_conf(host_serial).as_str());
    push_line(&mut body, "NEXTOS_ROOT_DISK_PATH=", layout.root_disk_unix_path.as_str());
    push_line(&mut body, "NEXTOS_SQUASHFS_PATH=", layout.squashfs_unix_path.as_str());
    proof {
        eight_lines(all);
        assert(body@ == as_lines(all));
    }
    to_lf(body.as_str())
}

/// The text of the provisioning configuration for a password that was hashed:
/// the hash stands in the place of the password. Where hashing failed, its
/// error comes.
pub fn hashed_provisioning_config(
    layout: &HostImageLayout,
    username: &str,
    hashed: Result<HashedPassword, InstallerError>,
    hostname: &str,
    locale: &str,
    timezone: &str,
    host_serial: &str,
) -> (r: Result<String, InstallerError>)
    ensures
        match hashed {
            Ok(h) => r is Ok && is_hash_of(h.password(), h.hash()) && r->Ok_0@ == with_lf(
                as_lines(
                    settings(
                        *layout,
                        username@,
                        h.hash(),
                        hostname@,
                        locale@,
                        timezone@,
                        host_serial@,
                    ),
                ),
            ),
            Err(e) => r == Err::<String, InstallerError>(e),
        },
{
    match hashed {
        Ok(h) => Ok(
            write_provisioning_config(
                layout,
                username,
                h.text(),
                hostname,
                locale,
                timezone,
                host_serial,
            ),
        ),
        Err(e) => Err(e),
    }
}

proof fn eight_lines(all: Seq<Seq<char>>)
    requires
        all.len() == 8,
    ensures
        as_lines(all) == Seq::<char>::empty() + all[0] + seq!['\n'] + all[1] + seq!['\n'] + all[2]
            + seq!['\n'] + all[3] + seq!['\n'] + all[4] + seq!['\n'] + all[5] + seq!['\n'] + all[6]
            + seq!['\n'] + all[7] + seq!['\n'],
{
    reveal_with_fuel(as_lines, 9);
    assert(all.take(8) =~= all);
    assert(all.drop_last() =~= all.take(7));
    assert(all.take(7).drop_last() =~= all.take(6));
    assert(all.take(6).drop_last() =~= all.take(5));
    assert(all.take(5).drop_last() =~= all.take(4));
    assert(all.take(4).drop_last() =~= all.take(3));
    assert(all.take(3).drop_last() =~= all.take(2));
    assert(all.take(2).drop_last() =~= all.take(1));
    assert(all.take(1).drop_last() =~= all.take(0));
}

// ---------------------------------------------------------------------------
// Removal
// ---------------------------------------------------------------------------

/// What is removed from the host volume.
pub enum Removal {
    /// A file.
    File(String),
    /// A directory, if it is empty.
    EmptyDir(String),
    /// A directory with all that is in it.
    Tree(String),
}

/// A removal by its path.
pub enum Removed {
    File(Seq<char>),
    EmptyDir(Seq<char>),
    Tree(Seq<char>),
}

impl View for Removal {
    type V = Removed;

    open spec fn view(&self) -> Removed {
        match *self {
            Removal::File(p) => Removed::File(p@),
            Removal::EmptyDir(p) => Removed::EmptyDir(p@),
            Removal::Tree(p) => Removed::Tree(p@),
        }
    }
}

/// Removals by their views.
pub open spec fn removals_of(v: Seq<Removal>) -> Seq<Removed> {
    v.map_values(|x: Removal| x@)
}

/// The files that an installation puts on the host volume.
pub open spec fn artifact_files(layout: HostImageLayout) -> Seq<Removed> {
    seq![
        Removed::File(layout.root_disk@),
        Removed::File(layout.squashfs@),
        Removed::File(layout.config@),
        Removed::File(layout.host_kernel@),
        Removed::File(layout.host_initrd@),
        Removed::File(layout.host_overlay@),
        Removed::File(host_path(layout.host_dir@, FORMAT_MARKER_FILENAME@)),
    ]
}

/// What an installation that failed leaves on the host volume, to be removed in
/// this order.
pub open spec fn artifacts(layout: HostImageLayout) -> Seq<Removed> {
    artifact_files(layout) + seq![
        Removed::EmptyDir(layout.boot_dir@),
        Removed::EmptyDir(layout.host_dir@),
    ]
}

/// What uninstalling removes from the host volume, in this order: the files of
/// the installation, and the whole directory with whatever else is in it.
pub open spec fn whole_folder(layout: HostImageLayout) -> Seq<Removed> {
    artifact_files(layout) + seq![Removed::Tree(layout.host_dir@)]
}

fn file_removals(layout: &HostImageLayout) -> (r: Vec<Removal>)
    ensures
        removals_of(r@) == artifact_files(*layout),
{
    let marker = format_marker(layout.host_dir.as_str());
    let r: Vec<Removal> = vec![
        Removal::File(layout.root_disk.clone()),
        Removal::File(layout.squashfs.clone()),
        Removal::File(layout.config.clone()),
        Removal::File(layout.host_kernel.clone()),
        Removal::File(layout.host_initrd.clone()),
        Removal::File(layout.host_overlay.clone()),
        Removal::File(marker),
    ];
    assert(removals_of(r@) =~= artifact_files(*layout));
    r
}

/// What to remove from the host volume to undo an installation that failed, in
/// order: its files, and its directories where nothing else is in them. Each
/// removal may fail without harm.
pub fn remove_host_artifacts(layout: &HostImageLayout) -> (r: Vec<Removal>)
    ensures
        removals_of(r@) == artifacts(*layout),
{
    let mut r = file_removals(layout);
    r.push(Removal::EmptyDir(layout.boot_dir.clone()));
    r.push(Removal::EmptyDir(layout.host_dir.clone()));
    assert(removals_of(r@) =~= artifacts(*layout));
    r
}

/// What to remove from the host volume to uninstall, in order: the whole
/// directory of the installation, and its own files before that. Each removal
/// may fail without harm.
pub fn remove_host_folder(layout: &HostImageLayout) -> (r: Vec<Removal>)
    ensures
        removals_of(r@) == whole_folder(*layout),
{
    let mut r = file_removals(layout);
    r.push(Removal::Tree(layout.host_dir.clone()));
    assert(removals_of(r@) =~= whole_folder(*layout));
    r
}

// ---------------------------------------------------------------------------
// Laws
// ---------------------------------------------------------------------------

/// The file `path` stands in the directory `dir` or below it.
pub open spec fn is_inside(path: Seq<char>, dir: Seq<char>) -> bool {
    has_prefix(path, dir + "\\"@)
}

/// The paths of the files on a volume after a removal.
pub open spec fn after_removal(files: Set<Seq<char>>, x: Removed) -> Set<Seq<char>> {
    match x {
        Removed::File(p) => files.remove(p),
        Removed::EmptyDir(_) => files,
        Removed::Tree(d) => files.filter(|p: Seq<char>| !is_inside(p, d)),
    }
}

/// The paths of the files on a volume after some removals.
pub open spec fn after_removals(files: Set<Seq<char>>, xs: Seq<Removed>) -> Set<Seq<char>>
    decreases xs.len(),
{
    if xs.len() == 0 {
        files
    } else {
        after_removal(after_removals(files, xs.drop_last()), xs.last())
    }
}

proof fn file_is_inside(dir: Seq<char>, sub: Seq<char>, name: Seq<char>)
    ensures
        is_inside(host_path(dir, name), dir),
        is_inside(host_path(host_path(dir, sub), name), dir),
{
    let d = dir + "\\"@;
    assert(host_path(dir, name).take(d.len() as int) =~= d);
    assert(host_path(host_path(dir, sub), name).take(d.len() as int) =~= d);
}

proof fn outside_files_stay(files: Set<Seq<char>>, xs: Seq<Removed>, dir: Seq<char>)
    requires
        forall|i: int|
            0 <= i < xs.len() ==> (#[trigger] xs[i] matches Removed::File(p) ==> is_inside(p, dir))
                && (xs[i] matches Removed::Tree(d) ==> d == dir),
    ensures
        forall|p: Seq<char>|
            !is_inside(p, dir) ==> (#[trigger] after_removals(files, xs).contains(p)
                <==> files.contains(p)),
    decreases xs.len(),
{
    if xs.len() > 0 {
        let front = xs.drop_last();
        assert forall|i: int| 0 <= i < front.len() implies (#[trigger] front[i] matches Removed::File(
            p,
        ) ==> is_inside(p, dir)) && (front[i] matches Removed::Tree(d) ==> d == dir) by {
            assert(front[i] == xs[i]);
        }
        outside_files_stay(files, front, dir);
        assert(xs[xs.len() - 1] == xs.last());
        assert forall|p: Seq<char>| !is_inside(p, dir) implies (#[trigger] after_removals(
            files,
            xs,
        ).contains(p) <==> files.contains(p)) by {
            assert(after_removals(files, front).contains(p) <==> files.contains(p));
        }
    }
}

/// Uninstalling leaves no file in the directory of the installation, whatever
/// was put there, and no file outside it is touched.
pub proof fn uninstalling_empties_the_folder(
    files: Set<Seq<char>>,
    layout: HostImageLayout,
    letter: Seq<char>,
)
    requires
        is_layout(layout, letter),
    ensures
        forall|p: Seq<char>| #[trigger]
            after_removals(files, whole_folder(layout)).contains(p) <==> files.contains(p)
                && !is_inside(p, host_dir_of(letter)),
{
    let xs = whole_folder(layout);
    let dir = host_dir_of(letter);
    let boot = HOST_BOOT_DIR_NAME@;
    file_is_inside(dir, boot, ROOT_DISK_FILENAME@);
    file_is_inside(dir, boot, SQUASHFS_FILENAME@);
    file_is_inside(dir, boot, PROVISIONING_FILENAME@);
    file_is_inside(dir, boot, HOST_KERNEL_FILENAME@);
    file_is_inside(dir, boot, HOST_INITRD_FILENAME@);
    file_is_inside(dir, boot, HOST_OVERLAY_FILENAME@);
    file_is_inside(dir, boot, FORMAT_MARKER_FILENAME@);
    outside_files_stay(files, xs, dir);
    assert(xs.last() == Removed::Tree(dir));
    assert forall|p: Seq<char>| #[trigger]
        after_removals(files, xs).contains(p) implies files.contains(p) && !is_inside(p, dir) by {
        assert(!is_inside(p, dir));
    }
}

/// One of the writes reaches the byte at `b`.
pub open spec fn wipes(plan: Seq<(int, int)>, b: int) -> bool {
    exists|i: int| 0 <= i < plan.len() && (#[trigger] plan[i]).0 <= b < plan[i].0 + plan[i].1
}

proof fn chunks_cover(start: int, len: int)
    requires
        0 <= len,
    ensures
        forall|b: int| #[trigger] wipes(wipe_chunks(start, len), b) <==> start <= b < start + len,
        forall|i: int|
            0 <= i < wipe_chunks(start, len).len() ==> start <= (#[trigger] wipe_chunks(
                start,
                len,
            )[i]).0 && 0 < wipe_chunks(start, len)[i].1 <= WIPE_CHUNK && wipe_chunks(
                start,
                len,
            )[i].0 + wipe_chunks(start, len)[i].1 <= start + len,
    decreases len,
{
    let plan = wipe_chunks(start, len);
    if len <= 0 {
    } else if len <= WIPE_CHUNK {
        assert forall|b: int| #[trigger] wipes(plan, b) <==> start <= b < start + len by {
            assert(plan[0] == (start, len));
        }
    } else {
        let rest = wipe_chunks(start + WIPE_CHUNK, len - WIPE_CHUNK);
        chunks_cover(start + WIPE_CHUNK, len - WIPE_CHUNK);
        assert forall|b: int| #[trigger] wipes(plan, b) <==> start <= b < start + len by {
            assert(plan[0] == (start, WIPE_CHUNK as int));
            if wipes(plan, b) {
                let i = choose|i: int|
                    0 <= i < plan.len() && (#[trigger] plan[i]).0 <= b < plan[i].0 + plan[i].1;
                if i > 0 {
                    assert(rest[i - 1] == plan[i]);
                    assert(wipes(rest, b));
                }
            }
            if start + WIPE_CHUNK <= b < start + len {
                assert(wipes(rest, b));
                let i = choose|i: int|
                    0 <= i < rest.len() && (#[trigger] rest[i]).0 <= b < rest[i].0 + rest[i].1;
                assert(plan[i + 1] == rest[i]);
            }
        }
        assert forall|i: int| 0 <= i < plan.len() implies start <= (#[trigger] plan[i]).0 && 0
            < plan[i].1 <= WIPE_CHUNK && plan[i].0 + plan[i].1 <= start + len by {
            if i > 0 {
                assert(plan[i] == rest[i - 1]);
            }
        }
    }
}

/// A new root disk is wiped from its first byte on for eight mebibytes, and
/// for four mebibytes up to its last byte, as far as it is that long, and
/// nowhere else. No write leaves the disk, and none is longer than a chunk.
pub proof fn both_ends_are_wiped(size: u64)
    ensures
        forall|b: int|
            #[trigger] wipes(wipe_plan(size), b) <==> 0 <= b < size && (b < 8388608 || size - 4194304
                <= b),
        forall|i: int|
            0 <= i < wipe_plan(size).len() ==> 0 <= (#[trigger] wipe_plan(size)[i]).0 && wipe_plan(
                size,
            )[i].0 + wipe_plan(size)[i].1 <= size && 0 < wipe_plan(size)[i].1 <= 1048576,
{
    let a = wipe_chunks(0, head_len(size));
    let b0 = wipe_chunks(size - tail_len(size), tail_len(size));
    let plan = wipe_plan(size);
    chunks_cover(0, head_len(size));
    chunks_cover(size - tail_len(size), tail_len(size));
    assert forall|b: int| #[trigger] wipes(plan, b) <==> 0 <= b < size && (b < WIPE_HEAD_BYTES
        || size - WIPE_TAIL_BYTES <= b) by {
        if wipes(plan, b) {
            let i = choose|i: int|
                0 <= i < plan.len() && (#[trigger] plan[i]).0 <= b < plan[i].0 + plan[i].1;
            if i < a.len() {
                assert(a[i] == plan[i]);
                assert(wipes(a, b));
            } else {
                assert(b0[i - a.len()] == plan[i]);
                assert(wipes(b0, b));
            }
        }
        if 0 <= b < head_len(size) {
            assert(wipes(a, b));
            let i = choose|i: int| 0 <= i < a.len() && (#[trigger] a[i]).0 <= b < a[i].0 + a[i].1;
            assert(plan[i] == a[i]);
        } else if size - tail_len(size) <= b < size {
            assert(wipes(b0, b));
            let i = choose|i: int|
                0 <= i < b0.len() && (#[trigger] b0[i]).0 <= b < b0[i].0 + b0[i].1;
            assert(plan[i + a.len()] == b0[i]);
        }
    }
    assert forall|i: int| 0 <= i < plan.len() implies 0 <= (#[trigger] plan[i]).0 && plan[i].0
        + plan[i].1 <= size && 0 < plan[i].1 <= WIPE_CHUNK by {
        if i < a.len() {
            assert(plan[i] == a[i]);
        } else {
            assert(plan[i] == b0[i - a.len()]);
        }
    }
}

/// The bytes that steps write, by offset and length, where the file stands at
/// `pos` before them.
pub open spec fn written_by(ds: Seq<DiskDeed>, pos: int) -> Seq<(int, int)>
    decreases ds.len(),
{
    if ds.len() == 0 {
        Seq::empty()
    } else {
        match ds[0] {
            DiskDeed::Open(_) => written_by(ds.skip(1), 0),
            DiskDeed::Seek(at) => written_by(ds.skip(1), at),
            DiskDeed::Wipe(n, _) => seq![(pos, n)] + written_by(ds.skip(1), pos + n),
            _ => written_by(ds.skip(1), pos),
        }
    }
}

proof fn chunks_are_written(start: int, len: int, at_head: bool, rest: Seq<DiskDeed>)
    requires
        0 <= len,
    ensures
        written_by(wipe_deeds(wipe_chunks(start, len), at_head) + rest, start) == wipe_chunks(
            start,
            len,
        ) + written_by(rest, start + len),
    decreases len,
{
    let ws = wipe_chunks(start, len);
    let ds = wipe_deeds(ws, at_head) + rest;
    if len <= 0 {
        assert(ds =~= rest);
        assert(ws + written_by(rest, start + len) =~= written_by(rest, start));
    } else {
        let n: int = if len <= WIPE_CHUNK {
            len
        } else {
            WIPE_CHUNK as int
        };
        let tail = wipe_chunks(start + n, len - n);
        assert(ws =~= seq![(start, n)] + tail);
        assert(ds[0] == DiskDeed::Wipe(n, at_head));
        assert(ds.skip(1) =~= wipe_deeds(tail, at_head) + rest);
        chunks_are_written(start + n, len - n, at_head, rest);
        assert(seq![(start, n)] + (tail + written_by(rest, start + len)) =~= ws + written_by(
            rest,
            start + len,
        ));
    }
}

proof fn quiet_steps_write_nothing(ds: Seq<DiskDeed>, rest: Seq<DiskDeed>, pos: int)
    requires
        forall|i: int|
            0 <= i < ds.len() ==> (#[trigger] ds[i]) is RemoveOld || ds[i] is RemoveMarker
                || ds[i] is Fsutil,
    ensures
        written_by(ds + rest, pos) == written_by(rest, pos),
    decreases ds.len(),
{
    if ds.len() == 0 {
        assert(ds + rest =~= rest);
    } else {
        assert((ds + rest)[0] == ds[0]);
        assert((ds + rest).skip(1) =~= ds.skip(1) + rest);
        assert forall|i: int| 0 <= i < ds.skip(1).len() implies (#[trigger] ds.skip(1)[i]) is RemoveOld
            || ds.skip(1)[i] is RemoveMarker || ds.skip(1)[i] is Fsutil by {
            assert(ds.skip(1)[i] == ds[i + 1]);
        }
        quiet_steps_write_nothing(ds.skip(1), rest, pos);
    }
}

proof fn first_step_moves(d: DiskDeed, rest: Seq<DiskDeed>, pos: int)
    ensures
        d is Open ==> written_by(seq![d] + rest, pos) == written_by(rest, 0),
        d matches DiskDeed::Seek(at) ==> written_by(seq![d] + rest, pos) == written_by(rest, at),
        d is Sync ==> written_by(seq![d] + rest, pos) == written_by(rest, pos),
{
    assert((seq![d] + rest).skip(1) =~= rest);
}

proof fn tail_is_written(size: u64)
    ensures
        ({
            let k = if tail_len(size) > 0 {
                seq![DiskDeed::Seek(size - tail_len(size))]
            } else {
                Seq::empty()
            };
            let t = wipe_deeds(wipe_chunks(size - tail_len(size), tail_len(size)), false);
            written_by(k + (t + seq![DiskDeed::Sync]), head_len(size)) == wipe_chunks(
                size - tail_len(size),
                tail_len(size),
            )
        }),
{
    let at = size - tail_len(size);
    let b = wipe_chunks(at, tail_len(size));
    let t = wipe_deeds(b, false);
    let end = seq![DiskDeed::Sync];
    let none = Seq::<DiskDeed>::empty();
    assert(end + none =~= end);
    first_step_moves(DiskDeed::Sync, none, size as int);
    first_step_moves(DiskDeed::Sync, none, head_len(size));
    if tail_len(size) > 0 {
        first_step_moves(DiskDeed::Seek(at), t + end, head_len(size));
        chunks_are_written(at, tail_len(size), false, end);
        assert(b + Seq::empty() =~= b);
    } else {
        assert(none + (t + end) =~= end);
    }
}

/// The steps that make a root disk write exactly what is to be wiped.
pub proof fn root_disk_steps_wipe_both_ends(
    path: Seq<char>,
    host_dir: Seq<char>,
    size: u64,
    exists: bool,
)
    ensures
        written_by(root_disk_deeds(path, host_dir, size, exists), 0) == wipe_plan(size),
{
    let ds = root_disk_deeds(path, host_dir, size, exists);
    let quiet = (if exists {
        seq![DiskDeed::RemoveOld(path)]
    } else {
        Seq::empty()
    }) + seq![
        DiskDeed::RemoveMarker(host_path(host_dir, FORMAT_MARKER_FILENAME@)),
        DiskDeed::Fsutil("createnew"@, fsutil_args("createnew"@, path, size)),
        DiskDeed::Fsutil("setvaliddata"@, fsutil_args("setvaliddata"@, path, size)),
    ];
    let h = wipe_deeds(wipe_chunks(0, head_len(size)), true);
    let k = if tail_len(size) > 0 {
        seq![DiskDeed::Seek(size - tail_len(size))]
    } else {
        Seq::empty()
    };
    let t = wipe_deeds(wipe_chunks(size - tail_len(size), tail_len(size)), false);
    let last = k + (t + seq![DiskDeed::Sync]);
    let open = DiskDeed::Open(path);
    assert(ds =~= quiet + (seq![open] + (h + last)));
    quiet_steps_write_nothing(quiet, seq![open] + (h + last), 0);
    first_step_moves(open, h + last, 0);
    chunks_are_written(0, head_len(size), true, last);
    tail_is_written(size);
}

/// No line end is in `s`.
pub open spec fn is_one_line(s: Seq<char>) -> bool {
    !s.contains('\n') && !s.contains('\r')
}

proof fn escaped_is_one_line(s: Seq<char>)
    ensures
        is_one_line(escaped(s)),
{
    let d = replace_char(s, '\\', "\\\\"@);
    broadcast use vstd::seq_lib::group_filter_ensures;
    let e = escaped(s);
    if e.contains('\n') {
        let i = choose|i: int| 0 <= i < e.len() && e[i] == '\n';
        assert(neither('\n', '\r')(e[i]));
    }
    if e.contains('\r') {
        let i = choose|i: int| 0 <= i < e.len() && e[i] == '\r';
        assert(neither('\n', '\r')(e[i]));
    }
}

proof fn joined_is_one_line(a: Seq<char>, b: Seq<char>)
    requires
        is_one_line(a),
        is_one_line(b),
    ensures
        is_one_line(a + b),
{
    let s = a + b;
    assert forall|i: int| 0 <= i < s.len() implies s[i] != '\n' && s[i] != '\r' by {
        if i < a.len() {
            assert(a.contains(a[i]));
        } else {
            assert(b.contains(b[i - a.len()]));
        }
    }
}

proof fn lines_read_back(ls: Seq<Seq<char>>, rest: Seq<char>)
    requires
        forall|i: int| 0 <= i < ls.len() ==> is_one_line(#[trigger] ls[i]),
    ensures
        lines_of(as_lines(ls) + rest) == ls + lines_of(rest),
    decreases ls.len(),
{
    if ls.len() == 0 {
        assert(as_lines(ls) + rest =~= rest);
        assert(ls + lines_of(rest) =~= lines_of(rest));
    } else {
        let front = ls.drop_last();
        assert forall|i: int| 0 <= i < front.len() implies is_one_line(#[trigger] front[i]) by {
            assert(front[i] == ls[i]);
        }
        let tail = ls.last() + seq!['\n'] + rest;
        assert(as_lines(ls) + rest =~= as_lines(front) + tail);
        lines_read_back(front, tail);
        assert(is_one_line(ls[ls.len() - 1]));
        lines_of_line(ls.last(), rest);
        assert(front + (seq![ls.last()] + lines_of(rest)) =~= ls + lines_of(rest));
    }
}

proof fn lines_have_no_cr(ls: Seq<Seq<char>>)
    requires
        forall|i: int| 0 <= i < ls.len() ==> is_one_line(#[trigger] ls[i]),
    ensures
        !as_lines(ls).contains('\r'),
    decreases ls.len(),
{
    if ls.len() > 0 {
        let front = ls.drop_last();
        assert forall|i: int| 0 <= i < front.len() implies is_one_line(#[trigger] front[i]) by {
            assert(front[i] == ls[i]);
        }
        lines_have_no_cr(front);
        let s = as_lines(ls);
        assert(is_one_line(ls[ls.len() - 1]));
        assert forall|i: int| 0 <= i < s.len() implies s[i] != '\r' by {
            if i < as_lines(front).len() {
                assert(as_lines(front).contains(as_lines(front)[i]));
            } else if i < as_lines(front).len() + ls.last().len() {
                assert(ls.last().contains(ls.last()[i - as_lines(front).len()]));
            }
        }
    }
}

/// The configuration holds one line for each of eight settings, whatever line
/// ends the values had: no value reaches into another line.
pub proof fn config_has_one_line_per_setting(
    layout: HostImageLayout,
    letter: Seq<char>,
    username: Seq<char>,
    password: Seq<char>,
    hostname: Seq<char>,
    locale: Seq<char>,
    timezone: Seq<char>,
    host_serial: Seq<char>,
)
    requires
        is_layout(layout, letter),
    ensures
        ({
            let all = settings(
                layout,
                username,
                password,
                hostname,
                locale,
                timezone,
                host_serial,
            );
            lines_of(with_lf(as_lines(all))) == all
        }),
        settings(layout, username, password, hostname, locale, timezone, host_serial) == seq![
            "NEXTOS_USERNAME="@ + escaped(username),
            "NEXTOS_PASSWORD="@ + escaped(password),
            "NEXTOS_HOSTNAME="@ + escaped(hostname),
            "NEXTOS_LOCALE="@ + escaped(locale),
            "NEXTOS_TIMEZONE="@ + escaped(timezone),
            "NEXTOS_HOST_SERIAL="@ + escaped(host_serial),
            "NEXTOS_ROOT_DISK_PATH=/NextOS/root.disk"@,
            "NEXTOS_SQUASHFS_PATH=/NextOS/filesystem.squashfs"@,
        ],
{
    let all = settings(layout, username, password, hostname, locale, timezone, host_serial);
    reveal_strlit("NEXTOS_USERNAME=");
    reveal_strlit("NEXTOS_PASSWORD=");
    reveal_strlit("NEXTOS_HOSTNAME=");
    reveal_strlit("NEXTOS_LOCALE=");
    reveal_strlit("NEXTOS_TIMEZONE=");
    reveal_strlit("NEXTOS_HOST_SERIAL=");
    reveal_strlit("NEXTOS_ROOT_DISK_PATH=");
    reveal_strlit("NEXTOS_SQUASHFS_PATH=");
    reveal_strlit("/");
    reveal_strlit("NextOS");
    reveal_strlit("root.disk");
    reveal_strlit("filesystem.squashfs");
    reveal_strlit("NEXTOS_ROOT_DISK_PATH=/NextOS/root.disk");
    reveal_strlit("NEXTOS_SQUASHFS_PATH=/NextOS/filesystem.squashfs");
    assert("NEXTOS_ROOT_DISK_PATH="@ + layout.root_disk_unix_path@
        =~= "NEXTOS_ROOT_DISK_PATH=/NextOS/root.disk"@);
    assert("NEXTOS_SQUASHFS_PATH="@ + layout.squashfs_unix_path@
        =~= "NEXTOS_SQUASHFS_PATH=/NextOS/filesystem.squashfs"@);
    escaped_is_one_line(username);
    escaped_is_one_line(password);
    escaped_is_one_line(hostname);
    escaped_is_one_line(locale);
    escaped_is_one_line(timezone);
    escaped_is_one_line(host_serial);
    joined_is_one_line("/"@, NEXTOS_HOST_DIR_NAME@);
    joined_is_one_line("/"@ + NEXTOS_HOST_DIR_NAME@, "/"@);
    joined_is_one_line("/"@ + NEXTOS_HOST_DIR_NAME@ + "/"@, ROOT_DISK_FILENAME@);
    joined_is_one_line("/"@ + NEXTOS_HOST_DIR_NAME@ + "/"@, SQUASHFS_FILENAME@);
    joined_is_one_line("NEXTOS_USERNAME="@, escaped(username));
    joined_is_one_line("NEXTOS_PASSWORD="@, escaped(password));
    joined_is_one_line("NEXTOS_HOSTNAME="@, escaped(hostname));
    joined_is_one_line("NEXTOS_LOCALE="@, escaped(locale));
    joined_is_one_line("NEXTOS_TIMEZONE="@, escaped(timezone));
    joined_is_one_line("NEXTOS_HOST_SERIAL="@, escaped(host_serial));
    joined_is_one_line("NEXTOS_ROOT_DISK_PATH="@, layout.root_disk_unix_path@);
    joined_is_one_line("NEXTOS_SQUASHFS_PATH="@, layout.squashfs_unix_path@);
    lines_have_no_cr(all);
    crate::util::to_lf_keeps_unix_text(as_lines(all));
    lines_read_back(all, Seq::empty());
    assert(as_lines(all) + Seq::empty() =~= as_lines(all));
    assert(all + Seq::empty() =~= all);
}

/// An installation fits exactly where the root disk, the root file system and
/// 2147483648 bytes more are free, or where every byte is free that can be
/// counted; so more free space never makes it fit worse, and smaller files never
/// either.
pub proof fn installation_fits_with_room_to_spare(
    free: u64,
    root: u64,
    squashfs: u64,
    more: u64,
    less_root: u64,
    less_squashfs: u64,
)
    ensures
        free >= required_bytes(root, squashfs) <==> free >= root + squashfs + 2147483648 || free
            == u64::MAX,
        free >= required_bytes(root, squashfs) && free <= more && less_root <= root && less_squashfs
            <= squashfs ==> more >= required_bytes(less_root, less_squashfs),
{
}

/// The paths that the booted system uses for the root disk and the root file
/// system are those of the host, without the drive and with slashes.
pub proof fn unix_paths_name_the_host_files(layout: HostImageLayout, letter: Seq<char>)
    requires
        is_layout(layout, letter),
    ensures
        layout.root_disk@ == letter + ":\\NextOS\\root.disk"@,
        layout.squashfs@ == letter + ":\\NextOS\\filesystem.squashfs"@,
        layout.root_disk_unix_path@ == replace_char(
            layout.root_disk@.skip(letter.len() as int + 1),
            '\\',
            seq!['/'],
        ),
        layout.squashfs_unix_path@ == replace_char(
            layout.squashfs@.skip(letter.len() as int + 1),
            '\\',
            seq!['/'],
        ),
        layout.root_disk_unix_path@ == "/NextOS/root.disk"@,
        layout.squashfs_unix_path@ == "/NextOS/filesystem.squashfs"@,
{
    reveal_strlit(":\\NextOS\\root.disk");
    reveal_strlit(":\\NextOS\\filesystem.squashfs");
    reveal_strlit("/NextOS/root.disk");
    reveal_strlit("/NextOS/filesystem.squashfs");
    reveal_strlit("NextOS");
    reveal_strlit("root.disk");
    reveal_strlit("filesystem.squashfs");
    reveal_strlit(":\\");
    reveal_strlit("\\");
    reveal_strlit("/");
    assert(layout.root_disk@ =~= letter + ":\\NextOS\\root.disk"@);
    assert(layout.squashfs@ =~= letter + ":\\NextOS\\filesystem.squashfs"@);
    assert(layout.root_disk_unix_path@ =~= "/NextOS/root.disk"@);
    assert(layout.squashfs_unix_path@ =~= "/NextOS/filesystem.squashfs"@);
    let r = layout.root_disk@.skip(letter.len() as int + 1);
    let s = layout.squashfs@.skip(letter.len() as int + 1);
    replacing_by_one_character(r, '\\', '/');
    replacing_by_one_character(s, '\\', '/');
    assert(layout.root_disk_unix_path@ =~= replace_char(r, '\\', seq!['/']));
    assert(layout.squashfs_unix_path@ =~= replace_char(s, '\\', seq!['/']));
}

/// A value in the configuration is that of its characters one by one: a
/// backslash is doubled, a line feed and a carriage return go, and any other
/// character stays.
pub proof fn values_are_escaped_one_by_one(a: Seq<char>, b: Seq<char>, c: char)
    ensures
        escaped(a + b) == escaped(a) + escaped(b),
        escaped(Seq::empty()) == Seq::<char>::empty(),
        escaped(seq!['\\']) == seq!['\\', '\\'],
        c == '\n' || c == '\r' ==> escaped(seq![c]) == Seq::<char>::empty(),
        c != '\n' && c != '\r' && c != '\\' ==> escaped(seq![c]) == seq![c],
{
    reveal_strlit("\\\\");
    let two = "\\\\"@;
    let one = seq!['\\'];
    replacing_in_joined_texts(a, b, '\\', two);
    let ra = replace_char(a, '\\', two);
    let rb = replace_char(b, '\\', two);
    characters_go_one_by_one(ra, rb, c, '\n', '\r');
    characters_go_one_by_one(one, one, '\\', '\n', '\r');
    assert(two =~= one + one);
    assert(one + one =~= seq!['\\', '\\']);
}

/// A new root disk is made like this: what was there goes first, the format
/// marker goes in any case, the file is created at its full size and all of it
/// made valid, and only then it is opened; nothing comes behind the last write
/// but that it is made durable.
pub proof fn root_disk_is_made_at_its_full_size(
    path: Seq<char>,
    host_dir: Seq<char>,
    size: u64,
    exists: bool,
)
    ensures
        ({
            let ds = root_disk_deeds(path, host_dir, size, exists);
            let k: int = if exists {
                1
            } else {
                0
            };
            &&& exists ==> ds[0] == DiskDeed::RemoveOld(path)
            &&& ds[k] == DiskDeed::RemoveMarker(host_dir + "\\"@ + ".nextos-formatted"@)
            &&& ds[k + 1] == DiskDeed::Fsutil(
                "createnew"@,
                seq!["file"@, "createnew"@, path, decimal(size as nat)],
            )
            &&& ds[k + 2] == DiskDeed::Fsutil(
                "setvaliddata"@,
                seq!["file"@, "setvaliddata"@, path, decimal(size as nat)],
            )
            &&& ds[k + 3] == DiskDeed::Open(path)
            &&& ds.last() == DiskDeed::Sync
            &&& forall|i: int| 0 <= i < ds.len() && (#[trigger] ds[i]) is RemoveOld ==> exists
        }),
{
    let h = wipe_deeds(wipe_chunks(0, head_len(size)), true);
    let t = wipe_deeds(wipe_chunks(size - tail_len(size), tail_len(size)), false);
    assert(forall|i: int| 0 <= i < h.len() ==> (#[trigger] h[i]) is Wipe);
    assert(forall|i: int| 0 <= i < t.len() ==> (#[trigger] t[i]) is Wipe);
}

/// Of the steps that make a root disk only the removal of the format marker may
/// fail without an error.
pub proof fn only_the_marker_may_stay(d: DiskDeed)
    ensures
        disk_step_failure(d) is None <==> d is RemoveMarker,
{
}

/// After an installation failed, its seven files are gone from the host volume
/// and every other file is as it was.
pub proof fn failed_installation_leaves_no_file(files: Set<Seq<char>>, layout: HostImageLayout)
    ensures
        forall|p: Seq<char>| #[trigger]
            after_removals(files, artifacts(layout)).contains(p) <==> files.contains(p) && p
                != layout.root_disk@ && p != layout.squashfs@ && p != layout.config@ && p
                != layout.host_kernel@ && p != layout.host_initrd@ && p != layout.host_overlay@ && p
                != layout.host_dir@ + "\\"@ + ".nextos-formatted"@,
        artifacts(layout).len() == 9,
        artifacts(layout)[7] == Removed::EmptyDir(layout.boot_dir@),
        artifacts(layout)[8] == Removed::EmptyDir(layout.host_dir@),
{
    let xs = artifacts(layout);
    reveal_with_fuel(after_removals, 10);
    assert(xs.take(9) =~= xs);
    assert(xs.drop_last() =~= xs.take(8));
    assert(xs.take(8).drop_last() =~= xs.take(7));
    assert(xs.take(7).drop_last() =~= xs.take(6));
    assert(xs.take(6).drop_last() =~= xs.take(5));
    assert(xs.take(5).drop_last() =~= xs.take(4));
    assert(xs.take(4).drop_last() =~= xs.take(3));
    assert(xs.take(3).drop_last() =~= xs.take(2));
    assert(xs.take(2).drop_last() =~= xs.take(1));
    assert(xs.take(1).drop_last() =~= xs.take(0));
}

/// What is seen of a step, of a copy and of a removal is what stands in it.
pub proof fn host_steps_are_seen_as_they_are(
    c: BootCopy,
    a: String,
    v: Vec<String>,
    n: u64,
    h: bool,
)
    ensures
        copy_of(c) == (c.what@, c.src@, c.dest@),
        (DiskStep::RemoveOld { path: a })@ == DiskDeed::RemoveOld(a@),
        (DiskStep::RemoveMarker { path: a })@ == DiskDeed::RemoveMarker(a@),
        (DiskStep::Fsutil { action: a, args: v })@ == DiskDeed::Fsutil(a@, texts(v@)),
        (DiskStep::Open { path: a })@ == DiskDeed::Open(a@),
        (DiskStep::Seek { offset: n })@ == DiskDeed::Seek(n as int),
        (DiskStep::Wipe { len: n, at_head: h })@ == DiskDeed::Wipe(n as int, h),
        DiskStep::Sync@ == DiskDeed::Sync,
        Removal::File(a)@ == Removed::File(a@),
        Removal::EmptyDir(a)@ == Removed::EmptyDir(a@),
        Removal::Tree(a)@ == Removed::Tree(a@),
{
}

/// The message for a drive with too little space names the drive, and the free
/// and the needed space in whole units of 1073741824 bytes.
pub proof fn missing_space_is_told_in_gibibytes(
    letter: Seq<char>,
    free: u64,
    required: u64,
    have: nat,
    need: nat,
)
    requires
        have * 1073741824 <= free < (have + 1) * 1073741824,
        need * 1073741824 <= required < (need + 1) * 1073741824,
    ensures
        capacity_failure(letter, free, required as int) == "Insufficient free space on "@ + letter
            + ":\\ — have "@ + decimal(have) + " GB, need "@ + decimal(need)
            + " GB (root.disk + squashfs + 2 GB headroom)."@,
{
}

/// A list of removals is seen item by item, in its order.
pub proof fn removals_are_seen_item_by_item(v: Seq<Removal>, i: int)
    ensures
        removals_of(v).len() == v.len(),
        0 <= i < v.len() ==> removals_of(v)[i] == v[i]@,
{
}

/// A failed step is told by what it was about.
pub proof fn failed_steps_are_told_by_what_they_did(
    path: Seq<char>,
    action: Seq<char>,
    args: Seq<Seq<char>>,
    n: int,
)
    ensures
        disk_step_failure(DiskDeed::RemoveOld(path)) == Some("existing root.disk removal failed: "@),
        disk_step_failure(DiskDeed::Fsutil(action, args)) == Some(
            "fsutil "@ + action + " spawn failed: "@,
        ),
        disk_step_failure(DiskDeed::Open(path)) == Some("root.disk open failed: "@),
        disk_step_failure(DiskDeed::Seek(n)) == Some("root.disk seek failed: "@),
        disk_step_failure(DiskDeed::Wipe(n, true)) == Some("root.disk head wipe failed: "@),
        disk_step_failure(DiskDeed::Wipe(n, false)) == Some("root.disk tail wipe failed: "@),
        disk_step_failure(DiskDeed::Sync) == Some("root.disk sync failed: "@),
{
}

/// The bounds of the root disk in gibibytes, and the pieces in which files are
/// wiped and copied.
pub proof fn sizes_are_these_numbers()
    ensures
        MIN_ROOT_DISK_GB == 10,
        MAX_ROOT_DISK_GB == 100,
        WIPE_CHUNK == 1048576,
        COPY_CHUNK == 16777216,
{
}

} // verus!
