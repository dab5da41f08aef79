//! The installation image: mounting it, finding the kernel and the root file
//! system in it, and looking for NTFS support in its initrd.
use crate::ascii::{ascii_lowercase, is_lower, is_upper, lowercase, lowercased, lowered};
use crate::codec::{gunzip, gunzipped, unzstd, unzstded};
use crate::error::{written_as, ErrorKind, InstallerError};
use crate::i18n::{encoded, message_is_written_piece_by_piece, slice_pairs};
use crate::newc::{records_end, records_end_grows, skip_leading_cpio, zeros};
use crate::text::{
    byte_len, chars_of, contains, ends_with, has_prefix, has_suffix, longer_texts_hold_as_much,
    occurs, occurs_at, replace, replace_char,
    replacing_by_one_character, replacing_in_joined_texts, same, starts_with, strip_end, text_of, texts, trim, trim_end_char, trimmed,
};
use crate::tree::{
    files_under, first_path, first_path_is_first, first_path_of_one, first_path_of_two, join,
    one_entry_is_listed_by_its_kind, or_else, path_in, Entry, Node,
};
use crate::util::{ps_quote, ps_quoted};
use crate::winpath::slashed;
use vstd::prelude::*;
use vstd::slice::{slice_subrange, slice_to_vec};
use vstd::utf8::encode_utf8;

verus! {

/// The kernel and the initrd of an image, by their paths in it.
#[derive(Debug)]
pub struct LinuxKernelInfo {
    pub kernel_path: String,
    pub initrd_path: String,
}

/// What is known of an image before it is installed.
#[derive(Debug)]
pub struct IsoLayoutInfo {
    pub squashfs_compressed_mb: u64,
    pub squashfs_uncompressed_mb: u64,
    pub min_root_disk_gb: u32,
    pub suggested_root_disk_gb: u32,
    pub has_uefi_kernel: bool,
    /// Either the initrd or the root file system ships NTFS support.
    pub has_ntfs_in_initrd: bool,
}

/// The size of an image in whole mebibytes.
pub fn get_iso_size_mb(len: u64) -> (r: u64)
    ensures
        r == len / 0x10_0000,
{
    len / (1024 * 1024)
}

// ---------------------------------------------------------------------------
// Mounting
// ---------------------------------------------------------------------------

/// Whether the image at `iso_path` can be looked at: it exists, and its name
/// ends in `.iso`, whatever the case of its letters.
pub fn check_iso_path(iso_path: &str, exists: bool) -> (r: Result<(), InstallerError>)
    ensures
        !exists ==> r is Err && r->Err_0@ == (
            ErrorKind::InvalidInput,
            encoded("ERR_ISO_NOT_FOUND"@, seq![("path"@, iso_path@)]),
        ),
        exists && !has_suffix(lowercased(iso_path@), ".iso"@) ==> r is Err && r->Err_0@ == (
            ErrorKind::InvalidInput,
            encoded("ERR_NOT_ISO"@, Seq::empty()),
        ),
        exists && has_suffix(lowercased(iso_path@), ".iso"@) ==> r is Ok,
{
    if !exists {
        let params: [(&str, &str); 1] = [("path", iso_path)];
        assert(slice_pairs(params@) =~= seq![("path"@, iso_path@)]);
        return Err(InstallerError::coded(ErrorKind::InvalidInput, "ERR_ISO_NOT_FOUND", &params));
    }
    let lower = lowercase(iso_path);
    if has_iso_ending(lower.as_str()) {
        Ok(())
    } else {
        let none: [(&str, &str); 0] = [];
        assert(slice_pairs(none@) =~= Seq::empty());
        Err(InstallerError::coded(ErrorKind::InvalidInput, "ERR_NOT_ISO", &none))
    }
}

/// Whether a path in small letters ends in `.iso`.
pub fn has_iso_ending(lower: &str) -> (r: bool)
    ensures
        r == has_suffix(lower@, ".iso"@),
{
    ends_with(lower, ".iso")
}

/// What the script that mounts an image begins with, up to its path.
pub const MOUNT_SCRIPT_HEAD: &'static str =
    r#"
        $path = '"#;

/// What the script that mounts an image ends with, from its path on. It asks
/// for the volume again and again, since most are ready soon.
pub const MOUNT_SCRIPT_TAIL: &'static str =
    r#"'
        try {
            $img = Mount-DiskImage -ImagePath $path -PassThru -ErrorAction Stop
        } catch {
            throw ("MOUNT_FAIL:" + $_.Exception.Message)
        }
        $letter = $null
        for ($i = 0; $i -lt 40; $i++) {
            $vol = $img | Get-Volume -ErrorAction SilentlyContinue
            if ($vol -and $vol.DriveLetter) { $letter = $vol.DriveLetter; break }
            Start-Sleep -Milliseconds 250
        }
        if ($letter) { $letter }
        else { throw "MOUNT_FAIL:ISO mounted but no drive letter assigned" }
        "#;

/// The script that mounts the image at `iso_path` and answers with its drive
/// letter.
pub fn mount_script(iso_path: &str) -> (r: String)
    ensures
        r@ == MOUNT_SCRIPT_HEAD@ + ps_quoted(iso_path@) + MOUNT_SCRIPT_TAIL@,
{
    let q = ps_quote(iso_path);
    MOUNT_SCRIPT_HEAD.to_owned().concat(q.as_str()).concat(MOUNT_SCRIPT_TAIL)
}

/// The text of a failed mount says that another program holds the image.
pub open spec fn says_locked(detail: Seq<char>) -> bool {
    let lower = lowered(detail);
    occurs(lower, "being used"@) || occurs(lower, "in use"@) || occurs(lower, "cannot access"@)
        || occurs(lower, "denied"@)
}

/// The message for a mount that failed with the text `detail`.
pub open spec fn mount_failure(detail: Seq<char>) -> Seq<char> {
    encoded(
        if says_locked(detail) {
            "ERR_ISO_MOUNT_LOCKED"@
        } else {
            "ERR_ISO_MOUNT_FAILED"@
        },
        seq![("detail"@, trimmed(detail))],
    )
}

/// The error for a mount that failed with the text `detail`.
pub fn mount_error(detail: &str) -> (r: InstallerError)
    ensures
        r@ == (ErrorKind::IsoExtraction, mount_failure(detail@)),
{
    let lower = ascii_lowercase(detail);
    let l = lower.as_str();
    let hint = if contains(l, "being used") || contains(l, "in use") || contains(
        l,
        "cannot access",
    ) || contains(l, "denied") {
        "ERR_ISO_MOUNT_LOCKED"
    } else {
        "ERR_ISO_MOUNT_FAILED"
    };
    let t = trim(detail);
    let params: [(&str, &str); 1] = [("detail", t.as_str())];
    assert(slice_pairs(params@) =~= seq![("detail"@, trimmed(detail@))]);
    InstallerError::coded(ErrorKind::IsoExtraction, hint, &params)
}

/// `s` is one letter of the Latin alphabet.
pub open spec fn is_letter(s: Seq<char>) -> bool {
    s.len() == 1 && (is_lower(s[0]) || is_upper(s[0]))
}

/// The message for an answer that is no drive letter.
pub open spec fn letter_failure(letter: Seq<char>) -> Seq<char> {
    encoded(
        "ERR_ISO_MOUNT_FAILED"@,
        seq![("detail"@, "invalid drive letter '"@ + letter + "'"@)],
    )
}

proof fn one_byte_is_one_letter(s: Seq<char>)
    ensures
        is_letter(s) <==> encode_utf8(s).len() == 1 && s.len() > 0 && (is_lower(s[0]) || is_upper(
            s[0],
        )),
{
    if s.len() > 0 && (is_lower(s[0]) || is_upper(s[0])) {
        let rest = s.skip(1);
        assert(encode_utf8(s) == vstd::utf8::encode_scalar(s[0] as u32) + encode_utf8(
            s.drop_first(),
        ));
        assert(vstd::utf8::encode_scalar(s[0] as u32).len() == 1);
        if s.len() > 1 {
            nonempty_text_has_bytes(s.drop_first());
        }
    }
}

proof fn nonempty_text_has_bytes(s: Seq<char>)
    requires
        s.len() > 0,
    ensures
        encode_utf8(s).len() > 0,
{
    assert(encode_utf8(s) == vstd::utf8::encode_scalar(s[0] as u32) + encode_utf8(s.drop_first()));
    assert(vstd::utf8::encode_scalar(s[0] as u32).len() > 0);
}

/// The drive letter of a mounted image, from what the mount script answered.
pub fn mounted_drive(reply: Result<String, InstallerError>) -> (r: Result<String, InstallerError>)
    ensures
        match reply {
            Ok(out) => if is_letter(trimmed(out@)) {
                r is Ok && r->Ok_0@ == trimmed(out@)
            } else {
                r is Err && r->Err_0@ == (
                    ErrorKind::IsoExtraction,
                    letter_failure(trimmed(out@)),
                )
            },
            Err(e) => r is Err && exists|t: Seq<char>|
                #[trigger] written_as(e@.1, t) && r->Err_0@ == (
                    ErrorKind::IsoExtraction,
                    mount_failure(t),
                ),
        },
{
    match reply {
        Ok(out) => {
            let letter = trim(out.as_str());
            let v = chars_of(letter.as_str());
            proof {
                one_byte_is_one_letter(letter@);
            }
            if byte_len(letter.as_str()) == 1 && v.len() > 0 && (('a' <= v[0] && v[0] <= 'z') || (
            'A' <= v[0] && v[0] <= 'Z')) {
                Ok(letter)
            } else {
                let detail = "invalid drive letter '".to_owned().concat(letter.as_str()).concat("'");
                let params: [(&str, &str); 1] = [("detail", detail.as_str())];
                assert(slice_pairs(params@) =~= seq![
                    ("detail"@, "invalid drive letter '"@ + letter@ + "'"@),
                ]);
                Err(InstallerError::coded(ErrorKind::IsoExtraction, "ERR_ISO_MOUNT_FAILED", &params))
            }
        },
        Err(e) => {
            let detail = e.to_string();
            Err(mount_error(detail.as_str()))
        },
    }
}

/// The script that unmounts the image at `path`.
pub open spec fn dismount_text(path: Seq<char>) -> Seq<char> {
    "Dismount-DiskImage -ImagePath '"@ + ps_quoted(path) + "' -ErrorAction SilentlyContinue"@
}

/// The script that unmounts the image at `iso_path`.
pub fn unmount_iso(iso_path: &str) -> (r: String)
    ensures
        r@ == dismount_text(iso_path@),
        r@ == "Dismount-DiskImage -ImagePath '"@ + ps_quoted(iso_path@)
            + "' -ErrorAction SilentlyContinue"@,
{
    let q = ps_quote(iso_path);
    "Dismount-DiskImage -ImagePath '".to_owned().concat(q.as_str()).concat(
        "' -ErrorAction SilentlyContinue",
    )
}

// ---------------------------------------------------------------------------
// Validity
// ---------------------------------------------------------------------------

/// Where a volume descriptor may stand.
pub open spec fn descriptor_offsets() -> Seq<u64> {
    seq![0x8001, 0x8801, 0x9001]
}

/// Where to look for a volume descriptor.
pub fn cd001_offsets() -> (r: Vec<u64>)
    ensures
        r@ == descriptor_offsets(),
{
    let r: Vec<u64> = vec![0x8001, 0x8801, 0x9001];
    assert(r@ =~= descriptor_offsets());
    r
}

/// The file begins like a RAR, 7-Zip or ZIP archive.
pub open spec fn begins_like_archive(head: Seq<u8>) -> bool {
    ||| has_prefix(head, seq![0x52u8, 0x61, 0x72, 0x21, 0x1a, 0x07, 0x00])
    ||| has_prefix(head, seq![0x52u8, 0x61, 0x72, 0x21, 0x1a, 0x07, 0x01, 0x00])
    ||| has_prefix(head, seq![0x37u8, 0x7a, 0xbc, 0xaf])
    ||| has_prefix(head, seq![0x50u8, 0x4b, 0x03, 0x04])
}

/// The bytes `CD001`.
pub open spec fn cd001() -> Seq<u8> {
    seq![0x43, 0x44, 0x30, 0x30, 0x31]
}

/// Whether two byte strings are the same.
pub fn equal_bytes(a: &[u8], b: &[u8]) -> (r: bool)
    ensures
        r == (a@ == b@),
{
    if a.len() != b.len() {
        return false;
    }
    let mut i: usize = 0;
    while i < a.len()
        invariant
            a@.len() == b@.len(),
            i <= a@.len(),
            forall|j: int| 0 <= j < i ==> a@[j] == b@[j],
        decreases a@.len() - i,
    {
        if a[i] != b[i] {
            return false;
        }
        i = i + 1;
    }
    assert(a@ =~= b@);
    true
}

/// Whether `data` begins with `p`.
pub fn bytes_begin(data: &[u8], p: &[u8]) -> (r: bool)
    ensures
        r == has_prefix(data@, p@),
{
    if data.len() < p.len() {
        return false;
    }
    let front = slice_subrange(data, 0, p.len());
    assert(front@ =~= data@.take(p@.len() as int));
    equal_bytes(front, p)
}

/// Whether a file is an ISO 9660 image: it does not begin like an archive, and
/// a volume descriptor stands at one of the offsets that are looked at. `head`
/// is what its beginning holds, `marks` what was read at each offset, if it
/// could be read.
pub fn validate_iso_file(head: &[u8], marks: &Vec<Option<Vec<u8>>>) -> (r: Result<
    (),
    InstallerError,
>)
    ensures
        begins_like_archive(head@) ==> r is Err && r->Err_0@ == (
            ErrorKind::InvalidInput,
            encoded("ERR_ISO_IS_ARCHIVE"@, Seq::empty()),
        ),
        !begins_like_archive(head@) && !has_descriptor(marks@) ==> r is Err && r->Err_0@ == (
            ErrorKind::InvalidInput,
            encoded("ERR_ISO_INVALID"@, Seq::empty()),
        ),
        !begins_like_archive(head@) && has_descriptor(marks@) ==> r is Ok,
{
    let none: [(&str, &str); 0] = [];
    assert(slice_pairs(none@) =~= Seq::empty());
    let rar4: Vec<u8> = vec![0x52, 0x61, 0x72, 0x21, 0x1a, 0x07, 0x00];
    let rar5: Vec<u8> = vec![0x52, 0x61, 0x72, 0x21, 0x1a, 0x07, 0x01, 0x00];
    let seven: Vec<u8> = vec![0x37, 0x7a, 0xbc, 0xaf];
    let zip: Vec<u8> = vec![0x50, 0x4b, 0x03, 0x04];
    assert(rar4@ =~= seq![0x52u8, 0x61, 0x72, 0x21, 0x1a, 0x07, 0x00]);
    assert(rar5@ =~= seq![0x52u8, 0x61, 0x72, 0x21, 0x1a, 0x07, 0x01, 0x00]);
    assert(seven@ =~= seq![0x37u8, 0x7a, 0xbc, 0xaf]);
    assert(zip@ =~= seq![0x50u8, 0x4b, 0x03, 0x04]);
    if bytes_begin(head, rar4.as_slice()) || bytes_begin(head, rar5.as_slice()) || bytes_begin(
        head,
        seven.as_slice(),
    ) || bytes_begin(head, zip.as_slice()) {
        return Err(InstallerError::coded(ErrorKind::InvalidInput, "ERR_ISO_IS_ARCHIVE", &none));
    }
    let magic: Vec<u8> = vec![0x43, 0x44, 0x30, 0x30, 0x31];
    assert(magic@ =~= cd001());
    let mut i: usize = 0;
    while i < marks.len()
        invariant
            i <= marks@.len(),
            magic@ == cd001(),
            !begins_like_archive(head@),
            forall|j: int| 0 <= j < i ==> !is_descriptor(#[trigger] marks@[j]),
        decreases marks@.len() - i,
    {
        match &marks[i] {
            Some(m) => {
                if equal_bytes(m.as_slice(), magic.as_slice()) {
                    assert(is_descriptor(marks@[i as int]));
                    return Ok(());
                }
            },
            None => {},
        }
        i = i + 1;
    }
    Err(InstallerError::coded(ErrorKind::InvalidInput, "ERR_ISO_INVALID", &none))
}

/// What was read is the mark of a volume descriptor.
pub open spec fn is_descriptor(m: Option<Vec<u8>>) -> bool {
    m is Some && m->Some_0@ == cd001()
}

/// One of the marks that were read is that of a volume descriptor.
pub open spec fn has_descriptor(marks: Seq<Option<Vec<u8>>>) -> bool {
    exists|i: int| 0 <= i < marks.len() && is_descriptor(#[trigger] marks[i])
}

// ---------------------------------------------------------------------------
// The whole of mounting
// ---------------------------------------------------------------------------

/// What came of a step of mounting an image.
pub enum MountEvent {
    /// Whether there is a file at its path.
    Looked { exists: bool },
    /// The beginning of the file and what stands at the offsets of a volume
    /// descriptor, or why the file could not be opened.
    Inspected { content: Result<(Vec<u8>, Vec<Option<Vec<u8>>>), String> },
    /// An earlier mount was undone, if there was one.
    Unmounted,
    /// What the mount script answered.
    Answered { reply: Result<String, InstallerError> },
}

/// What comes next in mounting an image.
pub enum MountAction {
    Inspect,
    Unmount { script: String },
    Mount { script: String },
    Mounted { letter: String },
}

/// `r` is what follows `event` in mounting the image at `path`: the next action,
/// or the error that ends it.
pub open spec fn follows_in_mount(
    path: Seq<char>,
    event: MountEvent,
    r: Result<MountAction, InstallerError>,
) -> bool {
    match event {
        MountEvent::Looked { exists } => if !exists {
            r is Err && r->Err_0@ == (
                ErrorKind::InvalidInput,
                encoded("ERR_ISO_NOT_FOUND"@, seq![("path"@, path)]),
            )
        } else if !has_suffix(lowercased(path), ".iso"@) {
            r is Err && r->Err_0@ == (
                ErrorKind::InvalidInput,
                encoded("ERR_NOT_ISO"@, Seq::empty()),
            )
        } else {
            r is Ok && r->Ok_0 is Inspect
        },
        MountEvent::Inspected { content } => match content {
            Err(cause) => r is Err && r->Err_0@ == (
                ErrorKind::Io,
                "ISO open failed: "@ + cause@,
            ),
            Ok(c) => if begins_like_archive(c.0@) {
                r is Err && r->Err_0@ == (
                    ErrorKind::InvalidInput,
                    encoded("ERR_ISO_IS_ARCHIVE"@, Seq::empty()),
                )
            } else if !has_descriptor(c.1@) {
                r is Err && r->Err_0@ == (
                    ErrorKind::InvalidInput,
                    encoded("ERR_ISO_INVALID"@, Seq::empty()),
                )
            } else {
                r is Ok && r->Ok_0 is Unmount && r->Ok_0->Unmount_script@ == dismount_text(path)
            },
        },
        MountEvent::Unmounted => r is Ok && r->Ok_0 is Mount && r->Ok_0->Mount_script@
            == MOUNT_SCRIPT_HEAD@ + ps_quoted(path) + MOUNT_SCRIPT_TAIL@,
        MountEvent::Answered { reply } => match reply {
            Ok(out) => if is_letter(trimmed(out@)) {
                r is Ok && r->Ok_0 is Mounted && r->Ok_0->letter@ == trimmed(out@)
            } else {
                r is Err && r->Err_0@ == (
                    ErrorKind::IsoExtraction,
                    letter_failure(trimmed(out@)),
                )
            },
            Err(e) => r is Err && exists|t: Seq<char>|
                #[trigger] written_as(e@.1, t) && r->Err_0@ == (
                    ErrorKind::IsoExtraction,
                    mount_failure(t),
                ),
        },
    }
}

/// Mount the image at `iso_path`, one action at a time: what follows `event`.
/// The file is looked at before anything is mounted, an earlier mount of it is
/// undone, and the drive letter must be one.
pub fn mount_iso(iso_path: &str, event: MountEvent) -> (r: Result<MountAction, InstallerError>)
    ensures
        follows_in_mount(iso_path@, event, r),
{
    match event {
        MountEvent::Looked { exists } => match check_iso_path(iso_path, exists) {
            Ok(()) => Ok(MountAction::Inspect),
            Err(e) => Err(e),
        },
        MountEvent::Inspected { content } => match content {
            Ok(c) => match validate_iso_file(c.0.as_slice(), &c.1) {
                Ok(()) => Ok(MountAction::Unmount { script: unmount_iso(iso_path) }),
                Err(e) => Err(e),
            },
            Err(cause) => Err(
                InstallerError::Io("ISO open failed: ".to_owned().concat(cause.as_str())),
            ),
        },
        MountEvent::Unmounted => Ok(MountAction::Mount { script: mount_script(iso_path) }),
        MountEvent::Answered { reply } => match mounted_drive(reply) {
            Ok(letter) => Ok(MountAction::Mounted { letter }),
            Err(e) => Err(e),
        },
    }
}

// ---------------------------------------------------------------------------
// Finding the kernel and the root file system
// ---------------------------------------------------------------------------

/// How many directories deep the image is searched.
pub const SEARCH_DEPTH: u32 = 5;

/// Where live images keep a kernel and its initrd, the likeliest first.
pub open spec fn kernel_paths() -> Seq<(Seq<char>, Seq<char>)> {
    seq![
        ("live/vmlinuz"@, "live/initrd.img"@),
        ("live/vmlinuz"@, "live/initrd"@),
        ("casper/vmlinuz"@, "casper/initrd"@),
        ("casper/vmlinuz"@, "casper/initrd.lz"@),
        ("casper/vmlinuz"@, "casper/initrd.gz"@),
        ("boot/vmlinuz"@, "boot/initrd.img"@),
    ]
}

/// Where live images keep a kernel and its initrd.
pub fn kernel_search_paths() -> (r: Vec<(&'static str, &'static str)>)
    ensures
        slice_pairs(r@) == kernel_paths(),
        slice_pairs(r@) == seq![
                ("live/vmlinuz"@, "live/initrd.img"@),
                ("live/vmlinuz"@, "live/initrd"@),
                ("casper/vmlinuz"@, "casper/initrd"@),
                ("casper/vmlinuz"@, "casper/initrd.lz"@),
                ("casper/vmlinuz"@, "casper/initrd.gz"@),
                ("boot/vmlinuz"@, "boot/initrd.img"@),
            ],
{
    let r: Vec<(&'static str, &'static str)> = vec![
        ("live/vmlinuz", "live/initrd.img"),
        ("live/vmlinuz", "live/initrd"),
        ("casper/vmlinuz", "casper/initrd"),
        ("casper/vmlinuz", "casper/initrd.lz"),
        ("casper/vmlinuz", "casper/initrd.gz"),
        ("boot/vmlinuz", "boot/initrd.img"),
    ];
    assert(slice_pairs(r@) =~= kernel_paths());
    r
}

/// Where live images keep the root file system, the likeliest first.
pub open spec fn squashfs_paths() -> Seq<Seq<char>> {
    seq![
        "live/filesystem.squashfs"@,
        "casper/filesystem.squashfs"@,
        "LiveOS/squashfs.img"@,
        "arch/x86_64/airootfs.sfs"@,
    ]
}

/// Where live images keep the root file system.
pub fn squashfs_search_paths() -> (r: Vec<String>)
    ensures
        texts(r@) == squashfs_paths(),
        texts(r@) == seq![
                "live/filesystem.squashfs"@,
                "casper/filesystem.squashfs"@,
                "LiveOS/squashfs.img"@,
                "arch/x86_64/airootfs.sfs"@,
            ],
{
    let r: Vec<String> = vec![
        "live/filesystem.squashfs".to_owned(),
        "casper/filesystem.squashfs".to_owned(),
        "LiveOS/squashfs.img".to_owned(),
        "arch/x86_64/airootfs.sfs".to_owned(),
    ];
    assert(texts(r@) =~= squashfs_paths());
    r
}

/// The file `rel` of the image on the drive `letter`.
pub open spec fn on_drive(letter: Seq<char>, rel: Seq<char>) -> Seq<char> {
    letter + ":\\"@ + replace_char(rel, '/', "\\"@)
}

/// The host path of the file `rel_path` of a mounted image, to copy it from.
pub fn copy_iso_file(iso_drive_letter: &str, rel_path: &str) -> (r: String)
    ensures
        r@ == on_drive(iso_drive_letter@, rel_path@),
{
    let p = replace(rel_path, '/', "\\");
    iso_drive_letter.to_owned().concat(":\\").concat(p.as_str())
}

/// The host path of the root file system of a mounted image.
pub fn squashfs_host_path(iso_drive_letter: &str, squashfs_rel: &str) -> (r: String)
    ensures
        r@ == on_drive(trim_end_char(iso_drive_letter@, ':'), squashfs_rel@),
{
    let l = strip_end(iso_drive_letter, ':');
    copy_iso_file(l.as_str(), squashfs_rel)
}

/// The host path of the initrd of a mounted image.
pub fn initrd_host_path(iso_drive_letter: &str, initrd_rel: &str) -> (r: String)
    ensures
        r@ == on_drive(trim_end_char(iso_drive_letter@, ':'), initrd_rel@),
{
    let l = strip_end(iso_drive_letter, ':');
    copy_iso_file(l.as_str(), initrd_rel)
}

/// The file is a kernel, by its name.
pub open spec fn is_kernel_name(name: Seq<char>) -> bool {
    has_prefix(lowercased(name), "vmlinuz"@)
}

/// The file is an initrd, by its name.
pub open spec fn is_initrd_name(name: Seq<char>) -> bool {
    has_prefix(lowercased(name), "initrd"@) || has_prefix(lowercased(name), "initramfs"@)
}

/// The file is a root file system, by its name.
pub open spec fn is_squashfs_name(name: Seq<char>) -> bool {
    has_suffix(lowercased(name), ".squashfs"@) || lowercased(name) == "airootfs.sfs"@
        || lowercased(name) == "squashfs.img"@
}

/// Whether a name in small letters is that of a kernel.
pub fn kernel_name(lower: &str) -> (r: bool)
    ensures
        r == has_prefix(lower@, "vmlinuz"@),
{
    starts_with(lower, "vmlinuz")
}

/// Whether a name in small letters is that of an initrd.
pub fn initrd_name(lower: &str) -> (r: bool)
    ensures
        r == (has_prefix(lower@, "initrd"@) || has_prefix(lower@, "initramfs"@)),
{
    starts_with(lower, "initrd") || starts_with(lower, "initramfs")
}

/// Whether a name in small letters is that of a root file system.
pub fn squashfs_name(lower: &str) -> (r: bool)
    ensures
        r == (has_suffix(lower@, ".squashfs"@) || lower@ == "airootfs.sfs"@ || lower@
            == "squashfs.img"@),
{
    ends_with(lower, ".squashfs") || same(lower, "airootfs.sfs") || same(lower, "squashfs.img")
}

proof fn kernel_is_no_initrd(name: Seq<char>)
    ensures
        !(has_prefix(name, "vmlinuz"@) && (has_prefix(name, "initrd"@) || has_prefix(
            name,
            "initramfs"@,
        ))),
{
    reveal_strlit("vmlinuz");
    reveal_strlit("initrd");
    reveal_strlit("initramfs");
    if has_prefix(name, "vmlinuz"@) {
        assert(name.take(7)[0] == 'v');
    }
    if has_prefix(name, "initrd"@) {
        assert(name.take(6)[0] == 'i');
    }
    if has_prefix(name, "initramfs"@) {
        assert(name.take(9)[0] == 'i');
    }
}

/// The first kernel and the first initrd below the entries `es` of the
/// directory `dir`, each where none is known yet.
pub fn scan_dir(
    es: &Vec<Entry>,
    dir: &str,
    vmlinuz: &mut Option<String>,
    initrd: &mut Option<String>,
    depth: u32,
)
    ensures
        text_of(*final(vmlinuz)) == or_else(
            text_of(*old(vmlinuz)),
            first_path(
                files_under(es@, dir@, depth as nat, SEARCH_DEPTH as nat),
                |n: Seq<char>| is_kernel_name(n),
            ),
        ),
        text_of(*final(initrd)) == or_else(
            text_of(*old(initrd)),
            first_path(
                files_under(es@, dir@, depth as nat, SEARCH_DEPTH as nat),
                |n: Seq<char>| is_initrd_name(n),
            ),
        ),
    decreases SEARCH_DEPTH + 1 - depth,
{
    if depth > SEARCH_DEPTH || (vmlinuz.is_some() && initrd.is_some()) {
        return;
    }
    let ghost kern = |n: Seq<char>| is_kernel_name(n);
    let ghost init = |n: Seq<char>| is_initrd_name(n);
    let ghost d = depth as nat;
    let ghost lim = SEARCH_DEPTH as nat;
    let ghost all = files_under(es@, dir@, d, lim);
    let ghost k0 = text_of(*vmlinuz);
    let ghost i0 = text_of(*initrd);
    let mut i: usize = 0;
    assert(es@.skip(0) =~= es@);
    while i < es.len()
        invariant
            i <= es@.len(),
            depth <= SEARCH_DEPTH,
            d == depth,
            lim == SEARCH_DEPTH,
            kern == (|n: Seq<char>| is_kernel_name(n)),
            init == (|n: Seq<char>| is_initrd_name(n)),
            or_else(k0, first_path(all, kern)) == or_else(
                text_of(*vmlinuz),
                first_path(files_under(es@.skip(i as int), dir@, d, lim), kern),
            ),
            or_else(i0, first_path(all, init)) == or_else(
                text_of(*initrd),
                first_path(files_under(es@.skip(i as int), dir@, d, lim), init),
            ),
        decreases es@.len() - i,
    {
        let ghost here = es@.skip(i as int);
        let ghost rest = files_under(es@.skip(i + 1), dir@, d, lim);
        assert(here.skip(1) =~= es@.skip(i + 1));
        assert(here[0] == es@[i as int]);
        let entry = &es[i];
        let path = join(dir, entry.name.as_str());
        match &entry.node {
            Node::File => {
                let lower = lowercase(entry.name.as_str());
                let ghost one = seq![(entry.name@, slashed(path@))];
                proof {
                    kernel_is_no_initrd(lower@);
                    first_path_of_two(one, rest, kern);
                    first_path_of_two(one, rest, init);
                    first_path_of_one((entry.name@, slashed(path@)), kern);
                    first_path_of_one((entry.name@, slashed(path@)), init);
                }
                if kernel_name(lower.as_str()) && vmlinuz.is_none() {
                    *vmlinuz = Some(replace(path.as_str(), '\\', "/"));
                } else if initrd_name(lower.as_str()) && initrd.is_none() {
                    *initrd = Some(replace(path.as_str(), '\\', "/"));
                }
            },
            Node::Dir(sub) => {
                proof {
                    let below = files_under(sub@, path@, d + 1, lim);
                    first_path_of_two(below, rest, kern);
                    first_path_of_two(below, rest, init);
                }
                scan_dir(sub, path.as_str(), vmlinuz, initrd, depth + 1);
            },
            Node::Other => {
                assert(Seq::empty() + rest =~= rest);
            },
        }
        i = i + 1;
    }
}

/// The first kernel and the first initrd that a walk over the image meets.
pub open spec fn walked_kernel(root: Seq<Entry>) -> Option<(Seq<char>, Seq<char>)> {
    let fs = files_under(root, ""@, 0, SEARCH_DEPTH as nat);
    match (
        first_path(fs, |n: Seq<char>| is_kernel_name(n)),
        first_path(fs, |n: Seq<char>| is_initrd_name(n)),
    ) {
        (Some(k), Some(i)) => Some((k, i)),
        _ => None,
    }
}

/// The paths of a kernel and its initrd.
pub open spec fn kernel_info(k: LinuxKernelInfo) -> (Seq<char>, Seq<char>) {
    (k.kernel_path@, k.initrd_path@)
}

/// Search the whole image for a kernel and an initrd.
pub fn search_kernel_recursive(root: &Vec<Entry>) -> (r: Result<LinuxKernelInfo, InstallerError>)
    ensures
        match walked_kernel(root@) {
            Some(k) => r is Ok && kernel_info(r->Ok_0) == k && r->Ok_0.kernel_path@ == k.0
                && r->Ok_0.initrd_path@ == k.1,
            None => r is Err && r->Err_0@ == (
                ErrorKind::IsoExtraction,
                "Linux kernel (vmlinuz/initrd) not found inside ISO"@,
            ),
        },
{
    let mut vmlinuz: Option<String> = None;
    let mut initrd: Option<String> = None;
    scan_dir(root, "", &mut vmlinuz, &mut initrd, 0);
    match (vmlinuz, initrd) {
        (Some(k), Some(i)) => Ok(LinuxKernelInfo { kernel_path: k, initrd_path: i }),
        _ => Err(
            InstallerError::IsoExtraction(
                "Linux kernel (vmlinuz/initrd) not found inside ISO".to_owned(),
            ),
        ),
    }
}

/// The first of `kernel_paths` whose kernel and initrd both exist.
pub open spec fn known_kernel_at(found: Seq<(bool, bool)>, i: int) -> bool {
    &&& 0 <= i < kernel_paths().len()
    &&& i < found.len()
    &&& found[i].0 && found[i].1
    &&& forall|j: int| 0 <= j < i ==> !((#[trigger] found[j]).0 && found[j].1)
}

/// The kernel at one of the likely paths, where `found` says of each path
/// whether the kernel and the initrd exist.
pub fn known_kernel(found: &Vec<(bool, bool)>) -> (r: Option<LinuxKernelInfo>)
    ensures
        match r {
            Some(k) => exists|i: int|
                #[trigger] known_kernel_at(found@, i) && kernel_info(k) == kernel_paths()[i]
                    && k.kernel_path@ == kernel_paths()[i].0 && k.initrd_path@ == kernel_paths()[i].1,
            None => forall|i: int|
                0 <= i < found@.len() && i < kernel_paths().len() ==> !((#[trigger] found@[i]).0
                    && found@[i].1),
        },
{
    let paths = kernel_search_paths();
    let mut i: usize = 0;
    while i < paths.len() && i < found.len()
        invariant
            i <= paths@.len(),
            i <= found@.len(),
            slice_pairs(paths@) == kernel_paths(),
            forall|j: int| 0 <= j < i ==> !((#[trigger] found@[j]).0 && found@[j].1),
        decreases paths@.len() - i,
    {
        let (k, n) = found[i];
        if k && n {
            proof {
                assert(kernel_paths()[i as int] == (paths@[i as int].0@, paths@[i as int].1@));
                assert(known_kernel_at(found@, i as int));
            }
            return Some(
                LinuxKernelInfo {
                    kernel_path: paths[i].0.to_owned(),
                    initrd_path: paths[i].1.to_owned(),
                },
            );
        }
        i = i + 1;
    }
    proof {
        assert(paths@.len() == kernel_paths().len());
    }
    None
}

/// The kernel of an image: at the first likely path where both files exist, or
/// else the first one that a walk over the image meets.
pub fn find_linux_kernel(found: &Vec<(bool, bool)>, root: &Vec<Entry>) -> (r: Result<
    LinuxKernelInfo,
    InstallerError,
>)
    ensures
        forall|i: int| #[trigger]
            known_kernel_at(found@, i) ==> r is Ok && kernel_info(r->Ok_0) == kernel_paths()[i],
        forall|i: int|
            0 <= i < 6 && i < found@.len() && (#[trigger] found@[i]).0 && found@[i].1 && (forall|
                j: int,
            |
                0 <= j < i ==> !((#[trigger] found@[j]).0 && found@[j].1)) ==> r is Ok
                && kernel_info(r->Ok_0) == (seq![
                ("live/vmlinuz"@, "live/initrd.img"@),
                ("live/vmlinuz"@, "live/initrd"@),
                ("casper/vmlinuz"@, "casper/initrd"@),
                ("casper/vmlinuz"@, "casper/initrd.lz"@),
                ("casper/vmlinuz"@, "casper/initrd.gz"@),
                ("boot/vmlinuz"@, "boot/initrd.img"@),
            ])[i],
        forall|i: int|
            0 <= i < 6 && i < found@.len() && (#[trigger] found@[i]).0 && found@[i].1 && (forall|
                j: int,
            |
                0 <= j < i ==> !((#[trigger] found@[j]).0 && found@[j].1)) ==> r is Ok
                && r->Ok_0.kernel_path@ == (seq!["live/vmlinuz"@, "live/vmlinuz"@, "casper/vmlinuz"@, "casper/vmlinuz"@, "casper/vmlinuz"@, "boot/vmlinuz"@])[i]
                && r->Ok_0.initrd_path@ == (seq![
                    "live/initrd.img"@,
                    "live/initrd"@,
                    "casper/initrd"@,
                    "casper/initrd.lz"@,
                    "casper/initrd.gz"@,
                    "boot/initrd.img"@,
                ])[i],
        (forall|i: int|
            0 <= i < 6 && i < found@.len() ==> !((#[trigger] found@[i]).0 && found@[i].1)) ==> (
        r is Ok <==> walked_kernel(root@) is Some) && (r is Ok ==> r->Ok_0.kernel_path@
            == walked_kernel(root@)->Some_0.0 && r->Ok_0.initrd_path@ == walked_kernel(
            root@,
        )->Some_0.1),
        !(exists|i: int| #[trigger] known_kernel_at(found@, i)) ==> match walked_kernel(root@) {
            Some(k) => r is Ok && kernel_info(r->Ok_0) == k,
            None => r is Err && r->Err_0@ == (
                ErrorKind::IsoExtraction,
                "Linux kernel (vmlinuz/initrd) not found inside ISO"@,
            ),
        },
{
    proof {
        assert forall|i: int|
            0 <= i < 6 && i < found@.len() && (#[trigger] found@[i]).0 && found@[i].1 && (forall|
                j: int,
            |
                0 <= j < i ==> !((#[trigger] found@[j]).0 && found@[j].1)) implies known_kernel_at(
            found@,
            i,
        ) by {}
    }
    match known_kernel(found) {
        Some(k) => {
            proof {
                let i = choose|i: int|
                    #[trigger] known_kernel_at(found@, i) && kernel_info(k) == kernel_paths()[i];
                assert forall|j: int| #[trigger] known_kernel_at(found@, j) implies j == i by {
                    if j < i {
                        assert(found@[j].0 && found@[j].1);
                    } else if i < j {
                        assert(found@[i].0 && found@[i].1);
                    }
                }
            }
            Ok(k)
        },
        None => search_kernel_recursive(root),
    }
}

/// The root file system that a walk over the entries `es` meets first.
pub fn search_squashfs_recursive(es: &Vec<Entry>, dir: &str, depth: u32) -> (r: Option<String>)
    ensures
        text_of(r) == first_path(
            files_under(es@, dir@, depth as nat, SEARCH_DEPTH as nat),
            |n: Seq<char>| is_squashfs_name(n),
        ),
    decreases SEARCH_DEPTH + 1 - depth,
{
    if depth > SEARCH_DEPTH {
        return None;
    }
    let ghost want = |n: Seq<char>| is_squashfs_name(n);
    let ghost d = depth as nat;
    let ghost lim = SEARCH_DEPTH as nat;
    let ghost all = files_under(es@, dir@, d, lim);
    let mut i: usize = 0;
    assert(es@.skip(0) =~= es@);
    while i < es.len()
        invariant
            i <= es@.len(),
            depth <= SEARCH_DEPTH,
            d == depth,
            lim == SEARCH_DEPTH,
            want == (|n: Seq<char>| is_squashfs_name(n)),
            all == files_under(es@, dir@, d, lim),
            first_path(all, want) == first_path(
                files_under(es@.skip(i as int), dir@, d, lim),
                want,
            ),
        decreases es@.len() - i,
    {
        let ghost here = es@.skip(i as int);
        let ghost rest = files_under(es@.skip(i + 1), dir@, d, lim);
        assert(here.skip(1) =~= es@.skip(i + 1));
        assert(here[0] == es@[i as int]);
        let entry = &es[i];
        let path = join(dir, entry.name.as_str());
        match &entry.node {
            Node::File => {
                let lower = lowercase(entry.name.as_str());
                let ghost one = seq![(entry.name@, slashed(path@))];
                proof {
                    first_path_of_two(one, rest, want);
                    first_path_of_one((entry.name@, slashed(path@)), want);
                }
                if squashfs_name(lower.as_str()) {
                    return Some(replace(path.as_str(), '\\', "/"));
                }
            },
            Node::Dir(sub) => {
                proof {
                    first_path_of_two(files_under(sub@, path@, d + 1, lim), rest, want);
                }
                match search_squashfs_recursive(sub, path.as_str(), depth + 1) {
                    Some(hit) => {
                        return Some(hit);
                    },
                    None => {},
                }
            },
            Node::Other => {
                assert(Seq::empty() + rest =~= rest);
            },
        }
        i = i + 1;
    }
    None
}

/// Of the likely paths of the root file system, the one at `i` is the first
/// that exists.
pub open spec fn known_squashfs_at(found: Seq<bool>, i: int) -> bool {
    &&& 0 <= i < squashfs_paths().len()
    &&& i < found.len()
    &&& found[i]
    &&& forall|j: int| 0 <= j < i ==> !(#[trigger] found[j])
}

/// The root file system at one of the likely paths, where `found` says of each
/// path whether it exists.
pub fn known_squashfs(found: &Vec<bool>) -> (r: Option<String>)
    ensures
        match r {
            Some(p) => exists|i: int|
                #[trigger] known_squashfs_at(found@, i) && p@ == squashfs_paths()[i],
            None => forall|i: int|
                0 <= i < found@.len() && i < squashfs_paths().len() ==> !(#[trigger] found@[i]),
        },
{
    let paths = squashfs_search_paths();
    let mut i: usize = 0;
    while i < paths.len() && i < found.len()
        invariant
            i <= paths@.len(),
            i <= found@.len(),
            texts(paths@) == squashfs_paths(),
            forall|j: int| 0 <= j < i ==> !(#[trigger] found@[j]),
        decreases paths@.len() - i,
    {
        if found[i] {
            proof {
                assert(squashfs_paths()[i as int] == paths@[i as int]@);
                assert(known_squashfs_at(found@, i as int));
            }
            return Some(paths[i].clone());
        }
        i = i + 1;
    }
    proof {
        assert(paths@.len() == squashfs_paths().len());
    }
    None
}

/// The root file system of an image: at the first likely path that exists, or
/// else the first one that a walk over the image meets.
pub fn find_squashfs_path(found: &Vec<bool>, root: &Vec<Entry>) -> (r: Result<
    String,
    InstallerError,
>)
    ensures
        forall|i: int| #[trigger]
            known_squashfs_at(found@, i) ==> r is Ok && r->Ok_0@ == squashfs_paths()[i],
        forall|i: int|
            0 <= i < 4 && i < found@.len() && #[trigger] found@[i] && (forall|j: int|
                0 <= j < i ==> !(#[trigger] found@[j])) ==> r is Ok && r->Ok_0@ == (seq![
                "live/filesystem.squashfs"@,
                "casper/filesystem.squashfs"@,
                "LiveOS/squashfs.img"@,
                "arch/x86_64/airootfs.sfs"@,
            ])[i],
        !(exists|i: int| #[trigger] known_squashfs_at(found@, i)) ==> match first_path(
            files_under(root@, ""@, 0, SEARCH_DEPTH as nat),
            |n: Seq<char>| is_squashfs_name(n),
        ) {
            Some(p) => r is Ok && r->Ok_0@ == p,
            None => r is Err && r->Err_0@ == (
                ErrorKind::IsoExtraction,
                "filesystem.squashfs not found inside ISO"@,
            ),
        },
{
    proof {
        assert forall|i: int|
            0 <= i < 4 && i < found@.len() && #[trigger] found@[i] && (forall|j: int|
                0 <= j < i ==> !(#[trigger] found@[j])) implies known_squashfs_at(found@, i) by {}
    }
    match known_squashfs(found) {
        Some(p) => {
            proof {
                let i = choose|i: int|
                    #[trigger] known_squashfs_at(found@, i) && p@ == squashfs_paths()[i];
                assert forall|j: int| #[trigger] known_squashfs_at(found@, j) implies j == i by {
                    if j < i {
                        assert(found@[j]);
                    } else if i < j {
                        assert(found@[i]);
                    }
                }
            }
            Ok(p)
        },
        None => {
            match search_squashfs_recursive(root, "", 0) {
                Some(p) => Ok(p),
                None => Err(
                    InstallerError::IsoExtraction(
                        "filesystem.squashfs not found inside ISO".to_owned(),
                    ),
                ),
            }
        },
    }
}

// ---------------------------------------------------------------------------
// NTFS support in the initrd
// ---------------------------------------------------------------------------

/// The bytes begin like a gzip member.
pub open spec fn begins_gzip(d: Seq<u8>) -> bool {
    d.len() >= 2 && d[0] == 0x1f && d[1] == 0x8b
}

/// The bytes begin like a zstd frame.
pub open spec fn begins_zstd(d: Seq<u8>) -> bool {
    d.len() >= 4 && d[0] == 0x28 && d[1] == 0xb5 && d[2] == 0x2f && d[3] == 0xfd
}

/// Whether the bytes begin like a gzip member.
pub fn is_gzip(data: &[u8]) -> (r: bool)
    ensures
        r == begins_gzip(data@),
{
    data.len() >= 2 && data[0] == 0x1f && data[1] == 0x8b
}

/// Whether the bytes begin like a zstd frame.
pub fn is_zstd(data: &[u8]) -> (r: bool)
    ensures
        r == begins_zstd(data@),
{
    data.len() >= 4 && data[0] == 0x28 && data[1] == 0xb5 && data[2] == 0x2f && data[3] == 0xfd
}

/// The content that decoding gave, where it gave any.
pub open spec fn content_of(decoded: Result<Seq<u8>, Seq<char>>) -> Option<Seq<u8>> {
    match decoded {
        Ok(d) => if d.len() > 0 {
            Some(d)
        } else {
            None
        },
        Err(_) => None,
    }
}

/// Bytes that may be missing.
pub open spec fn bytes_of(o: Option<Vec<u8>>) -> Option<Seq<u8>> {
    match o {
        Some(v) => Some(v@),
        None => None,
    }
}

/// The content that decoding gave, where it gave any.
pub fn decoded_content(decoded: Result<Vec<u8>, String>) -> (r: Option<Vec<u8>>)
    ensures
        bytes_of(r) == content_of(crate::codec::decoding(decoded)),
{
    match decoded {
        Ok(out) => if out.len() > 0 {
            Some(out)
        } else {
            None
        },
        Err(_) => None,
    }
}

/// The content of the gzip member that `data` begins with, where it has any.
pub fn try_gzip_decompress(data: &[u8]) -> (r: Option<Vec<u8>>)
    ensures
        bytes_of(r) == content_of(gunzipped(data@)),
{
    decoded_content(gunzip(data))
}

/// The content of the zstd frames `data`, where they have any.
pub fn try_zstd_decompress(data: &[u8]) -> (r: Option<Vec<u8>>)
    ensures
        bytes_of(r) == content_of(unzstded(data@)),
{
    decoded_content(unzstd(data))
}

/// A gzip member or a zstd frame begins at `i`.
pub open spec fn frame_at(raw: Seq<u8>, i: int) -> bool {
    begins_zstd(raw.skip(i)) || begins_gzip(raw.skip(i))
}

/// Where the first frame at or behind `i` begins; the last four bytes are not
/// looked at.
pub open spec fn frame_from(raw: Seq<u8>, i: int) -> Option<int>
    decreases raw.len() - i,
{
    if i + 4 >= raw.len() {
        None
    } else if frame_at(raw, i) {
        Some(i)
    } else {
        frame_from(raw, i + 1)
    }
}

/// Where the first byte at or behind `i` stands that is not zero.
pub open spec fn data_from(raw: Seq<u8>, i: int) -> int
    decreases raw.len() - i,
{
    if 0 <= i < raw.len() && raw[i] == 0 {
        data_from(raw, i + 1)
    } else {
        i
    }
}

/// Where the records at the beginning of `raw` end.
pub open spec fn early_end(raw: Seq<u8>) -> int {
    if records_end(raw, 0) < raw.len() {
        records_end(raw, 0)
    } else {
        raw.len() as int
    }
}

/// Where the main archive of an initrd may begin: behind the early records and
/// the zero bytes that follow them, and at the first frame.
pub open spec fn archive_offsets(raw: Seq<u8>) -> Seq<int> {
    let behind = data_from(raw, early_end(raw));
    (if behind < raw.len() {
        seq![behind]
    } else {
        Seq::empty()
    }) + (match frame_from(raw, 0) {
        Some(i) => seq![i],
        None => Seq::empty(),
    })
}

/// A list of offsets as integers.
pub open spec fn as_ints(v: Seq<usize>) -> Seq<int> {
    v.map_values(|n: usize| n as int)
}

/// Where the main archive of an initrd may begin.
pub fn initrd_archive_offsets(raw: &[u8]) -> (r: Vec<usize>)
    ensures
        as_ints(r@) == archive_offsets(raw@),
        forall|i: int| 0 <= i < r@.len() ==> #[trigger] r@[i] < raw@.len(),
{
    let mut offsets: Vec<usize> = Vec::new();
    let n = raw.len();
    let after = skip_leading_cpio(raw);
    proof {
        early_end_is_inside(raw@);
    }
    let after_off = n - after.len();
    let mut pad = after_off;
    while pad < n && raw[pad] == 0
        invariant
            pad <= n,
            n == raw@.len(),
            data_from(raw@, after_off as int) == data_from(raw@, pad as int),
        decreases n - pad,
    {
        pad = pad + 1;
    }
    if pad < n {
        offsets.push(pad);
    }
    let ghost first = as_ints(offsets@);
    proof {
        assert(first =~= (if data_from(raw@, early_end(raw@)) < raw@.len() {
            seq![data_from(raw@, early_end(raw@))]
        } else {
            Seq::empty()
        }));
    }
    let mut i: usize = 0;
    while i < n && n - i > 4
        invariant
            i <= n,
            n == raw@.len(),
            frame_from(raw@, 0) == frame_from(raw@, i as int),
            as_ints(offsets@) == first,
            archive_offsets(raw@) == first + (match frame_from(raw@, 0) {
                Some(i) => seq![i],
                None => Seq::empty(),
            }),
            forall|i: int| 0 <= i < offsets@.len() ==> #[trigger] offsets@[i] < n,
        decreases n - i,
    {
        let chunk = slice_subrange(raw, i, n);
        assert(chunk@ =~= raw@.skip(i as int));
        if is_zstd(chunk) || is_gzip(chunk) {
            offsets.push(i);
            assert(as_ints(offsets@) =~= first + seq![i as int]);
            return offsets;
        }
        i = i + 1;
    }
    assert(first + Seq::empty() =~= first);
    offsets
}

proof fn early_end_is_inside(raw: Seq<u8>)
    ensures
        0 <= early_end(raw) <= raw.len(),
        raw.len() - raw.skip(early_end(raw)).len() == early_end(raw),
{
    crate::newc::records_end_grows(raw, 0);
}

/// What can be decoded from the bytes `chunk`.
pub open spec fn decoded_from(chunk: Seq<u8>) -> Seq<Seq<u8>> {
    (match content_of(gunzipped(chunk)) {
        Some(d) => if begins_gzip(chunk) {
            seq![d]
        } else {
            Seq::empty()
        },
        None => Seq::empty(),
    }) + (match content_of(unzstded(chunk)) {
        Some(d) => if begins_zstd(chunk) {
            seq![d]
        } else {
            Seq::empty()
        },
        None => Seq::empty(),
    })
}

/// What can be decoded at the offsets `at`.
pub open spec fn decoded_at(raw: Seq<u8>, at: Seq<int>) -> Seq<Seq<u8>>
    decreases at.len(),
{
    if at.len() == 0 {
        Seq::empty()
    } else {
        decoded_at(raw, at.drop_last()) + decoded_from(raw.skip(at.last()))
    }
}

/// The payloads of an initrd, unpacked.
pub open spec fn payloads(raw: Seq<u8>) -> Seq<Seq<u8>> {
    decoded_at(raw, archive_offsets(raw))
}

/// A list of byte strings.
pub open spec fn byte_lists(v: Seq<Vec<u8>>) -> Seq<Seq<u8>> {
    v.map_values(|b: Vec<u8>| b@)
}

/// The payloads of an initrd, unpacked.
pub fn initrd_payloads(raw: &[u8]) -> (r: Vec<Vec<u8>>)
    ensures
        byte_lists(r@) == payloads(raw@),
{
    let offsets = initrd_archive_offsets(raw);
    let n = raw.len();
    let ghost at = as_ints(offsets@);
    let mut out: Vec<Vec<u8>> = Vec::new();
    let mut k: usize = 0;
    assert(byte_lists(out@) =~= decoded_at(raw@, at.take(0)));
    while k < offsets.len()
        invariant
            k <= offsets@.len(),
            n == raw@.len(),
            at == as_ints(offsets@),
            forall|i: int| 0 <= i < offsets@.len() ==> #[trigger] offsets@[i] < n,
            byte_lists(out@) == decoded_at(raw@, at.take(k as int)),
        decreases offsets@.len() - k,
    {
        let off = offsets[k];
        let chunk = slice_subrange(raw, off, n);
        assert(chunk@ =~= raw@.skip(off as int));
        assert(at.take(k + 1).drop_last() =~= at.take(k as int));
        assert(at.take(k + 1).last() == off);
        let ghost before = byte_lists(out@);
        if is_gzip(chunk) {
            match try_gzip_decompress(chunk) {
                Some(d) => {
                    out.push(d);
                },
                None => {},
            }
        }
        let ghost mid = byte_lists(out@);
        assert(mid =~= before + (match content_of(gunzipped(chunk@)) {
            Some(d) => if begins_gzip(chunk@) {
                seq![d]
            } else {
                Seq::empty()
            },
            None => Seq::empty(),
        }));
        if is_zstd(chunk) {
            match try_zstd_decompress(chunk) {
                Some(d) => {
                    out.push(d);
                },
                None => {},
            }
        }
        assert(byte_lists(out@) =~= mid + (match content_of(unzstded(chunk@)) {
            Some(d) => if begins_zstd(chunk@) {
                seq![d]
            } else {
                Seq::empty()
            },
            None => Seq::empty(),
        }));
        assert(byte_lists(out@) =~= before + decoded_from(chunk@));
        k = k + 1;
    }
    assert(at.take(k as int) =~= at);
    out
}

/// The byte strings of `l` without those that occurred before.
pub open spec fn distinct(l: Seq<Seq<u8>>) -> Seq<Seq<u8>>
    decreases l.len(),
{
    if l.len() == 0 {
        Seq::empty()
    } else {
        let front = distinct(l.drop_last());
        if front.contains(l.last()) {
            front
        } else {
            front.push(l.last())
        }
    }
}

/// Add `b` to `bufs`, unless it is there.
pub fn push_unique(bufs: &mut Vec<Vec<u8>>, b: Vec<u8>)
    ensures
        byte_lists(final(bufs)@) == (if byte_lists(old(bufs)@).contains(b@) {
            byte_lists(old(bufs)@)
        } else {
            byte_lists(old(bufs)@).push(b@)
        }),
{
    let ghost l = byte_lists(bufs@);
    let mut i: usize = 0;
    while i < bufs.len()
        invariant
            i <= bufs@.len(),
            *bufs == *old(bufs),
            l == byte_lists(bufs@),
            forall|j: int| 0 <= j < i ==> #[trigger] l[j] != b@,
        decreases bufs@.len() - i,
    {
        assert(l[i as int] == bufs@[i as int]@);
        if equal_bytes(bufs[i].as_slice(), b.as_slice()) {
            return;
        }
        i = i + 1;
    }
    bufs.push(b);
    assert(byte_lists(bufs@) =~= l.push(b@));
}

/// The bytes to look through for an initrd: the initrd as it is, and what can
/// be unpacked from it, each once.
pub fn collect_initrd_scan_buffers(raw: &[u8]) -> (r: Vec<Vec<u8>>)
    ensures
        byte_lists(r@) == distinct(seq![raw@] + payloads(raw@)),
{
    let mut bufs: Vec<Vec<u8>> = Vec::new();
    let ghost all = seq![raw@] + payloads(raw@);
    assert(byte_lists(bufs@) =~= distinct(all.take(0)));
    assert(all.take(1).drop_last() =~= all.take(0));
    push_unique(&mut bufs, slice_to_vec(raw));
    let found = initrd_payloads(raw);
    let mut i: usize = 0;
    while i < found.len()
        invariant
            i <= found@.len(),
            byte_lists(found@) == payloads(raw@),
            all == seq![raw@] + payloads(raw@),
            byte_lists(bufs@) == distinct(all.take(i + 1)),
        decreases found@.len() - i,
    {
        assert(all.take(i + 2).drop_last() =~= all.take(i + 1));
        assert(byte_lists(found@)[i as int] == found@[i as int]@);
        assert(all.take(i + 2).last() == found@[i as int]@);
        push_unique(&mut bufs, slice_to_vec(found[i].as_slice()));
        i = i + 1;
    }
    assert(found@.len() == payloads(raw@).len());
    assert(all.take(i + 1) =~= all);
    bufs
}

/// Whether `needle` stands somewhere in `haystack`.
pub fn bytes_contain(haystack: &[u8], needle: &[u8]) -> (r: bool)
    requires
        needle@.len() > 0,
    ensures
        r == occurs(haystack@, needle@),
{
    let n = haystack.len();
    let m = needle.len();
    if n < m {
        return false;
    }
    let mut i: usize = 0;
    while i <= n - m
        invariant
            n == haystack@.len(),
            m == needle@.len(),
            0 < m <= n,
            i <= n - m + 1,
            forall|j: int| 0 <= j < i ==> !occurs_at(haystack@, needle@, j),
        decreases n - m + 1 - i,
    {
        let w = slice_subrange(haystack, i, i + m);
        if equal_bytes(w, needle) {
            assert(occurs_at(haystack@, needle@, i as int));
            return true;
        }
        assert(!occurs_at(haystack@, needle@, i as int));
        i = i + 1;
    }
    proof {
        assert forall|j: int| !#[trigger] occurs_at(haystack@, needle@, j) by {}
    }
    false
}

/// The names that tell of NTFS support.
pub open spec fn needles() -> Seq<Seq<char>> {
    seq![
        "ntfs3.ko"@,
        "ntfs.ko"@,
        "ntfs3.ko.xz"@,
        "ntfs3.ko.zst"@,
        "ntfs.ko.xz"@,
        "kernel/fs/ntfs"@,
        "kernel/fs/ntfs3"@,
        "modules/ntfs"@,
        "modules/ntfs3"@,
        "bin/ntfs-3g"@,
        "sbin/ntfs-3g"@,
        "ntfs-3g"@,
    ]
}

/// One of the names that tell of NTFS support stands in `payload`.
pub open spec fn has_ntfs(payload: Seq<u8>) -> bool {
    exists|i: int| 0 <= i < needles().len() && occurs(payload, encode_utf8(#[trigger] needles()[i]))
}

fn ntfs_needles() -> (r: Vec<String>)
    ensures
        texts(r@) == needles(),
        forall|i: int| 0 <= i < r@.len() ==> encode_utf8((#[trigger] r@[i])@).len() > 0,
{
    let r: Vec<String> = vec![
        "ntfs3.ko".to_owned(),
        "ntfs.ko".to_owned(),
        "ntfs3.ko.xz".to_owned(),
        "ntfs3.ko.zst".to_owned(),
        "ntfs.ko.xz".to_owned(),
        "kernel/fs/ntfs".to_owned(),
        "kernel/fs/ntfs3".to_owned(),
        "modules/ntfs".to_owned(),
        "modules/ntfs3".to_owned(),
        "bin/ntfs-3g".to_owned(),
        "sbin/ntfs-3g".to_owned(),
        "ntfs-3g".to_owned(),
    ];
    proof {
        assert(texts(r@) =~= needles());
        reveal_strlit("ntfs3.ko");
        reveal_strlit("ntfs.ko");
        reveal_strlit("ntfs3.ko.xz");
        reveal_strlit("ntfs3.ko.zst");
        reveal_strlit("ntfs.ko.xz");
        reveal_strlit("kernel/fs/ntfs");
        reveal_strlit("kernel/fs/ntfs3");
        reveal_strlit("modules/ntfs");
        reveal_strlit("modules/ntfs3");
        reveal_strlit("bin/ntfs-3g");
        reveal_strlit("sbin/ntfs-3g");
        reveal_strlit("ntfs-3g");
        assert forall|i: int| 0 <= i < r@.len() implies encode_utf8((#[trigger] r@[i])@).len()
            > 0 by {
            assert(needles()[i] == r@[i]@);
            assert(needles()[i].len() > 0);
            nonempty_text_has_bytes(needles()[i]);
        }
    }
    r
}

/// Whether one of the names that tell of NTFS support stands in `payload`.
pub fn initrd_payload_has_ntfs(payload: &[u8]) -> (r: bool)
    ensures
        r == has_ntfs(payload@),
        r <==> occurs(payload@, encode_utf8("ntfs3.ko"@)) ||
            occurs(payload@, encode_utf8("ntfs.ko"@)) ||
            occurs(payload@, encode_utf8("kernel/fs/ntfs"@)) ||
            occurs(payload@, encode_utf8("modules/ntfs"@)) ||
            occurs(payload@, encode_utf8("ntfs-3g"@)),
{
    proof {
        ntfs_support_is_told_by_five_names(payload@);
    }
    let names = ntfs_needles();
    let mut i: usize = 0;
    while i < names.len()
        invariant
            i <= names@.len(),
            texts(names@) == needles(),
            forall|i: int| 0 <= i < names@.len() ==> encode_utf8((#[trigger] names@[i])@).len() > 0,
            forall|j: int|
                0 <= j < i ==> !occurs(payload@, encode_utf8(#[trigger] needles()[j])),
        decreases names@.len() - i,
    {
        assert(needles()[i as int] == names@[i as int]@);
        if bytes_contain(payload, names[i].as_str().as_bytes()) {
            proof {
                ntfs_support_is_told_by_five_names(payload@);
            }
            return true;
        }
        i = i + 1;
    }
    assert(needles().len() == names@.len());
    false
}

/// An initrd has NTFS support: one of the names stands in it, or in what can
/// be unpacked from it.
pub open spec fn initrd_has_ntfs(raw: Seq<u8>) -> bool {
    has_ntfs(raw) || exists|i: int| 0 <= i < payloads(raw).len() && has_ntfs(#[trigger] payloads(raw)[i])
}

proof fn distinct_keeps_all(l: Seq<Seq<u8>>)
    ensures
        forall|b: Seq<u8>| #[trigger] distinct(l).contains(b) <==> l.contains(b),
    decreases l.len(),
{
    if l.len() > 0 {
        let front = l.drop_last();
        distinct_keeps_all(front);
        let d = distinct(front);
        assert forall|b: Seq<u8>| #[trigger] distinct(l).contains(b) <==> l.contains(b) by {
            if l.contains(b) {
                let i = choose|i: int| 0 <= i < l.len() && l[i] == b;
                if i < l.len() - 1 {
                    assert(front[i] == b);
                    assert(d.contains(b));
                    let k = choose|k: int| 0 <= k < d.len() && d[k] == b;
                    assert(distinct(l)[k] == b);
                } else if !d.contains(l.last()) {
                    assert(distinct(l)[d.len() as int] == b);
                }
            }
            if distinct(l).contains(b) {
                let k = choose|k: int| 0 <= k < distinct(l).len() && distinct(l)[k] == b;
                if k < d.len() {
                    assert(d[k] == b);
                    assert(d.contains(b));
                    let i = choose|i: int| 0 <= i < front.len() && front[i] == b;
                    assert(l[i] == b);
                } else {
                    assert(l[l.len() - 1] == b);
                }
            }
        }
    }
}

/// Whether one of the byte strings tells of NTFS support.
pub fn any_has_ntfs(bufs: &Vec<Vec<u8>>) -> (r: bool)
    ensures
        r == exists|i: int| 0 <= i < bufs@.len() && has_ntfs((#[trigger] bufs@[i])@),
{
    let mut i: usize = 0;
    while i < bufs.len()
        invariant
            i <= bufs@.len(),
            forall|j: int| 0 <= j < i ==> !has_ntfs((#[trigger] bufs@[j])@),
        decreases bufs@.len() - i,
    {
        if initrd_payload_has_ntfs(bufs[i].as_slice()) {
            return true;
        }
        i = i + 1;
    }
    false
}

/// Whether an initrd ships NTFS support.
pub fn initrd_bytes_have_ntfs(raw: &[u8]) -> (r: bool)
    ensures
        r == initrd_has_ntfs(raw@),
{
    let bufs = collect_initrd_scan_buffers(raw);
    let r = any_has_ntfs(&bufs);
    proof {
        let l = byte_lists(bufs@);
        let all = seq![raw@] + payloads(raw@);
        distinct_keeps_all(all);
        if r {
            let i = choose|i: int| 0 <= i < bufs@.len() && has_ntfs((#[trigger] bufs@[i])@);
            assert(l[i] == bufs@[i]@);
            assert(l.contains(l[i]));
            assert(all.contains(l[i]));
            let k = choose|k: int| 0 <= k < all.len() && all[k] == l[i];
            if k > 0 {
                assert(payloads(raw@)[k - 1] == all[k]);
            }
        }
        if initrd_has_ntfs(raw@) {
            let b = if has_ntfs(raw@) {
                raw@
            } else {
                payloads(raw@)[choose|i: int|
                    0 <= i < payloads(raw@).len() && has_ntfs(#[trigger] payloads(raw@)[i])]
            };
            if has_ntfs(raw@) {
                assert(all[0] == b);
            } else {
                let i = choose|i: int|
                    0 <= i < payloads(raw@).len() && has_ntfs(#[trigger] payloads(raw@)[i]);
                assert(all[i + 1] == b);
            }
            assert(all.contains(b));
            assert(l.contains(b));
            let k = choose|k: int| 0 <= k < l.len() && l[k] == b;
            assert(bufs@[k]@ == b);
        }
    }
    r
}

/// Whether the initrd that was read from an image ships NTFS support.
pub fn probe_initrd_has_ntfs(raw: &[u8]) -> (r: bool)
    ensures
        r == initrd_has_ntfs(raw@),
{
    initrd_bytes_have_ntfs(raw)
}

/// What is known of an image whose kernel was found, from what was read of it.
/// An image counts as having NTFS support where its initrd or its root file
/// system ships the module, since the overlay can carry it.
pub fn probe_iso_layout(
    compressed: u64,
    uncompressed: u64,
    ntfs_in_initrd: bool,
    ntfs_in_squashfs: bool,
    min_gb: u32,
    suggested_gb: u32,
) -> (r: IsoLayoutInfo)
    ensures
        r.squashfs_compressed_mb == compressed / 0x10_0000,
        r.squashfs_uncompressed_mb == uncompressed / 0x10_0000,
        r.min_root_disk_gb == min_gb,
        r.suggested_root_disk_gb == suggested_gb,
        r.has_uefi_kernel,
        r.has_ntfs_in_initrd == (ntfs_in_initrd || ntfs_in_squashfs),
{
    IsoLayoutInfo {
        squashfs_compressed_mb: compressed / (1024 * 1024),
        squashfs_uncompressed_mb: uncompressed / (1024 * 1024),
        min_root_disk_gb: min_gb,
        suggested_root_disk_gb: suggested_gb,
        has_uefi_kernel: true,
        has_ntfs_in_initrd: ntfs_in_initrd || ntfs_in_squashfs,
    }
}

/// How far the look at a mounted image is.
#[derive(Debug, Clone, Copy, PartialEq, Eq, Structural)]
pub enum LayoutStage {
    Kernel,
    Initrd,
    Squashfs,
    Module,
    Size,
    Unpacked,
    Unmount,
    Over,
}

/// What the look at a mounted image does next.
pub enum LayoutAction {
    FindKernel { letter: String },
    ProbeInitrd { path: String },
    FindSquashfs { letter: String },
    ProbeModule { path: String },
    Stat { path: String },
    Measure { path: String },
    Unmount { script: String },
    Nothing,
}

/// An action by its text.
pub enum LayoutDeed {
    FindKernel(Seq<char>),
    ProbeInitrd(Seq<char>),
    FindSquashfs(Seq<char>),
    ProbeModule(Seq<char>),
    Stat(Seq<char>),
    Measure(Seq<char>),
    Unmount(Seq<char>),
    Nothing,
}

impl View for LayoutAction {
    type V = LayoutDeed;

    open spec fn view(&self) -> LayoutDeed {
        match *self {
            LayoutAction::FindKernel { letter } => LayoutDeed::FindKernel(letter@),
            LayoutAction::ProbeInitrd { path } => LayoutDeed::ProbeInitrd(path@),
            LayoutAction::FindSquashfs { letter } => LayoutDeed::FindSquashfs(letter@),
            LayoutAction::ProbeModule { path } => LayoutDeed::ProbeModule(path@),
            LayoutAction::Stat { path } => LayoutDeed::Stat(path@),
            LayoutAction::Measure { path } => LayoutDeed::Measure(path@),
            LayoutAction::Unmount { script } => LayoutDeed::Unmount(script@),
            LayoutAction::Nothing => LayoutDeed::Nothing,
        }
    }
}

/// What an action of the look at an image answered.
pub enum LayoutReply {
    Kernel(Result<LinuxKernelInfo, InstallerError>),
    /// Whether the initrd, or the root file system, has NTFS support.
    Flag(Result<bool, InstallerError>),
    /// Where the root file system stands in the image.
    Path(Result<String, InstallerError>),
    /// Its size, or why that cannot be read.
    Size(Result<u64, String>),
    /// Its unpacked size, and the least and the suggested size of a root disk
    /// for it.
    Unpacked(Result<(u64, u32, u32), InstallerError>),
    /// The image was unmounted, as far as it could be.
    Tried,
}

/// A reply by its texts.
pub enum LayoutAnswer {
    Kernel(Result<(Seq<char>, Seq<char>), (ErrorKind, Seq<char>)>),
    Flag(Result<bool, (ErrorKind, Seq<char>)>),
    Path(Result<Seq<char>, (ErrorKind, Seq<char>)>),
    Size(Result<u64, Seq<char>>),
    Unpacked(Result<(u64, u32, u32), (ErrorKind, Seq<char>)>),
    Tried,
}

impl View for LayoutReply {
    type V = LayoutAnswer;

    open spec fn view(&self) -> LayoutAnswer {
        match *self {
            LayoutReply::Kernel(Ok(k)) => LayoutAnswer::Kernel(Ok(kernel_info(k))),
            LayoutReply::Kernel(Err(e)) => LayoutAnswer::Kernel(Err(e@)),
            LayoutReply::Flag(Ok(b)) => LayoutAnswer::Flag(Ok(b)),
            LayoutReply::Flag(Err(e)) => LayoutAnswer::Flag(Err(e@)),
            LayoutReply::Path(Ok(p)) => LayoutAnswer::Path(Ok(p@)),
            LayoutReply::Path(Err(e)) => LayoutAnswer::Path(Err(e@)),
            LayoutReply::Size(Ok(n)) => LayoutAnswer::Size(Ok(n)),
            LayoutReply::Size(Err(t)) => LayoutAnswer::Size(Err(t@)),
            LayoutReply::Unpacked(Ok(n)) => LayoutAnswer::Unpacked(Ok(n)),
            LayoutReply::Unpacked(Err(e)) => LayoutAnswer::Unpacked(Err(e@)),
            LayoutReply::Tried => LayoutAnswer::Tried,
        }
    }
}

/// The look at an image that was mounted.
pub struct LayoutProbe {
    stage: LayoutStage,
    iso_path: String,
    letter: String,
    /// Where the initrd or the root file system stands.
    path: String,
    ntfs_in_initrd: bool,
    ntfs_in_squashfs: bool,
    compressed: u64,
    result: Option<Result<IsoLayoutInfo, InstallerError>>,
}

/// The state of a look at an image.
pub struct LayoutState {
    pub stage: LayoutStage,
    pub iso_path: Seq<char>,
    pub letter: Seq<char>,
    pub path: Seq<char>,
    pub ntfs_in_initrd: bool,
    pub ntfs_in_squashfs: bool,
    pub compressed: u64,
    pub result: Option<Result<IsoLayoutInfo, (ErrorKind, Seq<char>)>>,
}

impl View for LayoutProbe {
    type V = LayoutState;

    closed spec fn view(&self) -> LayoutState {
        LayoutState {
            stage: self.stage,
            iso_path: self.iso_path@,
            letter: self.letter@,
            path: self.path@,
            ntfs_in_initrd: self.ntfs_in_initrd,
            ntfs_in_squashfs: self.ntfs_in_squashfs,
            compressed: self.compressed,
            result: match self.result {
                Some(Ok(info)) => Some(Ok(info)),
                Some(Err(e)) => Some(Err(e@)),
                None => None,
            },
        }
    }
}

/// The look at the image `iso_path` begins, which was mounted as `letter`.
pub open spec fn layout_start(iso_path: Seq<char>, letter: Seq<char>) -> LayoutState {
    LayoutState {
        stage: LayoutStage::Kernel,
        iso_path,
        letter,
        path: Seq::empty(),
        ntfs_in_initrd: false,
        ntfs_in_squashfs: false,
        compressed: 0,
        result: None,
    }
}

/// What is done at a stage of the look at an image.
pub open spec fn layout_deed(s: LayoutState) -> LayoutDeed {
    match s.stage {
        LayoutStage::Kernel => LayoutDeed::FindKernel(s.letter),
        LayoutStage::Initrd => LayoutDeed::ProbeInitrd(s.path),
        LayoutStage::Squashfs => LayoutDeed::FindSquashfs(s.letter),
        LayoutStage::Module => LayoutDeed::ProbeModule(s.path),
        LayoutStage::Size => LayoutDeed::Stat(s.path),
        LayoutStage::Unpacked => LayoutDeed::Measure(s.path),
        LayoutStage::Unmount => LayoutDeed::Unmount(dismount_text(s.iso_path)),
        LayoutStage::Over => LayoutDeed::Nothing,
    }
}

/// The look at an image failed with the error `e`: the image is unmounted.
pub open spec fn layout_failed(s: LayoutState, e: (ErrorKind, Seq<char>)) -> LayoutState {
    LayoutState { stage: LayoutStage::Unmount, result: Some(Err(e)), ..s }
}

/// The look at an image after an answer. An answer to another stage changes
/// nothing.
pub open spec fn layout_next(s: LayoutState, a: LayoutAnswer) -> LayoutState {
    match (s.stage, a) {
        (LayoutStage::Kernel, LayoutAnswer::Kernel(Ok(k))) => LayoutState {
            stage: LayoutStage::Initrd,
            path: on_drive(trim_end_char(s.letter, ':'), k.1),
            ..s
        },
        (LayoutStage::Kernel, LayoutAnswer::Kernel(Err(e))) => layout_failed(s, e),
        (LayoutStage::Initrd, LayoutAnswer::Flag(Ok(b))) => LayoutState {
            stage: LayoutStage::Squashfs,
            ntfs_in_initrd: b,
            ..s
        },
        (LayoutStage::Initrd, LayoutAnswer::Flag(Err(e))) => layout_failed(s, e),
        (LayoutStage::Squashfs, LayoutAnswer::Path(Ok(p))) => LayoutState {
            stage: LayoutStage::Module,
            path: on_drive(trim_end_char(s.letter, ':'), p),
            ..s
        },
        (LayoutStage::Squashfs, LayoutAnswer::Path(Err(e))) => layout_failed(s, e),
        (LayoutStage::Module, LayoutAnswer::Flag(Ok(b))) => LayoutState {
            stage: LayoutStage::Size,
            ntfs_in_squashfs: b,
            ..s
        },
        (LayoutStage::Module, LayoutAnswer::Flag(Err(e))) => layout_failed(s, e),
        (LayoutStage::Size, LayoutAnswer::Size(Ok(n))) => LayoutState {
            stage: LayoutStage::Unpacked,
            compressed: n,
            ..s
        },
        (LayoutStage::Size, LayoutAnswer::Size(Err(t))) => layout_failed(
            s,
            (ErrorKind::Io, "squashfs stat failed: "@ + t),
        ),
        (LayoutStage::Unpacked, LayoutAnswer::Unpacked(Ok(n))) => LayoutState {
            stage: LayoutStage::Unmount,
            result: Some(
                Ok(
                    IsoLayoutInfo {
                        squashfs_compressed_mb: s.compressed / 0x10_0000,
                        squashfs_uncompressed_mb: n.0 / 0x10_0000,
                        min_root_disk_gb: n.1,
                        suggested_root_disk_gb: n.2,
                        has_uefi_kernel: true,
                        has_ntfs_in_initrd: s.ntfs_in_initrd || s.ntfs_in_squashfs,
                    },
                ),
            ),
            ..s
        },
        (LayoutStage::Unpacked, LayoutAnswer::Unpacked(Err(e))) => layout_failed(s, e),
        (LayoutStage::Unmount, LayoutAnswer::Tried) => LayoutState {
            stage: LayoutStage::Over,
            ..s
        },
        _ => s,
    }
}

impl LayoutProbe {
    /// Begin to look at the image `iso_path`, which was mounted as `letter`.
    pub fn new(iso_path: String, letter: String) -> (r: LayoutProbe)
        ensures
            r@ == layout_start(iso_path@, letter@),
    {
        let path: String = String::new();
        assert(path@ =~= Seq::empty());
        LayoutProbe {
            stage: LayoutStage::Kernel,
            iso_path,
            letter,
            path,
            ntfs_in_initrd: false,
            ntfs_in_squashfs: false,
            compressed: 0,
            result: None,
        }
    }

    /// What is to be done now.
    pub fn action(&self) -> (r: LayoutAction)
        ensures
            r@ == layout_deed(self@),
    {
        match self.stage {
            LayoutStage::Kernel => LayoutAction::FindKernel { letter: self.letter.clone() },
            LayoutStage::Initrd => LayoutAction::ProbeInitrd { path: self.path.clone() },
            LayoutStage::Squashfs => LayoutAction::FindSquashfs { letter: self.letter.clone() },
            LayoutStage::Module => LayoutAction::ProbeModule { path: self.path.clone() },
            LayoutStage::Size => LayoutAction::Stat { path: self.path.clone() },
            LayoutStage::Unpacked => LayoutAction::Measure { path: self.path.clone() },
            LayoutStage::Unmount => LayoutAction::Unmount {
                script: unmount_iso(self.iso_path.as_str()),
            },
            LayoutStage::Over => LayoutAction::Nothing,
        }
    }

    fn fail(&mut self, e: InstallerError)
        ensures
            final(self)@ == layout_failed(old(self)@, e@),
    {
        self.stage = LayoutStage::Unmount;
        self.result = Some(Err(e));
    }

    /// The look goes on after a reply. The first failure ends it, and the image
    /// is unmounted in any case.
    pub fn step(&mut self, reply: LayoutReply)
        ensures
            final(self)@ == layout_next(old(self)@, reply@),
    {
        match (self.stage, reply) {
            (LayoutStage::Kernel, LayoutReply::Kernel(Ok(k))) => {
                self.path = initrd_host_path(self.letter.as_str(), k.initrd_path.as_str());
                self.stage = LayoutStage::Initrd;
            },
            (LayoutStage::Kernel, LayoutReply::Kernel(Err(e))) => {
                self.fail(e);
            },
            (LayoutStage::Initrd, LayoutReply::Flag(Ok(b))) => {
                self.ntfs_in_initrd = b;
                self.stage = LayoutStage::Squashfs;
            },
            (LayoutStage::Initrd, LayoutReply::Flag(Err(e))) => {
                self.fail(e);
            },
            (LayoutStage::Squashfs, LayoutReply::Path(Ok(p))) => {
                self.path = squashfs_host_path(self.letter.as_str(), p.as_str());
                self.stage = LayoutStage::Module;
            },
            (LayoutStage::Squashfs, LayoutReply::Path(Err(e))) => {
                self.fail(e);
            },
            (LayoutStage::Module, LayoutReply::Flag(Ok(b))) => {
                self.ntfs_in_squashfs = b;
                self.stage = LayoutStage::Size;
            },
            (LayoutStage::Module, LayoutReply::Flag(Err(e))) => {
                self.fail(e);
            },
            (LayoutStage::Size, LayoutReply::Size(Ok(n))) => {
                self.compressed = n;
                self.stage = LayoutStage::Unpacked;
            },
            (LayoutStage::Size, LayoutReply::Size(Err(t))) => {
                self.fail(
                    InstallerError::Io("squashfs stat failed: ".to_owned().concat(t.as_str())),
                );
            },
            (LayoutStage::Unpacked, LayoutReply::Unpacked(Ok(n))) => {
                let info = probe_iso_layout(
                    self.compressed,
                    n.0,
                    self.ntfs_in_initrd,
                    self.ntfs_in_squashfs,
                    n.1,
                    n.2,
                );
                self.result = Some(Ok(info));
                self.stage = LayoutStage::Unmount;
            },
            (LayoutStage::Unpacked, LayoutReply::Unpacked(Err(e))) => {
                self.fail(e);
            },
            (LayoutStage::Unmount, LayoutReply::Tried) => {
                self.stage = LayoutStage::Over;
            },
            _ => {},
        }
    }

    /// What came of the look, once the image was unmounted.
    pub fn outcome(self) -> (r: Option<Result<IsoLayoutInfo, InstallerError>>)
        ensures
            self@.stage != LayoutStage::Over ==> r is None,
            self@.stage == LayoutStage::Over ==> match self@.result {
                Some(Ok(info)) => r == Some(Ok::<IsoLayoutInfo, InstallerError>(info)),
                Some(Err(e)) => r is Some && r->Some_0 is Err && r->Some_0->Err_0@ == e,
                None => r is None,
            },
    {
        match self.stage {
            LayoutStage::Over => self.result,
            _ => None,
        }
    }
}

/// The look at an image after some answers.
pub open spec fn layout_after(s: LayoutState, answers: Seq<LayoutAnswer>) -> LayoutState
    decreases answers.len(),
{
    if answers.len() == 0 {
        s
    } else {
        layout_next(layout_after(s, answers.drop_last()), answers.last())
    }
}

/// Whatever the answers are, the look at a mounted image is over only after the
/// image was unmounted, and then there is a result.
pub proof fn looked_at_image_is_unmounted(
    iso_path: Seq<char>,
    letter: Seq<char>,
    answers: Seq<LayoutAnswer>,
)
    requires
        layout_after(layout_start(iso_path, letter), answers).stage == LayoutStage::Over,
    ensures
        exists|i: int|
            0 <= i < answers.len() && #[trigger] answers[i] is Tried && layout_deed(
                layout_after(layout_start(iso_path, letter), answers.take(i)),
            ) == LayoutDeed::Unmount(dismount_text(iso_path)),
        layout_after(layout_start(iso_path, letter), answers).result is Some,
    decreases answers.len(),
{
    let s = layout_start(iso_path, letter);
    let front = answers.drop_last();
    layout_is_sound(iso_path, letter, answers);
    layout_is_sound(iso_path, letter, front);
    if layout_after(s, front).stage == LayoutStage::Over {
        looked_at_image_is_unmounted(iso_path, letter, front);
        let i = choose|i: int|
            0 <= i < front.len() && #[trigger] front[i] is Tried && layout_deed(
                layout_after(s, front.take(i)),
            ) == LayoutDeed::Unmount(dismount_text(iso_path));
        assert(answers[i] == front[i]);
        assert(answers.take(i) =~= front.take(i));
    } else {
        let i = answers.len() - 1;
        assert(answers.take(i) =~= front);
        assert(answers[i] is Tried);
    }
}

proof fn layout_is_sound(iso_path: Seq<char>, letter: Seq<char>, answers: Seq<LayoutAnswer>)
    ensures
        ({
            let s = layout_after(layout_start(iso_path, letter), answers);
            s.iso_path == iso_path && (s.stage == LayoutStage::Unmount || s.stage
                == LayoutStage::Over ==> s.result is Some)
        }),
    decreases answers.len(),
{
    if answers.len() > 0 {
        layout_is_sound(iso_path, letter, answers.drop_last());
    }
}

/// A failure ends the look at a mounted image: nothing but unmounting it comes
/// next, and the error is the result.
pub proof fn failed_look_unmounts_next(s: LayoutState, e: (ErrorKind, Seq<char>))
    ensures
        s.stage == LayoutStage::Kernel ==> layout_next(s, LayoutAnswer::Kernel(Err(e)))
            == layout_failed(s, e),
        s.stage == LayoutStage::Initrd || s.stage == LayoutStage::Module ==> layout_next(
            s,
            LayoutAnswer::Flag(Err(e)),
        ) == layout_failed(s, e),
        s.stage == LayoutStage::Squashfs ==> layout_next(s, LayoutAnswer::Path(Err(e)))
            == layout_failed(s, e),
        s.stage == LayoutStage::Unpacked ==> layout_next(s, LayoutAnswer::Unpacked(Err(e)))
            == layout_failed(s, e),
        layout_deed(layout_failed(s, e)) == LayoutDeed::Unmount(dismount_text(s.iso_path)),
        layout_next(layout_failed(s, e), LayoutAnswer::Tried).result == Some(
            Err::<IsoLayoutInfo, (ErrorKind, Seq<char>)>(e),
        ),
{
}

// ---------------------------------------------------------------------------
// Laws
// ---------------------------------------------------------------------------

proof fn zeros_are_skipped(raw: Seq<u8>, i: int, j: int)
    requires
        0 <= i <= j < raw.len(),
        forall|k: int| i <= k < j ==> #[trigger] raw[k] == 0,
        raw[j] != 0,
    ensures
        data_from(raw, i) == j,
    decreases j - i,
{
    if i < j {
        zeros_are_skipped(raw, i + 1, j);
    }
}

/// Behind the records of any uncompressed archive and any number of zero bytes,
/// a gzipped or zstd-compressed payload is unpacked and looked through.
pub proof fn payload_behind_early_archive_is_scanned(
    early: Seq<u8>,
    pad: nat,
    frame: Seq<u8>,
    payload: Seq<u8>,
)
    requires
        records_end(early, 0) == early.len(),
        payload.len() > 0,
        (begins_gzip(frame) && gunzipped(frame) == Ok::<Seq<u8>, Seq<char>>(payload)) || (
        begins_zstd(frame) && unzstded(frame) == Ok::<Seq<u8>, Seq<char>>(payload)),
    ensures
        payloads(early + zeros(pad) + frame).contains(payload),
        has_ntfs(payload) ==> initrd_has_ntfs(early + zeros(pad) + frame),
{
    let rest = zeros(pad) + frame;
    let raw = early + zeros(pad) + frame;
    assert(raw =~= early + rest);
    assert(!has_prefix(rest, crate::newc::magic())) by {
        if has_prefix(rest, crate::newc::magic()) {
            assert(rest.take(6)[0] == 48u8);
            assert(rest[0] == 48u8);
        }
    }
    crate::newc::records_end_before_rest(early, rest, 0);
    let at = (early.len() + pad) as int;
    assert(raw[at] == frame[0]);
    assert forall|k: int| early.len() <= k < at implies #[trigger] raw[k] == 0 by {
        assert(raw[k] == zeros(pad)[k - early.len()]);
    }
    zeros_are_skipped(raw, early.len() as int, at);
    assert(raw.skip(at) =~= frame);
    let offs = archive_offsets(raw);
    assert(offs[0] == at);
    assert(decoded_from(frame).contains(payload)) by {
        let d = decoded_from(frame);
        if begins_gzip(frame) {
            assert(d[0] == payload);
        } else {
            assert(d[0] == payload);
        }
    }
    first_offset_is_decoded(raw, offs, payload);
    if has_ntfs(payload) {
        let i = choose|i: int| 0 <= i < payloads(raw).len() && payloads(raw)[i] == payload;
        assert(has_ntfs(payloads(raw)[i]));
    }
}

proof fn first_offset_is_decoded(raw: Seq<u8>, at: Seq<int>, b: Seq<u8>)
    requires
        at.len() > 0,
        decoded_from(raw.skip(at[0])).contains(b),
    ensures
        decoded_at(raw, at).contains(b),
    decreases at.len(),
{
    let front = decoded_at(raw, at.drop_last());
    let tail = decoded_from(raw.skip(at.last()));
    if at.len() == 1 {
        let i = choose|i: int| 0 <= i < tail.len() && tail[i] == b;
        assert((front + tail)[front.len() + i] == b);
    } else {
        first_offset_is_decoded(raw, at.drop_last(), b);
        let i = choose|i: int| 0 <= i < front.len() && front[i] == b;
        assert((front + tail)[i] == b);
    }
}

proof fn inner_name_occurs(hay: Seq<u8>, outer: Seq<char>, inner: Seq<char>, at: int)
    requires
        vstd::utf8::is_ascii_chars(outer),
        vstd::utf8::is_ascii_chars(inner),
        0 <= at,
        at + inner.len() <= outer.len(),
        forall|k: int| 0 <= k < inner.len() ==> outer[at + k] == #[trigger] inner[k],
        occurs(hay, encode_utf8(outer)),
    ensures
        occurs(hay, encode_utf8(inner)),
{
    vstd::utf8::is_ascii_chars_encode_utf8(outer);
    vstd::utf8::is_ascii_chars_encode_utf8(inner);
    let o = encode_utf8(outer);
    let n = encode_utf8(inner);
    let i = choose|i: int| #[trigger] occurs_at(hay, o, i);
    assert(hay.subrange(i + at, i + at + n.len()) =~= n) by {
        assert forall|k: int| 0 <= k < n.len() implies hay.subrange(i + at, i + at + n.len())[k]
            == n[k] by {
            assert(hay.subrange(i, i + o.len())[at + k] == o[at + k]);
            assert(outer[at + k] == inner[k]);
        }
    }
    assert(occurs_at(hay, n, i + at));
}

/// A payload has NTFS support exactly where one of five names stands in it: the
/// file name of the kernel module, with or without its number, its directory,
/// or the name of the program that mounts NTFS volumes. Every one of the names
/// that are looked for holds `ntfs`.
pub proof fn ntfs_support_is_told_by_five_names(payload: Seq<u8>)
    ensures
        has_ntfs(payload) <==> occurs(payload, encode_utf8("ntfs3.ko"@)) ||
            occurs(payload, encode_utf8("ntfs.ko"@)) ||
            occurs(payload, encode_utf8("kernel/fs/ntfs"@)) ||
            occurs(payload, encode_utf8("modules/ntfs"@)) ||
            occurs(payload, encode_utf8("ntfs-3g"@)),
        has_ntfs(payload) ==> occurs(payload, encode_utf8("ntfs"@)),
{
    reveal_strlit("ntfs3.ko");
    reveal_strlit("ntfs.ko");
    reveal_strlit("ntfs3.ko.xz");
    reveal_strlit("ntfs3.ko.zst");
    reveal_strlit("ntfs.ko.xz");
    reveal_strlit("kernel/fs/ntfs");
    reveal_strlit("kernel/fs/ntfs3");
    reveal_strlit("modules/ntfs");
    reveal_strlit("modules/ntfs3");
    reveal_strlit("bin/ntfs-3g");
    reveal_strlit("sbin/ntfs-3g");
    reveal_strlit("ntfs-3g");
    reveal_strlit("ntfs");
    if has_ntfs(payload) {
        let i = choose|i: int|
            0 <= i < needles().len() && occurs(payload, encode_utf8(#[trigger] needles()[i]));
        assert(needles().len() == 12);
        if i == 0 {
            inner_name_occurs(payload, "ntfs3.ko"@, "ntfs3.ko"@, 0);
            inner_name_occurs(payload, "ntfs3.ko"@, "ntfs"@, 0);
        }
        if i == 1 {
            inner_name_occurs(payload, "ntfs.ko"@, "ntfs.ko"@, 0);
            inner_name_occurs(payload, "ntfs.ko"@, "ntfs"@, 0);
        }
        if i == 2 {
            inner_name_occurs(payload, "ntfs3.ko.xz"@, "ntfs3.ko"@, 0);
            inner_name_occurs(payload, "ntfs3.ko"@, "ntfs"@, 0);
        }
        if i == 3 {
            inner_name_occurs(payload, "ntfs3.ko.zst"@, "ntfs3.ko"@, 0);
            inner_name_occurs(payload, "ntfs3.ko"@, "ntfs"@, 0);
        }
        if i == 4 {
            inner_name_occurs(payload, "ntfs.ko.xz"@, "ntfs.ko"@, 0);
            inner_name_occurs(payload, "ntfs.ko"@, "ntfs"@, 0);
        }
        if i == 5 {
            inner_name_occurs(payload, "kernel/fs/ntfs"@, "kernel/fs/ntfs"@, 0);
            inner_name_occurs(payload, "kernel/fs/ntfs"@, "ntfs"@, 10);
        }
        if i == 6 {
            inner_name_occurs(payload, "kernel/fs/ntfs3"@, "kernel/fs/ntfs"@, 0);
            inner_name_occurs(payload, "kernel/fs/ntfs"@, "ntfs"@, 10);
        }
        if i == 7 {
            inner_name_occurs(payload, "modules/ntfs"@, "modules/ntfs"@, 0);
            inner_name_occurs(payload, "modules/ntfs"@, "ntfs"@, 8);
        }
        if i == 8 {
            inner_name_occurs(payload, "modules/ntfs3"@, "modules/ntfs"@, 0);
            inner_name_occurs(payload, "modules/ntfs"@, "ntfs"@, 8);
        }
        if i == 9 {
            inner_name_occurs(payload, "bin/ntfs-3g"@, "ntfs-3g"@, 4);
            inner_name_occurs(payload, "ntfs-3g"@, "ntfs"@, 0);
        }
        if i == 10 {
            inner_name_occurs(payload, "sbin/ntfs-3g"@, "ntfs-3g"@, 5);
            inner_name_occurs(payload, "ntfs-3g"@, "ntfs"@, 0);
        }
        if i == 11 {
            inner_name_occurs(payload, "ntfs-3g"@, "ntfs-3g"@, 0);
            inner_name_occurs(payload, "ntfs-3g"@, "ntfs"@, 0);
        }
    }
    assert(needles()[0] == "ntfs3.ko"@);
    assert(needles()[1] == "ntfs.ko"@);
    assert(needles()[5] == "kernel/fs/ntfs"@);
    assert(needles()[7] == "modules/ntfs"@);
    assert(needles()[11] == "ntfs-3g"@);
}

/// A payload in which nowhere the bytes of `n`, `t`, `f` and `s` stand one
/// behind the other has no NTFS support.
pub proof fn payload_without_the_name_has_no_ntfs(payload: Seq<u8>)
    requires
        forall|i: int|
            0 <= i && i + 4 <= payload.len() ==> !((#[trigger] payload[i]) == 110 && payload[i + 1]
                == 116 && payload[i + 2] == 102 && payload[i + 3] == 115),
    ensures
        !has_ntfs(payload),
{
    ntfs_support_is_told_by_five_names(payload);
    if has_ntfs(payload) {
        reveal_strlit("ntfs");
        vstd::utf8::is_ascii_chars_encode_utf8("ntfs"@);
        let n = encode_utf8("ntfs"@);
        let i = choose|i: int| #[trigger] occurs_at(payload, n, i);
        let w = payload.subrange(i, i + 4);
        assert(w[0] == payload[i] && w[1] == payload[i + 1] && w[2] == payload[i + 2] && w[3]
            == payload[i + 3]);
        assert(n[0] == 110 && n[1] == 116 && n[2] == 102 && n[3] == 115);
    }
}

/// A payload that holds another with NTFS support has it too.
pub proof fn longer_payload_has_ntfs_too(a: Seq<u8>, payload: Seq<u8>, b: Seq<u8>)
    requires
        has_ntfs(payload),
    ensures
        has_ntfs(a + payload + b),
{
    let i = choose|i: int|
        0 <= i < needles().len() && occurs(payload, encode_utf8(#[trigger] needles()[i]));
    longer_texts_hold_as_much(a, payload, b, encode_utf8(needles()[i]));
}

/// The last slash of `path` stands at `p`.
pub open spec fn is_last_slash(path: Seq<char>, p: int) -> bool {
    0 <= p < path.len() && path[p] == '/' && forall|q: int|
        p < q < path.len() ==> #[trigger] path[q] != '/'
}

/// At every likely path the kernel and its initrd lie in one directory, the file
/// name of the kernel, behind the last slash, begins with `vmlinuz`, and that of
/// the initrd begins with `initrd`.
pub proof fn likely_paths_name_a_kernel_and_its_initrd(found: Seq<(bool, bool)>, i: int)
    requires
        known_kernel_at(found, i),
    ensures
        exists|p: int, q: int| #[trigger]
            is_last_slash(kernel_paths()[i].0, p) && #[trigger] is_last_slash(
                kernel_paths()[i].1,
                q,
            ) && has_prefix(kernel_paths()[i].0.skip(p + 1), "vmlinuz"@) && has_prefix(
                kernel_paths()[i].1.skip(q + 1),
                "initrd"@,
            ) && kernel_paths()[i].0.take(p) == kernel_paths()[i].1.take(q),
{
    reveal_strlit("boot/initrd.img");
    reveal_strlit("boot/vmlinuz");
    reveal_strlit("casper/initrd");
    reveal_strlit("casper/initrd.gz");
    reveal_strlit("casper/initrd.lz");
    reveal_strlit("casper/vmlinuz");
    reveal_strlit("live/initrd");
    reveal_strlit("live/initrd.img");
    reveal_strlit("live/vmlinuz");
    reveal_strlit("vmlinuz");
    reveal_strlit("initrd");
    let paths = kernel_paths()[i];
    assert(kernel_paths().len() == 6);
    if i == 0 {
        assert(paths.0 == "live/vmlinuz"@ && paths.1 == "live/initrd.img"@);
        assert(is_last_slash(paths.0, 4));
        assert(is_last_slash(paths.1, 4));
        assert(paths.0.skip(5).take(7) =~= "vmlinuz"@);
        assert(paths.1.skip(5).take(6) =~= "initrd"@);
        assert(paths.0.take(4) =~= paths.1.take(4));
    }
    if i == 1 {
        assert(paths.0 == "live/vmlinuz"@ && paths.1 == "live/initrd"@);
        assert(is_last_slash(paths.0, 4));
        assert(is_last_slash(paths.1, 4));
        assert(paths.0.skip(5).take(7) =~= "vmlinuz"@);
        assert(paths.1.skip(5).take(6) =~= "initrd"@);
        assert(paths.0.take(4) =~= paths.1.take(4));
    }
    if i == 2 {
        assert(paths.0 == "casper/vmlinuz"@ && paths.1 == "casper/initrd"@);
        assert(is_last_slash(paths.0, 6));
        assert(is_last_slash(paths.1, 6));
        assert(paths.0.skip(7).take(7) =~= "vmlinuz"@);
        assert(paths.1.skip(7).take(6) =~= "initrd"@);
        assert(paths.0.take(6) =~= paths.1.take(6));
    }
    if i == 3 {
        assert(paths.0 == "casper/vmlinuz"@ && paths.1 == "casper/initrd.lz"@);
        assert(is_last_slash(paths.0, 6));
        assert(is_last_slash(paths.1, 6));
        assert(paths.0.skip(7).take(7) =~= "vmlinuz"@);
        assert(paths.1.skip(7).take(6) =~= "initrd"@);
        assert(paths.0.take(6) =~= paths.1.take(6));
    }
    if i == 4 {
        assert(paths.0 == "casper/vmlinuz"@ && paths.1 == "casper/initrd.gz"@);
        assert(is_last_slash(paths.0, 6));
        assert(is_last_slash(paths.1, 6));
        assert(paths.0.skip(7).take(7) =~= "vmlinuz"@);
        assert(paths.1.skip(7).take(6) =~= "initrd"@);
        assert(paths.0.take(6) =~= paths.1.take(6));
    }
    if i == 5 {
        assert(paths.0 == "boot/vmlinuz"@ && paths.1 == "boot/initrd.img"@);
        assert(is_last_slash(paths.0, 4));
        assert(is_last_slash(paths.1, 4));
        assert(paths.0.skip(5).take(7) =~= "vmlinuz"@);
        assert(paths.1.skip(5).take(6) =~= "initrd"@);
        assert(paths.0.take(4) =~= paths.1.take(4));
    }
}

proof fn listed_files_end_in_their_names(es: Seq<Entry>, dir: Seq<char>, depth: nat, limit: nat)
    ensures
        forall|k: int|
            0 <= k < files_under(es, dir, depth, limit).len() ==> has_suffix(
                (#[trigger] files_under(es, dir, depth, limit)[k]).1,
                slashed(files_under(es, dir, depth, limit)[k].0),
            ),
    decreases limit + 1 - depth, es.len(),
{
    if depth <= limit && es.len() > 0 {
        let path = path_in(dir, es[0].name@);
        let rest = files_under(es.skip(1), dir, depth, limit);
        listed_files_end_in_their_names(es.skip(1), dir, depth, limit);
        let first = match es[0].node {
            Node::File => seq![(es[0].name@, slashed(path))],
            Node::Dir(sub) => files_under(sub@, path, depth + 1, limit),
            Node::Other => Seq::empty(),
        };
        match es[0].node {
            Node::File => {
                if dir.len() > 0 {
                    replacing_in_joined_texts(dir + "/"@, es[0].name@, '\\', "/"@);
                }
                let head = slashed(dir + "/"@);
                let name = slashed(es[0].name@);
                if dir.len() > 0 {
                    assert((head + name).skip(head.len() as int) =~= name);
                } else {
                    assert(name.skip(0) =~= name);
                }
                assert(has_suffix(first[0].1, slashed(first[0].0)));
            },
            Node::Dir(sub) => {
                listed_files_end_in_their_names(sub@, path, depth + 1, limit);
            },
            Node::Other => {},
        }
        let all = files_under(es, dir, depth, limit);
        assert(all == first + rest);
        assert forall|k: int| 0 <= k < all.len() implies has_suffix(
            (#[trigger] all[k]).1,
            slashed(all[k].0),
        ) by {
            if k < first.len() {
                assert(all[k] == first[k]);
            } else {
                assert(all[k] == rest[k - first.len()]);
            }
        }
    }
}

/// What a walk over the image finds is the path of a file whose name, in small
/// letters, begins with `vmlinuz`, and the path of one whose name begins with
/// `initrd` or `initramfs`; either path ends in that name.
pub proof fn walk_finds_a_kernel_and_an_initrd(root: Seq<Entry>)
    requires
        walked_kernel(root) is Some,
    ensures
        exists|n: Seq<char>|
            has_prefix(lowercased(n), "vmlinuz"@) && has_suffix(
                walked_kernel(root)->Some_0.0,
                #[trigger] slashed(n),
            ),
        exists|n: Seq<char>|
            (has_prefix(lowercased(n), "initrd"@) || has_prefix(lowercased(n), "initramfs"@))
                && has_suffix(walked_kernel(root)->Some_0.1, #[trigger] slashed(n)),
{
    let fs = files_under(root, ""@, 0, SEARCH_DEPTH as nat);
    let kern = |n: Seq<char>| is_kernel_name(n);
    let init = |n: Seq<char>| is_initrd_name(n);
    listed_files_end_in_their_names(root, ""@, 0, SEARCH_DEPTH as nat);
    first_path_is_first(fs, kern);
    first_path_is_first(fs, init);
    let k = choose|k: int|
        0 <= k < fs.len() && kern(fs[k].0) && (#[trigger] fs[k]).1 == walked_kernel(root)->Some_0.0;
    let i = choose|i: int|
        0 <= i < fs.len() && init(fs[i].0) && (#[trigger] fs[i]).1 == walked_kernel(root)->Some_0.1;
    assert(has_suffix(fs[k].1, slashed(fs[k].0)));
    assert(has_suffix(fs[i].1, slashed(fs[i].0)));
}

/// The places of the volume descriptor are one byte into the sectors 16, 17 and
/// 18 of 2048 bytes each.
pub proof fn descriptors_stand_in_the_first_sectors_behind_the_system_area(i: int)
    requires
        0 <= i < descriptor_offsets().len(),
    ensures
        descriptor_offsets().len() == 3,
        descriptor_offsets()[i] == (16 + i) * 2048 + 1,
{
}

/// An image is refused as an archive exactly where it begins with `Rar!` and
/// the three or four bytes behind it, `7z` and two bytes behind it, or `PK` and
/// two bytes behind it, and nothing that comes later in the file matters.
pub proof fn archives_are_told_by_their_first_bytes(head: Seq<u8>, more: Seq<u8>)
    ensures
        begins_like_archive(head) <==> {
            ||| head.len() >= 7 && head[0] == 0x52 && head[1] == 0x61 && head[2] == 0x72 && head[3]
                == 0x21 && head[4] == 0x1a && head[5] == 0x07 && (head[6] == 0x00 || (head.len() >= 8
                && head[6] == 0x01 && head[7] == 0x00))
            ||| head.len() >= 4 && head[0] == 0x37 && head[1] == 0x7a && head[2] == 0xbc && head[3]
                == 0xaf
            ||| head.len() >= 4 && head[0] == 0x50 && head[1] == 0x4b && head[2] == 0x03 && head[3]
                == 0x04
        },
        begins_like_archive(head) ==> begins_like_archive(head + more),
        head.len() >= 8 ==> (begins_like_archive(head + more) <==> begins_like_archive(head)),
{
    let rar4 = seq![0x52u8, 0x61, 0x72, 0x21, 0x1a, 0x07, 0x00];
    let rar5 = seq![0x52u8, 0x61, 0x72, 0x21, 0x1a, 0x07, 0x01, 0x00];
    let seven = seq![0x37u8, 0x7a, 0xbc, 0xaf];
    let zip = seq![0x50u8, 0x4b, 0x03, 0x04];
    bytes_at_the_beginning(head, rar4);
    bytes_at_the_beginning(head, rar5);
    bytes_at_the_beginning(head, seven);
    bytes_at_the_beginning(head, zip);
    bytes_at_the_beginning(head + more, rar4);
    bytes_at_the_beginning(head + more, rar5);
    bytes_at_the_beginning(head + more, seven);
    bytes_at_the_beginning(head + more, zip);
}

proof fn bytes_at_the_beginning(s: Seq<u8>, p: Seq<u8>)
    ensures
        has_prefix(s, p) <==> s.len() >= p.len() && forall|k: int|
            0 <= k < p.len() ==> s[k] == #[trigger] p[k],
{
    if s.len() >= p.len() && (forall|k: int| 0 <= k < p.len() ==> s[k] == #[trigger] p[k]) {
        assert(s.take(p.len() as int) =~= p);
    }
    if has_prefix(s, p) {
        assert forall|k: int| 0 <= k < p.len() implies s[k] == #[trigger] p[k] by {
            assert(s.take(p.len() as int)[k] == p[k]);
        }
    }
}

/// A file that does not begin like an archive is an image exactly where the
/// five bytes of `CD001` were read at one of the places that were looked at; to
/// look at more places never turns an image down.
pub proof fn images_carry_the_mark_of_a_volume_descriptor(
    marks: Seq<Option<Vec<u8>>>,
    more: Seq<Option<Vec<u8>>>,
)
    ensures
        has_descriptor(marks) <==> exists|i: int|
            0 <= i < marks.len() && (#[trigger] marks[i]) is Some && marks[i]->Some_0@.len() == 5
                && marks[i]->Some_0@[0] == 67 && marks[i]->Some_0@[1] == 68 && marks[i]->Some_0@[2]
                == 48 && marks[i]->Some_0@[3] == 48 && marks[i]->Some_0@[4] == 49,
        has_descriptor(marks + more) <==> has_descriptor(marks) || has_descriptor(more),
{
    assert forall|b: Seq<u8>|
        b == cd001() <==> b.len() == 5 && b[0] == 67 && b[1] == 68 && b[2] == 48 && b[3] == 48
            && b[4] == 49 by {
        if b.len() == 5 && b[0] == 67 && b[1] == 68 && b[2] == 48 && b[3] == 48 && b[4] == 49 {
            assert(b =~= cd001());
        }
    }
    if has_descriptor(marks) {
        let i = choose|i: int| 0 <= i < marks.len() && is_descriptor(#[trigger] marks[i]);
        assert(marks[i]->Some_0@ == cd001());
        assert((marks + more)[i] == marks[i]);
    }
    if has_descriptor(more) {
        let i = choose|i: int| 0 <= i < more.len() && is_descriptor(#[trigger] more[i]);
        assert((marks + more)[marks.len() + i] == more[i]);
    }
    if has_descriptor(marks + more) {
        let i = choose|i: int| 0 <= i < (marks + more).len() && is_descriptor(
            #[trigger] (marks + more)[i],
        );
        if i < marks.len() {
            assert(is_descriptor(marks[i]));
        } else {
            assert(is_descriptor(more[i - marks.len()]));
        }
    }
    if exists|i: int|
        0 <= i < marks.len() && (#[trigger] marks[i]) is Some && marks[i]->Some_0@.len() == 5
            && marks[i]->Some_0@[0] == 67 && marks[i]->Some_0@[1] == 68 && marks[i]->Some_0@[2] == 48
            && marks[i]->Some_0@[3] == 48 && marks[i]->Some_0@[4] == 49 {
        let i = choose|i: int|
            0 <= i < marks.len() && (#[trigger] marks[i]) is Some && marks[i]->Some_0@.len() == 5
                && marks[i]->Some_0@[0] == 67 && marks[i]->Some_0@[1] == 68 && marks[i]->Some_0@[2]
                == 48 && marks[i]->Some_0@[3] == 48 && marks[i]->Some_0@[4] == 49;
        assert(marks[i]->Some_0@ == cd001());
        assert(is_descriptor(marks[i]));
    }
}

/// A path on the drive of an image is the letter, a colon and a backslash, and
/// then the path in the image with every slash made a backslash and every other
/// character as it is.
pub proof fn path_on_the_drive_keeps_its_names(letter: Seq<char>, rel: Seq<char>)
    ensures
        on_drive(letter, rel).len() == letter.len() + 2 + rel.len(),
        on_drive(letter, rel).take(letter.len() as int) == letter,
        on_drive(letter, rel)[letter.len() as int] == ':',
        on_drive(letter, rel)[letter.len() as int + 1] == '\\',
        forall|k: int|
            0 <= k < rel.len() ==> on_drive(letter, rel)[letter.len() + 2 + k] == (if #[trigger] rel[k]
                == '/' {
                '\\'
            } else {
                rel[k]
            }),
{
    reveal_strlit(":\\");
    reveal_strlit("\\");
    replacing_by_one_character(rel, '/', '\\');
    assert("\\"@ =~= seq!['\\']);
    let r = on_drive(letter, rel);
    assert(r.take(letter.len() as int) =~= letter);
}

/// The kinds of a failed mount: it is told as a locked image exactly where one
/// of four phrases stands in the text, in capital or small letters.
pub proof fn locked_images_are_told_by_four_phrases(detail: Seq<char>)
    ensures
        says_locked(detail) <==> exists|i: int, j: int|
            #![trigger detail.subrange(i, j)]
            0 <= i <= j <= detail.len() && (lowered(detail.subrange(i, j)) == "being used"@
                || lowered(detail.subrange(i, j)) == "in use"@ || lowered(detail.subrange(i, j))
                == "cannot access"@ || lowered(detail.subrange(i, j)) == "denied"@),
{
    let low = lowered(detail);
    assert forall|i: int, j: int| 0 <= i <= j <= detail.len() implies low.subrange(i, j)
        == lowered(#[trigger] detail.subrange(i, j)) by {
        assert(low.subrange(i, j) =~= lowered(detail.subrange(i, j)));
    }
    phrase_in_small_letters(detail, "being used"@);
    phrase_in_small_letters(detail, "in use"@);
    phrase_in_small_letters(detail, "cannot access"@);
    phrase_in_small_letters(detail, "denied"@);
}

proof fn phrase_in_small_letters(detail: Seq<char>, p: Seq<char>)
    ensures
        occurs(lowered(detail), p) <==> exists|i: int, j: int|
            #![trigger detail.subrange(i, j)]
            0 <= i <= j <= detail.len() && lowered(detail.subrange(i, j)) == p,
{
    let low = lowered(detail);
    if occurs(low, p) {
        let i = choose|i: int| #[trigger] occurs_at(low, p, i);
        assert(low.subrange(i, i + p.len()) =~= lowered(detail.subrange(i, i + p.len())));
    }
    if exists|i: int, j: int|
        #![trigger detail.subrange(i, j)]
        0 <= i <= j <= detail.len() && lowered(detail.subrange(i, j)) == p {
        let (i, j) = choose|i: int, j: int|
            #![trigger detail.subrange(i, j)]
            0 <= i <= j <= detail.len() && lowered(detail.subrange(i, j)) == p;
        assert(low.subrange(i, j) =~= lowered(detail.subrange(i, j)));
        assert(p.len() == j - i);
        assert(occurs_at(low, p, i));
    }
}

/// A drive letter is one character, and it is one of the codes of `A` to `Z` or
/// of `a` to `z`.
pub proof fn drive_letters_are_latin_letters(s: Seq<char>, c: char)
    ensures
        is_letter(s) ==> s.len() == 1,
        is_letter(seq![c]) <==> 65 <= c as u32 <= 90 || 97 <= c as u32 <= 122,
{
}

/// What is looked through for an initrd is the initrd itself and everything
/// that was unpacked from it, each once and nothing else.
pub proof fn every_payload_is_looked_through_once(l: Seq<Seq<u8>>)
    ensures
        distinct(l).no_duplicates(),
        forall|b: Seq<u8>| #[trigger] distinct(l).contains(b) <==> l.contains(b),
    decreases l.len(),
{
    distinct_keeps_all(l);
    if l.len() > 0 {
        let front = distinct(l.drop_last());
        every_payload_is_looked_through_once(l.drop_last());
        if !front.contains(l.last()) {
            let all = front.push(l.last());
            assert forall|i: int, j: int| 0 <= i < all.len() && 0 <= j < all.len() && i != j implies all[i]
                != all[j] by {
                if i == front.len() {
                    assert(front.contains(front[j]));
                } else if j == front.len() {
                    assert(front.contains(front[i]));
                }
            }
        }
    }
}

proof fn first_frame_is_found(raw: Seq<u8>, from: int, i: int)
    requires
        0 <= from <= i,
        i + 4 < raw.len(),
        frame_at(raw, i),
        forall|j: int| from <= j < i ==> !#[trigger] frame_at(raw, j),
    ensures
        frame_from(raw, from) == Some(i),
    decreases i - from,
{
    if from < i {
        assert(!frame_at(raw, from));
        first_frame_is_found(raw, from + 1, i);
    }
}

/// Wherever the first gzip or zstd frame of an initrd begins, what is unpacked
/// from there is looked through, whatever comes before it, as long as four
/// bytes come behind its first one.
pub proof fn first_frame_is_scanned(raw: Seq<u8>, i: int, payload: Seq<u8>)
    requires
        0 <= i,
        i + 4 < raw.len(),
        payload.len() > 0,
        (raw[i] == 0x1f && raw[i + 1] == 0x8b && gunzipped(raw.skip(i)) == Ok::<
            Seq<u8>,
            Seq<char>,
        >(payload)) || (raw[i] == 0x28 && raw[i + 1] == 0xb5 && raw[i + 2] == 0x2f && raw[i + 3]
            == 0xfd && unzstded(raw.skip(i)) == Ok::<Seq<u8>, Seq<char>>(payload)),
        forall|j: int|
            0 <= j < i ==> !((#[trigger] raw[j]) == 0x1f && raw[j + 1] == 0x8b) && !(raw[j] == 0x28
                && raw[j + 1] == 0xb5 && raw[j + 2] == 0x2f && raw[j + 3] == 0xfd),
    ensures
        payloads(raw).contains(payload),
        has_ntfs(payload) ==> initrd_has_ntfs(raw),
{
    let chunk = raw.skip(i);
    assert(chunk[0] == raw[i] && chunk[1] == raw[i + 1] && chunk[2] == raw[i + 2] && chunk[3]
        == raw[i + 3]);
    assert forall|j: int| 0 <= j < i implies !#[trigger] frame_at(raw, j) by {
        let c = raw.skip(j);
        assert(c[0] == raw[j] && c[1] == raw[j + 1] && c[2] == raw[j + 2] && c[3] == raw[j + 3]);
    }
    first_frame_is_found(raw, 0, i);
    let offs = archive_offsets(raw);
    assert(offs.last() == i);
    let d = decoded_from(chunk);
    assert(d.contains(payload)) by {
        assert(d[0] == payload);
    }
    let front = decoded_at(raw, offs.drop_last());
    let k = choose|k: int| 0 <= k < d.len() && d[k] == payload;
    assert((front + d)[front.len() + k] == payload);
    assert(payloads(raw) == front + d);
    if has_ntfs(payload) {
        let n = choose|n: int| 0 <= n < payloads(raw).len() && payloads(raw)[n] == payload;
        assert(has_ntfs(payloads(raw)[n]));
    }
}

proof fn data_begins_in_the_file(raw: Seq<u8>, i: int)
    requires
        0 <= i,
    ensures
        data_from(raw, i) >= i,
    decreases raw.len() - i,
{
    if i < raw.len() && raw[i] == 0 {
        data_begins_in_the_file(raw, i + 1);
    }
}

proof fn frames_lie_in_the_file(raw: Seq<u8>, i: int)
    requires
        0 <= i,
    ensures
        frame_from(raw, i) matches Some(k) ==> i <= k && k + 4 < raw.len() && frame_at(raw, k),
    decreases raw.len() - i,
{
    if i + 4 < raw.len() && !frame_at(raw, i) {
        frames_lie_in_the_file(raw, i + 1);
    }
}

proof fn payloads_come_from_frames(raw: Seq<u8>, at: Seq<int>, b: Seq<u8>)
    requires
        decoded_at(raw, at).contains(b),
    ensures
        exists|k: int|
            0 <= k < at.len() && decoded_from(raw.skip(#[trigger] at[k])).contains(b),
    decreases at.len(),
{
    if at.len() > 0 {
        let front = decoded_at(raw, at.drop_last());
        let tail = decoded_from(raw.skip(at.last()));
        let i = choose|i: int| 0 <= i < (front + tail).len() && (front + tail)[i] == b;
        if i < front.len() {
            assert(front[i] == b);
            payloads_come_from_frames(raw, at.drop_last(), b);
            let k = choose|k: int|
                0 <= k < at.drop_last().len() && decoded_from(
                    raw.skip(#[trigger] at.drop_last()[k]),
                ).contains(b);
            assert(at[k] == at.drop_last()[k]);
        } else {
            assert(tail[i - front.len()] == b);
            assert(at[at.len() - 1] == at.last());
        }
    }
}

/// Everything that is looked through besides the initrd itself was unpacked from
/// a gzip member or from zstd frames that begin somewhere in the initrd, and is
/// not empty.
pub proof fn nothing_but_unpacked_frames_is_scanned(raw: Seq<u8>, b: Seq<u8>)
    requires
        payloads(raw).contains(b),
    ensures
        b.len() > 0,
        exists|i: int|
            0 <= i < raw.len() && (gunzipped(#[trigger] raw.skip(i)) == Ok::<Seq<u8>, Seq<char>>(b)
                || unzstded(raw.skip(i)) == Ok::<Seq<u8>, Seq<char>>(b)),
{
    let at = archive_offsets(raw);
    payloads_come_from_frames(raw, at, b);
    let k = choose|k: int|
        0 <= k < at.len() && decoded_from(raw.skip(#[trigger] at[k])).contains(b);
    records_end_grows(raw, 0);
    data_begins_in_the_file(raw, early_end(raw));
    frames_lie_in_the_file(raw, 0);
    let chunk = raw.skip(at[k]);
    let d = decoded_from(chunk);
    let n = choose|n: int| 0 <= n < d.len() && d[n] == b;
    assert(content_of(gunzipped(chunk)) == Some(b) || content_of(unzstded(chunk)) == Some(b));
}

/// Where every answer is good, the look at a mounted image asks for the kernel,
/// the initrd, the root file system, the module, and the two sizes, one after
/// the other, unmounts the image, and ends with what the answers say: sizes in
/// units of 1048576 bytes, and NTFS support from either place.
pub proof fn good_answers_give_the_whole_layout(
    iso_path: Seq<char>,
    letter: Seq<char>,
    kernel: (Seq<char>, Seq<char>),
    in_initrd: bool,
    squashfs: Seq<char>,
    in_squashfs: bool,
    compressed: u64,
    sizes: (u64, u32, u32),
)
    ensures
        ({
            let a = layout_start(iso_path, letter);
            let b = layout_next(a, LayoutAnswer::Kernel(Ok(kernel)));
            let c = layout_next(b, LayoutAnswer::Flag(Ok(in_initrd)));
            let d = layout_next(c, LayoutAnswer::Path(Ok(squashfs)));
            let e = layout_next(d, LayoutAnswer::Flag(Ok(in_squashfs)));
            let f = layout_next(e, LayoutAnswer::Size(Ok(compressed)));
            let g = layout_next(f, LayoutAnswer::Unpacked(Ok(sizes)));
            let h = layout_next(g, LayoutAnswer::Tried);
            let drive = trim_end_char(letter, ':');
            &&& layout_deed(a) == LayoutDeed::FindKernel(letter)
            &&& layout_deed(b) == LayoutDeed::ProbeInitrd(on_drive(drive, kernel.1))
            &&& layout_deed(c) == LayoutDeed::FindSquashfs(letter)
            &&& layout_deed(d) == LayoutDeed::ProbeModule(on_drive(drive, squashfs))
            &&& layout_deed(e) == LayoutDeed::Stat(on_drive(drive, squashfs))
            &&& layout_deed(f) == LayoutDeed::Measure(on_drive(drive, squashfs))
            &&& layout_deed(g) == LayoutDeed::Unmount(dismount_text(iso_path))
            &&& layout_deed(h) == LayoutDeed::Nothing
            &&& h.result is Some && h.result->Some_0 is Ok
            &&& ({
                let info = h.result->Some_0->Ok_0;
                &&& info.squashfs_compressed_mb * 1048576 <= compressed
                &&& compressed < (info.squashfs_compressed_mb + 1) * 1048576
                &&& info.squashfs_uncompressed_mb * 1048576 <= sizes.0
                &&& sizes.0 < (info.squashfs_uncompressed_mb + 1) * 1048576
                &&& info.min_root_disk_gb == sizes.1
                &&& info.suggested_root_disk_gb == sizes.2
                &&& info.has_uefi_kernel
                &&& info.has_ntfs_in_initrd <==> in_initrd || in_squashfs
            })
        }),
{
}

/// The image is searched five directories deep: a file in five directories, one
/// in the other, is met, and one in a sixth is not.
pub proof fn image_is_searched_five_directories_deep(
    a: Entry,
    b: Entry,
    c: Entry,
    d: Entry,
    e: Entry,
    f: Entry,
    file: Entry,
)
    requires
        a.node matches Node::Dir(s) && s@ == seq![b],
        b.node matches Node::Dir(s) && s@ == seq![c],
        c.node matches Node::Dir(s) && s@ == seq![d],
        d.node matches Node::Dir(s) && s@ == seq![e],
        e.node matches Node::Dir(s) && (s@ == seq![file] || s@ == seq![f]),
        f.node matches Node::Dir(s) && s@ == seq![file],
        file.node is File,
    ensures
        ({
            let fs = files_under(seq![a], ""@, 0, SEARCH_DEPTH as nat);
            let inner = e.node->Dir_0@;
            &&& inner == seq![file] ==> fs.len() == 1 && fs[0].0 == file.name@
            &&& inner == seq![f] ==> fs.len() == 0
        }),
{
    let lim = SEARCH_DEPTH as nat;
    one_entry_is_listed_by_its_kind(a, ""@, 0, lim);
    let p1 = path_in(""@, a.name@);
    one_entry_is_listed_by_its_kind(b, p1, 1, lim);
    let p2 = path_in(p1, b.name@);
    one_entry_is_listed_by_its_kind(c, p2, 2, lim);
    let p3 = path_in(p2, c.name@);
    one_entry_is_listed_by_its_kind(d, p3, 3, lim);
    let p4 = path_in(p3, d.name@);
    one_entry_is_listed_by_its_kind(e, p4, 4, lim);
    let p5 = path_in(p4, e.name@);
    one_entry_is_listed_by_its_kind(file, p5, 5, lim);
    one_entry_is_listed_by_its_kind(f, p5, 5, lim);
    let p6 = path_in(p5, f.name@);
    one_entry_is_listed_by_its_kind(file, p6, 6, lim);
}

/// What a walk over the image takes for the root file system is a file whose
/// name, in small letters, ends in `.squashfs` or is `airootfs.sfs` or
/// `squashfs.img`, and so are the files at the likely paths.
pub proof fn root_file_system_is_told_by_its_name(root: Seq<Entry>)
    ensures
        first_path(
            files_under(root, ""@, 0, SEARCH_DEPTH as nat),
            |n: Seq<char>| is_squashfs_name(n),
        ) matches Some(p) ==> exists|n: Seq<char>|
            (has_suffix(lowercased(n), ".squashfs"@) || lowercased(n) == "airootfs.sfs"@
                || lowercased(n) == "squashfs.img"@) && has_suffix(p, #[trigger] slashed(n)),
        squashfs_paths() == seq![
            "live/filesystem.squashfs"@,
            "casper/filesystem.squashfs"@,
            "LiveOS/squashfs.img"@,
            "arch/x86_64/airootfs.sfs"@,
        ],
{
    let fs = files_under(root, ""@, 0, SEARCH_DEPTH as nat);
    let want = |n: Seq<char>| is_squashfs_name(n);
    listed_files_end_in_their_names(root, ""@, 0, SEARCH_DEPTH as nat);
    first_path_is_first(fs, want);
    if first_path(fs, want) is Some {
        let k = choose|k: int|
            0 <= k < fs.len() && want(fs[k].0) && (#[trigger] fs[k]).1 == first_path(
                fs,
                want,
            )->Some_0;
        assert(has_suffix(fs[k].1, slashed(fs[k].0)));
    }
}

/// The script that mounts an image answers with the drive letter that its volume
/// got, and fails where it got none.
pub proof fn mounting_answers_with_the_drive_letter()
    ensures
        occurs(MOUNT_SCRIPT_TAIL@, "$img = Mount-DiskImage -ImagePath $path -PassThru -ErrorAction Stop"@),
        occurs(MOUNT_SCRIPT_TAIL@, "if ($vol -and $vol.DriveLetter) { $letter = $vol.DriveLetter; break }"@),
        occurs(MOUNT_SCRIPT_TAIL@, "if ($letter) { $letter }\n        else { throw \"MOUNT_FAIL:ISO mounted but no drive letter assigned\" }"@),
{
    reveal_strlit(
        r#"'
        try {
            $img = Mount-DiskImage -ImagePath $path -PassThru -ErrorAction Stop
        } catch {
            throw ("MOUNT_FAIL:" + $_.Exception.Message)
        }
        $letter = $null
        for ($i = 0; $i -lt 40; $i++) {
            $vol = $img | Get-Volume -ErrorAction SilentlyContinue
            if ($vol -and $vol.DriveLetter) { $letter = $vol.DriveLetter; break }
            Start-Sleep -Milliseconds 250
        }
        if ($letter) { $letter }
        else { throw "MOUNT_FAIL:ISO mounted but no drive letter assigned" }
        "#,
    );
    reveal_strlit("$img = Mount-DiskImage -ImagePath $path -PassThru -ErrorAction Stop");
    assert(MOUNT_SCRIPT_TAIL@.subrange(28, 95) =~= "$img = Mount-DiskImage -ImagePath $path -PassThru -ErrorAction Stop"@);
    assert(occurs_at(MOUNT_SCRIPT_TAIL@, "$img = Mount-DiskImage -ImagePath $path -PassThru -ErrorAction Stop"@, 28));
    reveal_strlit("if ($vol -and $vol.DriveLetter) { $letter = $vol.DriveLetter; break }");
    assert(MOUNT_SCRIPT_TAIL@.subrange(324, 393) =~= "if ($vol -and $vol.DriveLetter) { $letter = $vol.DriveLetter; break }"@);
    assert(occurs_at(MOUNT_SCRIPT_TAIL@, "if ($vol -and $vol.DriveLetter) { $letter = $vol.DriveLetter; break }"@, 324));
    reveal_strlit("if ($letter) { $letter }\n        else { throw \"MOUNT_FAIL:ISO mounted but no drive letter assigned\" }");
    assert(MOUNT_SCRIPT_TAIL@.subrange(454, 555) =~= "if ($letter) { $letter }\n        else { throw \"MOUNT_FAIL:ISO mounted but no drive letter assigned\" }"@);
    assert(occurs_at(MOUNT_SCRIPT_TAIL@, "if ($letter) { $letter }\n        else { throw \"MOUNT_FAIL:ISO mounted but no drive letter assigned\" }"@, 454));
}

/// An image is mounted only after it was found, has the ending of an image, did
/// not begin like an archive, carried the mark of a volume descriptor, and an
/// earlier mount of it was undone; and it counts as mounted only where the answer
/// is one letter of the Latin alphabet, but for white space around it. Where each
/// of these holds, mounting goes on.
pub proof fn image_is_mounted_only_after_it_was_looked_at(
    path: Seq<char>,
    event: MountEvent,
    r: Result<MountAction, InstallerError>,
)
    requires
        follows_in_mount(path, event, r),
    ensures
        r is Ok && r->Ok_0 is Inspect <==> (event matches MountEvent::Looked { exists } && exists
            && has_suffix(lowercased(path), ".iso"@)),
        r is Ok && r->Ok_0 is Unmount <==> (event matches MountEvent::Inspected { content: Ok(c) }
            && !begins_like_archive(c.0@) && has_descriptor(c.1@)),
        r is Ok && r->Ok_0 is Mount <==> event is Unmounted,
        r is Ok && r->Ok_0 is Mounted <==> (event matches MountEvent::Answered { reply: Ok(out) }
            && trimmed(out@).len() == 1 && (('a' <= trimmed(out@)[0] && trimmed(out@)[0] <= 'z') || (
        'A' <= trimmed(out@)[0] && trimmed(out@)[0] <= 'Z'))),
        r matches Ok(MountAction::Mounted { letter }) ==> (event matches MountEvent::Answered {
            reply: Ok(out),
        } && letter@ == trimmed(out@)),
        r matches Ok(MountAction::Unmount { script }) ==> script@
            == "Dismount-DiskImage -ImagePath '"@ + ps_quoted(path)
            + "' -ErrorAction SilentlyContinue"@,
        event matches MountEvent::Looked { exists } ==> (!exists ==> r is Err && r->Err_0@ == (
            ErrorKind::InvalidInput,
            "ERR_ISO_NOT_FOUND"@ + seq!['|'] + "path"@ + seq!['='] + path,
        )) && (exists && !has_suffix(lowercased(path), ".iso"@) ==> r is Err && r->Err_0@ == (
            ErrorKind::InvalidInput,
            "ERR_NOT_ISO"@,
        )),
        event matches MountEvent::Inspected { content: Ok(c) } ==> (begins_like_archive(c.0@)
            ==> r is Err && r->Err_0@ == (ErrorKind::InvalidInput, "ERR_ISO_IS_ARCHIVE"@)) && (
        !begins_like_archive(c.0@) && !has_descriptor(c.1@) ==> r is Err && r->Err_0@ == (
            ErrorKind::InvalidInput,
            "ERR_ISO_INVALID"@,
        )),
        event matches MountEvent::Inspected { content: Err(cause) } ==> r is Err && r->Err_0@ == (
            ErrorKind::Io,
            "ISO open failed: "@ + cause@,
        ),
{
    message_is_written_piece_by_piece("ERR_ISO_NOT_FOUND"@, Seq::empty(), "path"@, path);
}

/// A walk finds a kernel and an initrd in every image that holds a file whose
/// name, in small letters, begins with `vmlinuz` and one whose name begins with
/// `initrd` or `initramfs`, wherever the two lie within its reach; and it finds a
/// root file system in every image that holds a file with such a name.
pub proof fn walk_misses_nothing(root: Seq<Entry>, k: int, i: int)
    requires
        ({
            let fs = files_under(root, ""@, 0, SEARCH_DEPTH as nat);
            0 <= k < fs.len() && 0 <= i < fs.len()
        }),
    ensures
        ({
            let fs = files_under(root, ""@, 0, SEARCH_DEPTH as nat);
            &&& has_prefix(lowercased(fs[k].0), "vmlinuz"@) && (has_prefix(
                lowercased(fs[i].0),
                "initrd"@,
            ) || has_prefix(lowercased(fs[i].0), "initramfs"@)) ==> walked_kernel(root) is Some
            &&& has_suffix(lowercased(fs[k].0), ".squashfs"@) || lowercased(fs[k].0)
                == "airootfs.sfs"@ || lowercased(fs[k].0) == "squashfs.img"@ ==> first_path(
                fs,
                |n: Seq<char>| is_squashfs_name(n),
            ) is Some
        }),
{
    let fs = files_under(root, ""@, 0, SEARCH_DEPTH as nat);
    let kern = |n: Seq<char>| is_kernel_name(n);
    let init = |n: Seq<char>| is_initrd_name(n);
    let want = |n: Seq<char>| is_squashfs_name(n);
    first_path_is_first(fs, kern);
    first_path_is_first(fs, init);
    first_path_is_first(fs, want);
    assert(has_prefix(lowercased(fs[k].0), "vmlinuz"@) ==> kern(fs[k].0));
    assert(has_prefix(lowercased(fs[i].0), "initrd"@) || has_prefix(
        lowercased(fs[i].0),
        "initramfs"@,
    ) ==> init(fs[i].0));
    assert(has_suffix(lowercased(fs[k].0), ".squashfs"@) || lowercased(fs[k].0) == "airootfs.sfs"@
        || lowercased(fs[k].0) == "squashfs.img"@ ==> want(fs[k].0));
}

/// A failed mount is told under the code for a locked image exactly where its
/// text says so, and under the one for any other failure otherwise; the detail
/// is the text without the white space around it. A drive letter that is none is
/// told as a failed mount that names it.
pub proof fn failed_mounts_are_told_by_their_code(detail: Seq<char>)
    ensures
        says_locked(detail) ==> mount_failure(detail) == "ERR_ISO_MOUNT_LOCKED"@ + seq!['|']
            + "detail"@ + seq!['='] + trimmed(detail),
        !says_locked(detail) ==> mount_failure(detail) == "ERR_ISO_MOUNT_FAILED"@ + seq!['|']
            + "detail"@ + seq!['='] + trimmed(detail),
        letter_failure(detail) == "ERR_ISO_MOUNT_FAILED"@ + seq!['|'] + "detail"@ + seq!['='] + (
        "invalid drive letter '"@ + detail + "'"@),
{
    let t = trimmed(detail);
    let l = "invalid drive letter '"@ + detail + "'"@;
    message_is_written_piece_by_piece("ERR_ISO_MOUNT_LOCKED"@, Seq::empty(), "detail"@, t);
    message_is_written_piece_by_piece("ERR_ISO_MOUNT_FAILED"@, Seq::empty(), "detail"@, t);
    message_is_written_piece_by_piece("ERR_ISO_MOUNT_FAILED"@, Seq::empty(), "detail"@, l);
}

/// What is seen of a kernel, of an action and of a reply is what stands in it.
pub proof fn looks_are_seen_as_they_are(
    k: LinuxKernelInfo,
    a: String,
    b: bool,
    n: u64,
    sizes: (u64, u32, u32),
    e: InstallerError,
)
    ensures
        kernel_info(k) == (k.kernel_path@, k.initrd_path@),
        (LayoutAction::FindKernel { letter: a })@ == LayoutDeed::FindKernel(a@),
        (LayoutAction::ProbeInitrd { path: a })@ == LayoutDeed::ProbeInitrd(a@),
        (LayoutAction::FindSquashfs { letter: a })@ == LayoutDeed::FindSquashfs(a@),
        (LayoutAction::ProbeModule { path: a })@ == LayoutDeed::ProbeModule(a@),
        (LayoutAction::Stat { path: a })@ == LayoutDeed::Stat(a@),
        (LayoutAction::Measure { path: a })@ == LayoutDeed::Measure(a@),
        (LayoutAction::Unmount { script: a })@ == LayoutDeed::Unmount(a@),
        LayoutReply::Kernel(Ok(k))@ == LayoutAnswer::Kernel(Ok((k.kernel_path@, k.initrd_path@))),
        LayoutReply::Kernel(Err(e))@ == LayoutAnswer::Kernel(Err(e@)),
        LayoutReply::Flag(Ok(b))@ == LayoutAnswer::Flag(Ok(b)),
        LayoutReply::Flag(Err(e))@ == LayoutAnswer::Flag(Err(e@)),
        LayoutReply::Path(Ok(a))@ == LayoutAnswer::Path(Ok(a@)),
        LayoutReply::Path(Err(e))@ == LayoutAnswer::Path(Err(e@)),
        LayoutReply::Size(Ok(n))@ == LayoutAnswer::Size(Ok(n)),
        LayoutReply::Size(Err(a))@ == LayoutAnswer::Size(Err(a@)),
        LayoutReply::Unpacked(Ok(sizes))@ == LayoutAnswer::Unpacked(Ok(sizes)),
        LayoutReply::Unpacked(Err(e))@ == LayoutAnswer::Unpacked(Err(e@)),
        LayoutReply::Tried@ == LayoutAnswer::Tried,
{
}

} // verus!
