//! The EFI system partition, the boot menu and the firmware's boot entries.
use crate::ascii::{
    ascii_lowercase, case_is_a_bit_of_the_code, is_digit, lower_char, lowercase, lowercased, lowered,
};
use crate::error::{debug_quoted, debug_text, written_as, ErrorKind, InstallerError};
use crate::i18n::{encoded, slice_pairs};
use crate::image_ops::{
    host_join, host_path, HOST_BOOT_DIR_NAME, HOST_INITRD_FILENAME, HOST_KERNEL_FILENAME,
    HOST_OVERLAY_FILENAME, NEXTOS_HOST_DIR_NAME, ROOT_DISK_FILENAME, SQUASHFS_FILENAME,
};
use crate::iso_ops::{dismount_text, unmount_iso};
use crate::text::{
    byte_len, chars_of, ends_with, first_word_stands_first, has_prefix, has_suffix, is_blank,
    is_solid, is_space, lines, lines_of, occurs, occurs_at, pieces_are_what_stands_between, same, split, split_on,
    starts_with, strip_end, text_of, texts, trim, trim_end_char, trimmed,
    trimming_keeps_what_is_between, trimming_takes_white_space_only, with_lf, words,
    words_are_the_pieces_between_white_space, words_of,
};
use crate::tree::{
    files_under, join, one_entry_is_listed_by_its_kind, path_in, Entry, Node,
};
use crate::util::{extract_first_guid, first_guid, ps_quote, ps_quoted, to_lf};
use vstd::prelude::*;
use vstd::utf8::encode_utf8;

verus! {

pub const ESP_NEXTOS_DIR: &'static str = "EFI\\NextOS";

pub const ESP_REMOVABLE_DIR: &'static str = "EFI\\BOOT";

pub const ESP_REMOVABLE_FILE: &'static str = "BOOTX64.EFI";

pub const NEXTOS_BCD_DESCRIPTION: &'static str = "NextOS";

/// The ending of the copies of files that the installation overwrites.
pub const ESP_BACKUP_SUFFIX: &'static str = ".parkur-backup";

// ---------------------------------------------------------------------------
// Backups
// ---------------------------------------------------------------------------

/// A step on the files of the partition. A step that fails changes nothing and
/// stops nothing.
pub enum FileStep {
    Copy { from: String, to: String },
    Rename { from: String, to: String },
    Remove { path: String },
}

/// A step by its paths.
pub enum Step {
    Copy(Seq<char>, Seq<char>),
    Rename(Seq<char>, Seq<char>),
    Remove(Seq<char>),
}

impl View for FileStep {
    type V = Step;

    open spec fn view(&self) -> Step {
        match *self {
            FileStep::Copy { from, to } => Step::Copy(from@, to@),
            FileStep::Rename { from, to } => Step::Rename(from@, to@),
            FileStep::Remove { path } => Step::Remove(path@),
        }
    }
}

/// A list of steps by their views.
pub open spec fn steps_of(v: Seq<FileStep>) -> Seq<Step> {
    v.map_values(|s: FileStep| s@)
}

/// Where the backup of `path` stands.
pub open spec fn backup_path(path: Seq<char>) -> Seq<char> {
    path + ESP_BACKUP_SUFFIX@
}

/// Where the backup of `path` stands.
pub fn esp_backup(path: &str) -> (r: String)
    ensures
        r@ == backup_path(path@),
        r@ == path@ + ".parkur-backup"@,
{
    path.to_owned().concat(ESP_BACKUP_SUFFIX)
}

/// The steps that back up `path` before it is overwritten.
pub open spec fn backup_steps(path: Seq<char>, exists: bool, backup_exists: bool) -> Seq<Step> {
    if exists && !backup_exists {
        seq![Step::Copy(path, backup_path(path))]
    } else {
        Seq::empty()
    }
}

/// Back up `path` before it is overwritten, unless there is nothing to back
/// up. A backup is made once: on a later installation it still holds the true
/// original.
pub fn backup_esp_file_once(path: &str, exists: bool, backup_exists: bool) -> (r: Vec<FileStep>)
    ensures
        steps_of(r@) == backup_steps(path@, exists, backup_exists),
{
    let mut r: Vec<FileStep> = Vec::new();
    if exists && !backup_exists {
        r.push(FileStep::Copy { from: path.to_owned(), to: esp_backup(path) });
    }
    assert(steps_of(r@) =~= backup_steps(path@, exists, backup_exists));
    r
}

/// The steps that undo what was done to `path`.
pub open spec fn restore_steps(path: Seq<char>, backup_exists: bool) -> Seq<Step> {
    if backup_exists {
        seq![Step::Remove(path), Step::Rename(backup_path(path), path)]
    } else {
        seq![Step::Remove(path)]
    }
}

/// Undo what was done to `path`: put the backup back where there is one, and
/// remove the file where there was none before.
pub fn restore_esp_file(path: &str, backup_exists: bool) -> (r: Vec<FileStep>)
    ensures
        steps_of(r@) == restore_steps(path@, backup_exists),
{
    let mut r: Vec<FileStep> = Vec::new();
    r.push(FileStep::Remove { path: path.to_owned() });
    if backup_exists {
        r.push(FileStep::Rename { from: esp_backup(path), to: path.to_owned() });
    }
    assert(steps_of(r@) =~= restore_steps(path@, backup_exists));
    r
}

/// The files of a volume, by path.
pub open spec fn after_step(fs: Map<Seq<char>, Seq<u8>>, s: Step) -> Map<Seq<char>, Seq<u8>> {
    match s {
        Step::Copy(from, to) => if fs.contains_key(from) {
            fs.insert(to, fs[from])
        } else {
            fs
        },
        Step::Rename(from, to) => if fs.contains_key(from) {
            fs.remove(from).insert(to, fs[from])
        } else {
            fs
        },
        Step::Remove(path) => fs.remove(path),
    }
}

/// The files of a volume after some steps.
pub open spec fn after_steps(fs: Map<Seq<char>, Seq<u8>>, ss: Seq<Step>) -> Map<
    Seq<char>,
    Seq<u8>,
>
    decreases ss.len(),
{
    if ss.len() == 0 {
        fs
    } else {
        after_step(after_steps(fs, ss.drop_last()), ss.last())
    }
}

/// The files of a volume after `path` was backed up and overwritten.
pub open spec fn after_install(
    fs: Map<Seq<char>, Seq<u8>>,
    path: Seq<char>,
    content: Seq<u8>,
) -> Map<Seq<char>, Seq<u8>> {
    after_steps(
        fs,
        backup_steps(path, fs.contains_key(path), fs.contains_key(backup_path(path))),
    ).insert(path, content)
}

/// The files of a volume after `path` was installed again and again.
pub open spec fn after_installs(
    fs: Map<Seq<char>, Seq<u8>>,
    path: Seq<char>,
    contents: Seq<Seq<u8>>,
) -> Map<Seq<char>, Seq<u8>>
    decreases contents.len(),
{
    if contents.len() == 0 {
        fs
    } else {
        after_install(after_installs(fs, path, contents.drop_last()), path, contents.last())
    }
}

/// The files of a volume after `path` was restored.
pub open spec fn after_restore(fs: Map<Seq<char>, Seq<u8>>, path: Seq<char>) -> Map<
    Seq<char>,
    Seq<u8>,
> {
    after_steps(fs, restore_steps(path, fs.contains_key(backup_path(path))))
}

proof fn backup_is_elsewhere(path: Seq<char>)
    ensures
        backup_path(path) != path,
{
    reveal_strlit(".parkur-backup");
    assert(backup_path(path).len() == path.len() + 14);
}

proof fn installs_keep_the_original(
    fs: Map<Seq<char>, Seq<u8>>,
    path: Seq<char>,
    contents: Seq<Seq<u8>>,
)
    requires
        fs.contains_key(path),
        !fs.contains_key(backup_path(path)),
        contents.len() > 0,
    ensures
        after_installs(fs, path, contents) == fs.insert(backup_path(path), fs[path]).insert(
            path,
            contents.last(),
        ),
    decreases contents.len(),
{
    let b = backup_path(path);
    backup_is_elsewhere(path);
    let front = contents.drop_last();
    if front.len() == 0 {
        let ss = backup_steps(path, true, false);
        assert(ss.drop_last() =~= Seq::empty());
        reveal_with_fuel(after_steps, 2);
        reveal_with_fuel(after_installs, 2);
    } else {
        installs_keep_the_original(fs, path, front);
        let mid = after_installs(fs, path, front);
        assert(mid.contains_key(b) && mid.contains_key(path));
        assert(after_steps(mid, backup_steps(path, true, true)) == mid);
        assert(after_installs(fs, path, contents) =~= fs.insert(b, fs[path]).insert(
            path,
            contents.last(),
        ));
    }
}

/// A file that was there before comes back as it was, however often the
/// installation overwrote it, and no backup is left behind.
pub proof fn restore_brings_the_original_back(
    fs: Map<Seq<char>, Seq<u8>>,
    path: Seq<char>,
    contents: Seq<Seq<u8>>,
)
    requires
        fs.contains_key(path),
        !fs.contains_key(backup_path(path)),
        contents.len() > 0,
    ensures
        after_restore(after_installs(fs, path, contents), path) == fs,
{
    let b = backup_path(path);
    backup_is_elsewhere(path);
    installs_keep_the_original(fs, path, contents);
    let mid = after_installs(fs, path, contents);
    let ss = restore_steps(path, true);
    assert(ss.drop_last() =~= seq![Step::Remove(path)]);
    assert(ss.drop_last().drop_last() =~= Seq::empty());
    reveal_with_fuel(after_steps, 3);
    assert(after_restore(mid, path) =~= fs);
}

/// A file that was not there before is gone again after one installation and
/// the restore.
pub proof fn restore_removes_a_new_file(
    fs: Map<Seq<char>, Seq<u8>>,
    path: Seq<char>,
    content: Seq<u8>,
)
    requires
        !fs.contains_key(path),
        !fs.contains_key(backup_path(path)),
    ensures
        after_restore(after_install(fs, path, content), path) == fs,
{
    backup_is_elsewhere(path);
    let ss = restore_steps(path, false);
    assert(ss.drop_last() =~= Seq::empty());
    reveal_with_fuel(after_steps, 2);
    assert(after_restore(after_install(fs, path, content), path) =~= fs);
}

// ---------------------------------------------------------------------------
// The firmware and the system partition
// ---------------------------------------------------------------------------

#[derive(Debug, Clone, Copy, PartialEq, Eq, Structural)]
pub enum BootMode {
    UEFI,
    LegacyBIOS,
}

/// The script that asks for the kind of the firmware.
pub const BOOT_MODE_SCRIPT: &'static str =
    r#"
        $fwType = (Get-ItemProperty -Path 'HKLM:\SYSTEM\CurrentControlSet\Control' -Name 'PEFirmwareType' -ErrorAction SilentlyContinue).PEFirmwareType
        if ($fwType -eq 2) { "UEFI" }
        elseif ($fwType -eq 1) { "BIOS" }
        else {
            if (Test-Path 'HKLM:\SYSTEM\CurrentControlSet\Control\SecureBoot') { "UEFI" }
            else { "BIOS" }
        }
    "#;

/// The kind of the firmware, from what the script answered: UEFI unless it
/// said BIOS.
pub fn detect_boot_mode(reply: Result<String, InstallerError>) -> (r: Result<
    BootMode,
    InstallerError,
>)
    ensures
        match reply {
            Ok(out) => r is Ok && (r->Ok_0 is LegacyBIOS <==> trimmed(out@) == "BIOS"@),
            Err(e) => r == Err::<BootMode, InstallerError>(e),
        },
{
    match reply {
        Ok(out) => {
            let t = trim(out.as_str());
            if same(t.as_str(), "BIOS") {
                Ok(BootMode::LegacyBIOS)
            } else {
                Ok(BootMode::UEFI)
            }
        },
        Err(e) => Err(e),
    }
}

/// The script that gives the EFI system partition a drive letter, unless it
/// has one, and answers with it.
pub const MOUNT_ESP_SCRIPT: &'static str =
    r#"
        $espPart = Get-Partition | Where-Object { $_.GptType -eq '{c12a7328-f81f-11d2-ba4b-00a0c93ec93b}' } | Select-Object -First 1
        if (-not $espPart) { throw "EFI System Partition not found" }
        if ($espPart.DriveLetter) {
            $espPart.DriveLetter
            return
        }
        $targetLetter = $null
        foreach ($l in @('S','R','Q','P')) {
            if (-not (Test-Path "${l}:\")) {
                $targetLetter = $l
                break
            }
        }
        if (-not $targetLetter) { throw "No drive letter available for ESP" }
        Add-PartitionAccessPath -DiskNumber $espPart.DiskNumber -PartitionNumber $espPart.PartitionNumber -AccessPath "${targetLetter}:\" -ErrorAction Stop
        Start-Sleep -Milliseconds 1000
        $targetLetter
    "#;

/// The drive letter of the EFI system partition, from what the script answered.
pub fn mount_esp(reply: Result<String, InstallerError>) -> (r: Result<String, InstallerError>)
    ensures
        match reply {
            Ok(out) => if encode_utf8(trimmed(out@)).len() == 1 {
                r is Ok && r->Ok_0@ == trimmed(out@)
            } else {
                r is Err && r->Err_0@ == (
                    ErrorKind::BootloaderConfig,
                    "Invalid ESP drive letter: '"@ + trimmed(out@) + "'"@,
                )
            },
            Err(e) => r is Err && exists|t: Seq<char>|
                #[trigger] written_as(e@.1, t) && r->Err_0@ == (
                    ErrorKind::BootloaderConfig,
                    "ESP mount failed: "@ + t,
                ),
        },
{
    match reply {
        Ok(out) => {
            let letter = trim(out.as_str());
            if byte_len(letter.as_str()) != 1 {
                return Err(
                    InstallerError::BootloaderConfig(
                        "Invalid ESP drive letter: '".to_owned().concat(letter.as_str()).concat(
                            "'",
                        ),
                    ),
                );
            }
            Ok(letter)
        },
        Err(e) => {
            let t = e.to_string();
            Err(
                InstallerError::BootloaderConfig(
                    "ESP mount failed: ".to_owned().concat(t.as_str()),
                ),
            )
        },
    }
}

// ---------------------------------------------------------------------------
// The EFI programs of the image
// ---------------------------------------------------------------------------

/// How many directories deep an EFI directory is searched.
pub const EFI_DEPTH: u32 = 4;

/// A file with these first bytes and this size begins like a PE image and is no
/// stub.
pub open spec fn is_pe_image(head: Seq<u8>, size: Option<u64>) -> bool {
    head == seq![0x4Du8, 0x5A] && size is Some && size->Some_0 >= 1024
}

/// Whether a file is an EFI program, from its first two bytes, as far as they
/// could be read, and its size.
pub fn is_pe_efi(head: &[u8], size: Option<u64>) -> (r: bool)
    ensures
        r == is_pe_image(head@, size),
        r <==> head@.len() == 2 && head@[0] == 0x4D && head@[1] == 0x5A && size is Some
            && size->Some_0 >= 1024,
{
    let pe = head.len() == 2 && head[0] == 0x4D && head[1] == 0x5A;
    proof {
        if pe {
            assert(head@ =~= seq![0x4Du8, 0x5A]);
        }
    }
    match size {
        Some(n) => pe && n >= 1024,
        None => false,
    }
}

/// The EFI programs that were copied so far, by their names in small letters.
pub struct EfiCopies {
    copied: Vec<String>,
}

impl View for EfiCopies {
    type V = Seq<Seq<char>>;

    closed spec fn view(&self) -> Seq<Seq<char>> {
        texts(self.copied@)
    }
}

/// Whether `name` is one of `names`.
fn is_among(names: &Vec<String>, name: &str) -> (r: bool)
    ensures
        r == texts(names@).contains(name@),
{
    let mut i: usize = 0;
    while i < names.len()
        invariant
            i <= names@.len(),
            forall|j: int| 0 <= j < i ==> #[trigger] texts(names@)[j] != name@,
        decreases names@.len() - i,
    {
        assert(texts(names@)[i as int] == names@[i as int]@);
        if same(names[i].as_str(), name) {
            return true;
        }
        i = i + 1;
    }
    false
}

/// A file with a name that is `lower` in small letters is an EFI program that
/// was not copied yet.
pub open spec fn is_new_efi(lower: Seq<char>, is_file: bool, copied: Seq<Seq<char>>) -> bool {
    is_file && has_suffix(lower, ".efi"@) && !copied.contains(lower)
}

impl EfiCopies {
    /// Nothing was copied.
    pub fn new() -> (r: Self)
        ensures
            r@ == Seq::<Seq<char>>::empty(),
    {
        let r = EfiCopies { copied: Vec::new() };
        assert(r@ =~= Seq::<Seq<char>>::empty());
        r
    }

    /// Whether nothing was copied.
    pub fn is_empty(&self) -> (r: bool)
        ensures
            r == (self@.len() == 0),
    {
        self.copied.len() == 0
    }

    /// Whether the program `lower` was copied.
    pub fn has(&self, lower: &str) -> (r: bool)
        ensures
            r == self@.contains(lower@),
    {
        is_among(&self.copied, lower)
    }

    /// Whether a file with a name that is `lower` in small letters is wanted.
    pub fn wants(&self, lower: &str, is_file: bool) -> (r: bool)
        ensures
            r == is_new_efi(lower@, is_file, self@),
    {
        is_file && ends_with(lower, ".efi") && !self.has(lower)
    }

    /// Whether the file `name` is wanted: its name ends in `.efi`, and none of
    /// that name was copied, whatever the case of the letters.
    pub fn try_copy_efi_file(&self, name: &str, is_file: bool) -> (r: bool)
        ensures
            r == is_new_efi(lowercased(name@), is_file, self@),
    {
        let lower = lowercase(name);
        self.wants(lower.as_str(), is_file)
    }

    /// Whether the file `name` is to be copied: it is wanted, and an EFI program
    /// by its first two bytes and its size.
    pub fn accepts(&self, name: &str, is_file: bool, head: &[u8], size: Option<u64>) -> (r: bool)
        ensures
            r == (is_new_efi(lowercased(name@), is_file, self@) && is_pe_image(head@, size)),
            r <==> is_file && has_suffix(lowercased(name@), ".efi"@) && !self@.contains(
                lowercased(name@),
            ) && head@.len() == 2 && head@[0] == 0x4D && head@[1] == 0x5A && size is Some
                && size->Some_0 >= 1024,
    {
        self.try_copy_efi_file(name, is_file) && is_pe_efi(head, size)
    }

    /// The file `name` was offered, and `copied` says whether a copy of it was
    /// made. Its name is recorded where it was to be copied and was.
    pub fn offer(
        &mut self,
        name: &str,
        is_file: bool,
        head: &[u8],
        size: Option<u64>,
        copied: bool,
    )
        ensures
            final(self)@ == (if copied && is_new_efi(lowercased(name@), is_file, old(self)@)
                && is_pe_image(head@, size) {
                old(self)@.push(lowercased(name@))
            } else {
                old(self)@
            }),
            final(self)@ == old(self)@ || (final(self)@ == old(self)@.push(lowercased(name@))
                && copied && is_file && has_suffix(lowercased(name@), ".efi"@)
                && !old(self)@.contains(lowercased(name@)) && head@.len() == 2 && head@[0] == 0x4D
                && head@[1] == 0x5A && size is Some && size->Some_0 >= 1024),
            old(self)@.no_duplicates() ==> final(self)@.no_duplicates(),
    {
        if copied && self.accepts(name, is_file, head, size) {
            let ghost before = self@;
            self.copied.push(lowercase(name));
            proof {
                assert(self@ =~= before.push(lowercased(name@)));
                if before.no_duplicates() {
                    copied_programs_differ(before, lowercased(name@), is_file);
                }
            }
        }
    }
}

/// As long as only wanted programs are copied, no two of them have the same
/// name, whatever the case of the letters.
pub proof fn copied_programs_differ(copied: Seq<Seq<char>>, lower: Seq<char>, is_file: bool)
    requires
        copied.no_duplicates(),
        is_new_efi(lower, is_file, copied),
    ensures
        copied.push(lower).no_duplicates(),
{
    let after = copied.push(lower);
    assert forall|i: int, j: int| 0 <= i < after.len() && 0 <= j < after.len() && i != j implies after[i]
        != after[j] by {
        if i == copied.len() {
            assert(copied.contains(copied[j]));
        } else if j == copied.len() {
            assert(copied.contains(copied[i]));
        }
    }
}

/// Where the EFI program `name` is copied to.
pub fn efi_dest(esp_nextos: &str, name: &str) -> (r: String)
    ensures
        r@ == host_path(esp_nextos@, name@),
{
    host_join(esp_nextos, name)
}

/// A path on the drive `letter`.
pub open spec fn drive_path(letter: Seq<char>, rel: Seq<char>) -> Seq<char> {
    letter + ":\\"@ + rel
}

fn drive_join(letter: &str, rel: &str) -> (r: String)
    ensures
        r@ == drive_path(letter@, rel@),
{
    letter.to_owned().concat(":\\").concat(rel)
}

fn on_each(letter: &str, rels: Vec<String>) -> (r: Vec<String>)
    ensures
        r@.len() == rels@.len(),
        forall|i: int|
            0 <= i < rels@.len() ==> #[trigger] texts(r@)[i] == drive_path(
                letter@,
                texts(rels@)[i],
            ),
{
    let mut r: Vec<String> = Vec::new();
    let mut i: usize = 0;
    while i < rels.len()
        invariant
            i <= rels@.len(),
            r@.len() == i,
            forall|j: int|
                0 <= j < i ==> #[trigger] texts(r@)[j] == drive_path(letter@, texts(rels@)[j]),
        decreases rels@.len() - i,
    {
        let ghost before = r@;
        r.push(drive_join(letter, rels[i].as_str()));
        assert(texts(r@) =~= texts(before).push(drive_path(letter@, rels@[i as int]@)));
        i = i + 1;
    }
    r
}

/// Where live images keep their EFI programs.
pub open spec fn efi_rels() -> Seq<Seq<char>> {
    seq![
        "EFI\\boot\\bootx64.efi"@,
        "EFI\\boot\\grubx64.efi"@,
        "EFI\\boot\\mmx64.efi"@,
        "EFI\\boot\\shimx64.efi"@,
        "EFI\\BOOT\\BOOTX64.EFI"@,
        "EFI\\BOOT\\grubx64.efi"@,
        "EFI\\debian\\shimx64.efi"@,
        "EFI\\debian\\grubx64.efi"@,
        "EFI\\pardus\\shimx64.efi"@,
        "EFI\\pardus\\grubx64.efi"@,
    ]
}

/// Each of the paths `rels` on the drive `letter`.
pub open spec fn all_on_drive(letter: Seq<char>, rels: Seq<Seq<char>>) -> Seq<Seq<char>> {
    Seq::new(rels.len(), |i: int| drive_path(letter, rels[i]))
}

/// The paths on a mounted image where EFI programs are looked for first.
pub fn known_efi_paths(iso_drive_letter: &str) -> (r: Vec<String>)
    ensures
        texts(r@) == all_on_drive(trim_end_char(iso_drive_letter@, ':'), efi_rels()),
        r@.len() == 10,
        forall|i: int|
            0 <= i < 10 ==> (#[trigger] texts(r@)[i]) == trim_end_char(iso_drive_letter@, ':')
                + ":\\"@ + (seq!["EFI\\boot\\bootx64.efi"@, "EFI\\boot\\grubx64.efi"@, "EFI\\boot\\mmx64.efi"@, "EFI\\boot\\shimx64.efi"@, "EFI\\BOOT\\BOOTX64.EFI"@, "EFI\\BOOT\\grubx64.efi"@, "EFI\\debian\\shimx64.efi"@, "EFI\\debian\\grubx64.efi"@, "EFI\\pardus\\shimx64.efi"@, "EFI\\pardus\\grubx64.efi"@])[i],
{
    let letter = strip_end(iso_drive_letter, ':');
    let rels: Vec<String> = vec![
        "EFI\\boot\\bootx64.efi".to_owned(),
        "EFI\\boot\\grubx64.efi".to_owned(),
        "EFI\\boot\\mmx64.efi".to_owned(),
        "EFI\\boot\\shimx64.efi".to_owned(),
        "EFI\\BOOT\\BOOTX64.EFI".to_owned(),
        "EFI\\BOOT\\grubx64.efi".to_owned(),
        "EFI\\debian\\shimx64.efi".to_owned(),
        "EFI\\debian\\grubx64.efi".to_owned(),
        "EFI\\pardus\\shimx64.efi".to_owned(),
        "EFI\\pardus\\grubx64.efi".to_owned(),
    ];
    assert(texts(rels@) =~= efi_rels());
    let r = on_each(letter.as_str(), rels);
    assert(texts(r@) =~= all_on_drive(trim_end_char(iso_drive_letter@, ':'), efi_rels()));
    r
}

/// The directories of a mounted image that are searched for EFI programs.
pub fn efi_dirs(iso_drive_letter: &str) -> (r: Vec<String>)
    ensures
        texts(r@) == all_on_drive(trim_end_char(iso_drive_letter@, ':'), seq!["EFI"@, "efi"@]),
{
    let letter = strip_end(iso_drive_letter, ':');
    let rels: Vec<String> = vec!["EFI".to_owned(), "efi".to_owned()];
    assert(texts(rels@) =~= seq!["EFI"@, "efi"@]);
    let r = on_each(letter.as_str(), rels);
    assert(texts(r@) =~= all_on_drive(
        trim_end_char(iso_drive_letter@, ':'),
        seq!["EFI"@, "efi"@],
    ));
    r
}

/// The paths on a mounted image where a FAT image with EFI programs may stand.
pub open spec fn efi_imgs(iso_drive_letter: Seq<char>) -> Seq<Seq<char>> {
    all_on_drive(
        trim_end_char(iso_drive_letter, ':'),
        seq!["efi.img"@, "boot\\grub\\efi.img"@, "EFI\\boot\\efi.img"@],
    )
}

/// The paths on a mounted image where a FAT image with EFI programs may stand.
/// Some hybrid images show no EFI directory, yet ship such an image.
pub fn efi_img_candidates(iso_drive_letter: &str) -> (r: Vec<String>)
    ensures
        texts(r@) == efi_imgs(iso_drive_letter@),
        r@.len() == 3,
        forall|i: int|
            0 <= i < 3 ==> (#[trigger] texts(r@)[i]) == trim_end_char(iso_drive_letter@, ':')
                + ":\\"@ + (seq!["efi.img"@, "boot\\grub\\efi.img"@, "EFI\\boot\\efi.img"@])[i],
{
    let letter = strip_end(iso_drive_letter, ':');
    let rels: Vec<String> = vec![
        "efi.img".to_owned(),
        "boot\\grub\\efi.img".to_owned(),
        "EFI\\boot\\efi.img".to_owned(),
    ];
    let ghost want = seq!["efi.img"@, "boot\\grub\\efi.img"@, "EFI\\boot\\efi.img"@];
    assert(texts(rels@) =~= want);
    let r = on_each(letter.as_str(), rels);
    assert(texts(r@) =~= all_on_drive(trim_end_char(iso_drive_letter@, ':'), want));
    r
}

/// The FAT image with EFI programs on a mounted image: the first of the
/// candidates that is there, where `present` says of each whether it is.
pub fn pick_efi_img(iso_drive_letter: &str, present: &Vec<bool>) -> (r: Option<String>)
    ensures
        match r {
            Some(p) => exists|i: int|
                0 <= i < present@.len() && i < efi_imgs(iso_drive_letter@).len()
                    && #[trigger] present@[i] && p@ == efi_imgs(iso_drive_letter@)[i] && forall|j: int|
                    0 <= j < i ==> !(#[trigger] present@[j]),
            None => forall|i: int|
                0 <= i < present@.len() && i < efi_imgs(iso_drive_letter@).len() ==> !(
                #[trigger] present@[i]),
        },
{
    let candidates = efi_img_candidates(iso_drive_letter);
    let ghost all = efi_imgs(iso_drive_letter@);
    let mut i: usize = 0;
    while i < candidates.len() && i < present.len()
        invariant
            i <= candidates@.len(),
            i <= present@.len(),
            texts(candidates@) == all,
            all == efi_imgs(iso_drive_letter@),
            forall|j: int| 0 <= j < i ==> !(#[trigger] present@[j]),
        decreases candidates@.len() - i,
    {
        if present[i] {
            assert(all[i as int] == candidates@[i as int]@);
            assert(present@[i as int]);
            return Some(candidates[i].clone());
        }
        i = i + 1;
    }
    assert(candidates@.len() == all.len());
    None
}

/// What the script that mounts a FAT image begins with, up to its path.
pub const EFI_IMG_SCRIPT_HEAD: &'static str =
    r#"
        $path = '"#;

/// What the script that mounts a FAT image ends with, from its path on.
pub const EFI_IMG_SCRIPT_TAIL: &'static str =
    r#"'
        $img = Mount-DiskImage -ImagePath $path -PassThru -ErrorAction Stop
        $letter = $null
        for ($i = 0; $i -lt 40; $i++) {
            $vol = $img | Get-Volume -ErrorAction SilentlyContinue
            if ($vol -and $vol.DriveLetter) { $letter = [string]$vol.DriveLetter; break }
            Start-Sleep -Milliseconds 250
        }
        if (-not $letter) { throw "efi.img mounted but no drive letter" }
        $letter
        "#;

/// The script that mounts the FAT image `temp` and answers with its letter.
pub fn collect_efi_from_efi_img(temp: &str) -> (r: String)
    ensures
        r@ == EFI_IMG_SCRIPT_HEAD@ + ps_quoted(temp@) + EFI_IMG_SCRIPT_TAIL@,
{
    let q = ps_quote(temp);
    EFI_IMG_SCRIPT_HEAD.to_owned().concat(q.as_str()).concat(EFI_IMG_SCRIPT_TAIL)
}

/// The letter of a mounted FAT image, from what the script answered; none where
/// the answer is no single byte, and the image is then not searched.
pub fn efi_img_letter(reply: Result<String, InstallerError>) -> (r: Result<
    Option<String>,
    InstallerError,
>)
    ensures
        match reply {
            Ok(out) => r is Ok && text_of(r->Ok_0) == (if encode_utf8(trimmed(out@)).len() == 1 {
                Some(trimmed(out@))
            } else {
                None
            }),
            Err(e) => r is Err && exists|t: Seq<char>|
                #[trigger] written_as(e@.1, t) && r->Err_0@ == (
                    ErrorKind::BootloaderConfig,
                    "efi.img mount failed: "@ + t,
                ),
        },
{
    match reply {
        Ok(out) => {
            let letter = trim(out.as_str());
            if byte_len(letter.as_str()) == 1 {
                Ok(Some(letter))
            } else {
                Ok(None)
            }
        },
        Err(e) => {
            let t = e.to_string();
            Err(
                InstallerError::BootloaderConfig(
                    "efi.img mount failed: ".to_owned().concat(t.as_str()),
                ),
            )
        },
    }
}

/// A step with a FAT image that was mounted, or could not be.
pub enum ImgStep {
    /// Offer the programs in a directory and below it.
    Walk { dir: String },
    /// Offer the programs in a directory.
    Files { dir: String },
    Run { script: String },
    Remove { path: String },
}

/// A step by its text.
pub enum ImgDeed {
    Walk(Seq<char>),
    Files(Seq<char>),
    Run(Seq<char>),
    Remove(Seq<char>),
}

impl View for ImgStep {
    type V = ImgDeed;

    open spec fn view(&self) -> ImgDeed {
        match *self {
            ImgStep::Walk { dir } => ImgDeed::Walk(dir@),
            ImgStep::Files { dir } => ImgDeed::Files(dir@),
            ImgStep::Run { script } => ImgDeed::Run(script@),
            ImgStep::Remove { path } => ImgDeed::Remove(path@),
        }
    }
}

/// Steps by their views.
pub open spec fn img_deeds(v: Seq<ImgStep>) -> Seq<ImgDeed> {
    v.map_values(|s: ImgStep| s@)
}

/// What is done with the FAT image `temp`, mounted as `letter`: it is searched
/// where it has a letter, and it is unmounted and removed in any case.
pub open spec fn mounted_img_deeds(temp: Seq<char>, letter: Option<Seq<char>>) -> Seq<ImgDeed> {
    (match letter {
        Some(l) => seq![
            ImgDeed::Walk(drive_path(l, "EFI"@)),
            ImgDeed::Files(drive_path(l, ""@)),
        ],
        None => Seq::empty(),
    }) + seq![ImgDeed::Run(dismount_text(temp)), ImgDeed::Remove(temp)]
}

/// What is done with the FAT image `temp` after the script that mounts it gave
/// `reply`, and what comes of it. An image that could not be mounted is only
/// removed.
pub fn efi_img_steps(temp: &str, reply: Result<String, InstallerError>) -> (r: (
    Vec<ImgStep>,
    Result<(), InstallerError>,
))
    ensures
        match reply {
            Ok(out) => r.1 is Ok && img_deeds(r.0@) == mounted_img_deeds(
                temp@,
                if encode_utf8(trimmed(out@)).len() == 1 {
                    Some(trimmed(out@))
                } else {
                    None
                },
            ),
            Err(e) => img_deeds(r.0@) == seq![ImgDeed::Remove(temp@)] && r.1 is Err && exists|
                t: Seq<char>,
            |
                #[trigger] written_as(e@.1, t) && r.1->Err_0@ == (
                    ErrorKind::BootloaderConfig,
                    "efi.img mount failed: "@ + t,
                ),
        },
{
    let mut steps: Vec<ImgStep> = Vec::new();
    match efi_img_letter(reply) {
        Ok(letter) => {
            let ghost l = text_of(letter);
            if let Some(l) = letter {
                steps.push(ImgStep::Walk { dir: drive_join(l.as_str(), "EFI") });
                steps.push(ImgStep::Files { dir: drive_join(l.as_str(), "") });
            }
            steps.push(ImgStep::Run { script: unmount_iso(temp) });
            steps.push(ImgStep::Remove { path: temp.to_owned() });
            assert(img_deeds(steps@) =~= mounted_img_deeds(temp@, l));
            (steps, Ok(()))
        },
        Err(e) => {
            steps.push(ImgStep::Remove { path: temp.to_owned() });
            assert(img_deeds(steps@) =~= seq![ImgDeed::Remove(temp@)]);
            (steps, Err(e))
        },
    }
}

/// A FAT image is removed in the end, whatever came of mounting it.
pub proof fn efi_img_is_removed(temp: Seq<char>, letter: Option<Seq<char>>)
    ensures
        mounted_img_deeds(temp, letter).last() == ImgDeed::Remove(temp),
        mounted_img_deeds(temp, letter).drop_last().last() == ImgDeed::Run(dismount_text(temp)),
{
}

/// Files by name and path.
pub open spec fn files_of(v: Seq<(String, String)>) -> Seq<(Seq<char>, Seq<char>)> {
    crate::i18n::pair_texts(v)
}

/// The files below the entries `es` of the directory `dir`, by name and path,
/// in the order of the walk; each is then offered for copying.
pub fn collect_efi_from_dir(
    es: &Vec<Entry>,
    dir: &str,
    depth: u32,
    out: &mut Vec<(String, String)>,
)
    ensures
        files_of(final(out)@) == files_of(old(out)@) + files_under(
            es@,
            dir@,
            depth as nat,
            EFI_DEPTH as nat,
        ),
    decreases EFI_DEPTH + 1 - depth,
{
    let ghost d = depth as nat;
    let ghost lim = EFI_DEPTH as nat;
    let ghost whole = files_of(out@) + files_under(es@, dir@, d, lim);
    if depth > EFI_DEPTH {
        assert(whole =~= files_of(out@));
        return;
    }
    let mut i: usize = 0;
    assert(es@.skip(0) =~= es@);
    while i < es.len()
        invariant
            i <= es@.len(),
            depth <= EFI_DEPTH,
            d == depth,
            lim == EFI_DEPTH,
            whole == files_of(out@) + files_under(es@.skip(i as int), dir@, d, lim),
        decreases es@.len() - i,
    {
        let ghost here = es@.skip(i as int);
        let ghost rest = files_under(es@.skip(i + 1), dir@, d, lim);
        assert(here.skip(1) =~= es@.skip(i + 1));
        assert(here[0] == es@[i as int]);
        let ghost before = files_of(out@);
        let entry = &es[i];
        let path = join(dir, entry.name.as_str());
        match &entry.node {
            Node::File => {
                let slashed = crate::text::replace(path.as_str(), '\\', "/");
                out.push((entry.name.clone(), slashed));
                proof {
                    let f = (entry.name@, crate::winpath::slashed(path@));
                    assert(files_of(out@) =~= before.push(f));
                    assert(before + (seq![f] + rest) =~= before.push(f) + rest);
                }
            },
            Node::Dir(sub) => {
                collect_efi_from_dir(sub, path.as_str(), depth + 1, out);
                proof {
                    let below = files_under(sub@, path@, d + 1, lim);
                    assert(before + (below + rest) =~= before + below + rest);
                }
            },
            Node::Other => {
                assert(Seq::empty() + rest =~= rest);
            },
        }
        i = i + 1;
    }
    assert(files_of(out@) + Seq::empty() =~= files_of(out@));
}

/// How far the search for EFI programs on a mounted image is.
#[derive(Debug, Clone, Copy, PartialEq, Eq, Structural)]
pub enum EfiStage {
    Start,
    KnownPaths,
    Folders,
    FatImage,
}

/// Where EFI programs are looked for next.
pub enum EfiSource {
    /// Offer each of these files.
    Paths { paths: Vec<String> },
    /// Offer the files in each of these directories and below it.
    Folders { dirs: Vec<String> },
    /// Offer the files in a FAT image, if there is one.
    FatImage,
}

/// Where EFI programs are looked for next, after `stage`, and the stage that it
/// ends: at the known paths first, then in the EFI directories, and in a FAT
/// image only where nothing was copied so far. Nothing comes where the search
/// is over.
pub fn next_efi_source(iso_drive_letter: &str, stage: EfiStage, copied: &EfiCopies) -> (r: Option<
    (EfiStage, EfiSource),
>)
    ensures
        match stage {
            EfiStage::Start => r is Some && r->Some_0.0 == EfiStage::KnownPaths && (
            r->Some_0.1 matches EfiSource::Paths { paths } && texts(paths@) == all_on_drive(
                trim_end_char(iso_drive_letter@, ':'),
                efi_rels(),
            )),
            EfiStage::KnownPaths => r is Some && r->Some_0.0 == EfiStage::Folders && (
            r->Some_0.1 matches EfiSource::Folders { dirs } && texts(dirs@) == all_on_drive(
                trim_end_char(iso_drive_letter@, ':'),
                seq!["EFI"@, "efi"@],
            )),
            EfiStage::Folders => if copied@.len() == 0 {
                r is Some && r->Some_0.0 == EfiStage::FatImage && r->Some_0.1 is FatImage
            } else {
                r is None
            },
            EfiStage::FatImage => r is None,
        },
{
    match stage {
        EfiStage::Start => Some(
            (EfiStage::KnownPaths, EfiSource::Paths { paths: known_efi_paths(iso_drive_letter) }),
        ),
        EfiStage::KnownPaths => Some(
            (EfiStage::Folders, EfiSource::Folders { dirs: efi_dirs(iso_drive_letter) }),
        ),
        EfiStage::Folders => if copied.is_empty() {
            Some((EfiStage::FatImage, EfiSource::FatImage))
        } else {
            None
        },
        EfiStage::FatImage => None,
    }
}

/// What is done with the EFI programs that were copied.
pub struct EfiPlan {
    /// The EFI path that the firmware entry points to.
    pub boot_path: String,
    /// The directory of the fallback boot path.
    pub boot_dir: String,
    /// The program that is copied there, and the name it gets.
    pub primary_src: String,
    pub removable_dest: String,
    /// GRUB, which shim loads from its own directory: its source, which may be
    /// missing, and its place beside the fallback program.
    pub grub: Option<(String, String)>,
}

/// The program that the firmware starts: the signed shim, under either of its
/// names, or else GRUB.
pub open spec fn boot_name(copied: Seq<Seq<char>>) -> Option<Seq<char>> {
    if copied.contains("shimx64.efi"@) {
        Some("shimx64.efi"@)
    } else if copied.contains("bootx64.efi"@) {
        Some("bootx64.efi"@)
    } else if copied.contains("grubx64.efi"@) {
        Some("grubx64.efi"@)
    } else {
        None
    }
}

/// The directory of our EFI programs on the partition `esp`.
pub open spec fn nextos_dir(esp: Seq<char>) -> Seq<char> {
    drive_path(esp, ESP_NEXTOS_DIR@)
}

/// The directory of the fallback boot path on the partition `esp`.
pub open spec fn removable_dir(esp: Seq<char>) -> Seq<char> {
    drive_path(esp, ESP_REMOVABLE_DIR@)
}

/// `p` is the plan that boots `name` on the partition `esp`.
pub open spec fn is_efi_plan(p: EfiPlan, esp: Seq<char>, name: Seq<char>) -> bool {
    &&& p.boot_path@ == "\\"@ + ESP_NEXTOS_DIR@ + "\\"@ + name
    &&& p.boot_dir@ == removable_dir(esp)
    &&& p.primary_src@ == host_path(nextos_dir(esp), name)
    &&& p.removable_dest@ == host_path(removable_dir(esp), ESP_REMOVABLE_FILE@)
    &&& match p.grub {
        Some(g) => name != "grubx64.efi"@ && g.0@ == host_path(nextos_dir(esp), "grubx64.efi"@)
            && g.1@ == host_path(removable_dir(esp), "grubx64.efi"@),
        None => name == "grubx64.efi"@,
    }
}

/// The directory of our EFI programs on the partition `esp_letter`.
pub fn esp_nextos_dir(esp_letter: &str) -> (r: String)
    ensures
        r@ == nextos_dir(esp_letter@),
{
    drive_join(esp_letter, ESP_NEXTOS_DIR)
}

/// What to do with the EFI programs that were copied: which one the firmware
/// starts, and what goes to the fallback boot path. The two programs of a shim
/// chain must stand in one directory.
pub fn copy_efi_payload_from_iso(copied: &EfiCopies, esp_letter: &str) -> (r: Result<
    EfiPlan,
    InstallerError,
>)
    ensures
        copied@.len() == 0 ==> r is Err && r->Err_0@ == (
            ErrorKind::BootloaderConfig,
            encoded("ERR_NO_UEFI_EFI"@, Seq::empty()),
        ),
        copied@.len() > 0 ==> match boot_name(copied@) {
            Some(name) => r is Ok && is_efi_plan(r->Ok_0, esp_letter@, name),
            None => r is Err && r->Err_0@ == (
                ErrorKind::BootloaderConfig,
                encoded("ERR_NO_BOOT_APP"@, Seq::empty()),
            ),
        },
{
    let none: [(&str, &str); 0] = [];
    assert(slice_pairs(none@) =~= Seq::empty());
    if copied.is_empty() {
        return Err(InstallerError::coded(ErrorKind::BootloaderConfig, "ERR_NO_UEFI_EFI", &none));
    }
    let name: &str = if copied.has("shimx64.efi") {
        "shimx64.efi"
    } else if copied.has("bootx64.efi") {
        "bootx64.efi"
    } else if copied.has("grubx64.efi") {
        "grubx64.efi"
    } else {
        return Err(InstallerError::coded(ErrorKind::BootloaderConfig, "ERR_NO_BOOT_APP", &none));
    };
    let esp_nextos = esp_nextos_dir(esp_letter);
    let boot_dir = drive_join(esp_letter, ESP_REMOVABLE_DIR);
    let primary_src = host_join(esp_nextos.as_str(), name);
    let removable_dest = host_join(boot_dir.as_str(), ESP_REMOVABLE_FILE);
    let grub = if same(name, "grubx64.efi") {
        None
    } else {
        Some(
            (
                host_join(esp_nextos.as_str(), "grubx64.efi"),
                host_join(boot_dir.as_str(), "grubx64.efi"),
            ),
        )
    };
    let boot_path = "\\".to_owned().concat(ESP_NEXTOS_DIR).concat("\\").concat(name);
    Ok(EfiPlan { boot_path, boot_dir, primary_src, removable_dest, grub })
}

/// A step that fills the fallback boot path. A step that fails stops nothing.
pub enum PlaceStep {
    MakeDir { path: String },
    /// Keep what stands at a path, unless an earlier file is kept already.
    BackUp { path: String },
    Copy { from: String, to: String },
}

/// A step by its paths.
pub enum PlaceDeed {
    MakeDir(Seq<char>),
    BackUp(Seq<char>),
    Copy(Seq<char>, Seq<char>),
}

impl View for PlaceStep {
    type V = PlaceDeed;

    open spec fn view(&self) -> PlaceDeed {
        match *self {
            PlaceStep::MakeDir { path } => PlaceDeed::MakeDir(path@),
            PlaceStep::BackUp { path } => PlaceDeed::BackUp(path@),
            PlaceStep::Copy { from, to } => PlaceDeed::Copy(from@, to@),
        }
    }
}

/// Steps by their views.
pub open spec fn place_deeds(v: Seq<PlaceStep>) -> Seq<PlaceDeed> {
    v.map_values(|s: PlaceStep| s@)
}

/// What fills the fallback boot path by the plan `p`; `grub_there` says whether
/// GRUB is among our programs.
pub open spec fn efi_place_deeds(p: EfiPlan, grub_there: bool) -> Seq<PlaceDeed> {
    seq![
        PlaceDeed::MakeDir(p.boot_dir@),
        PlaceDeed::BackUp(p.removable_dest@),
        PlaceDeed::Copy(p.primary_src@, p.removable_dest@),
    ] + (match p.grub {
        Some(g) => if grub_there {
            seq![PlaceDeed::BackUp(g.1@), PlaceDeed::Copy(g.0@, g.1@)]
        } else {
            Seq::empty()
        },
        None => Seq::empty(),
    })
}

/// The steps that fill the fallback boot path by a plan, in order;
/// `grub_there` says whether GRUB is among our programs.
pub fn efi_place_steps(plan: &EfiPlan, grub_there: bool) -> (r: Vec<PlaceStep>)
    ensures
        place_deeds(r@) == efi_place_deeds(*plan, grub_there),
{
    let mut steps: Vec<PlaceStep> = Vec::new();
    steps.push(PlaceStep::MakeDir { path: plan.boot_dir.clone() });
    steps.push(PlaceStep::BackUp { path: plan.removable_dest.clone() });
    steps.push(
        PlaceStep::Copy { from: plan.primary_src.clone(), to: plan.removable_dest.clone() },
    );
    if grub_there {
        if let Some(g) = &plan.grub {
            steps.push(PlaceStep::BackUp { path: g.1.clone() });
            steps.push(PlaceStep::Copy { from: g.0.clone(), to: g.1.clone() });
        }
    }
    assert(place_deeds(steps@) =~= efi_place_deeds(*plan, grub_there));
    steps
}

/// Nothing at the fallback boot path is overwritten before it was backed up.
pub proof fn fallback_files_are_backed_up_first(p: EfiPlan, grub_there: bool, i: int)
    requires
        0 <= i < efi_place_deeds(p, grub_there).len(),
        efi_place_deeds(p, grub_there)[i] is Copy,
    ensures
        i > 0,
        efi_place_deeds(p, grub_there)[i - 1] == PlaceDeed::BackUp(
            efi_place_deeds(p, grub_there)[i]->Copy_1,
        ),
{
}

// ---------------------------------------------------------------------------
// The boot menu
// ---------------------------------------------------------------------------

/// The boot menu up to the serial number of the host volume.
pub const GRUB_CFG_HEAD: &'static str =
    r#"set default="0"
set timeout="3"
set timeout_style="menu"

insmod part_gpt
insmod part_msdos
insmod fat
insmod ntfs
if insmod ntfs3; then true; fi
insmod chain
insmod search
insmod search_fs_file
insmod search_fs_uuid
insmod all_video
insmod gfxterm
insmod linux

if loadfont unicode; then
    set gfxmode=auto
    terminal_output gfxterm
elif loadfont $prefix/fonts/unicode.pf2; then
    set gfxmode=auto
    terminal_output gfxterm
fi

# Locate the NTFS host volume containing the NextOS payload.
# search --file sets 'ntfsroot' to the partition device (e.g. hd0,gpt3).
search --no-floppy --set=ntfsroot --file /NextOS/boot/vmlinuz

# NOTE: 'quiet splash' intentionally omitted so the [nextos] initramfs logs
# stay visible while the boot flow is being stabilised. Re-add once stable.
# The overlay is loaded as a SECOND initrd: the kernel extracts both archives
# in order, so the overlay's /init replaces live-boot's /init.
menuentry "NextOS" {
    linux ($ntfsroot)/NextOS/boot/vmlinuz ro nextos_host_serial="#;

/// The boot menu from the serial number of the host volume on.
pub const GRUB_CFG_TAIL: &'static str =
    r#" nextos_root_disk=/NextOS/root.disk nextos_squashfs=/NextOS/filesystem.squashfs
    initrd ($ntfsroot)/NextOS/boot/initrd.img ($ntfsroot)/NextOS/boot/overlay.cpio.gz
}

menuentry "Windows" {
    search --no-floppy --set=winroot --file /EFI/Microsoft/Boot/bootmgfw.efi
    chainloader ($winroot)/EFI/Microsoft/Boot/bootmgfw.efi
}
"#;

/// The boot menu: NextOS from the host volume with the serial number
/// `host_serial`, with the overlay as its second initrd, and Windows.
pub fn generate_loop_grub_cfg(host_serial: &str) -> (r: String)
    ensures
        r@ == with_lf(GRUB_CFG_HEAD@ + host_serial@ + GRUB_CFG_TAIL@),
{
    let text = GRUB_CFG_HEAD.to_owned().concat(host_serial).concat(GRUB_CFG_TAIL);
    to_lf(text.as_str())
}

/// Where a GRUB may look for its menu: each directory, and the file in it.
pub open spec fn grub_dirs() -> Seq<Seq<char>> {
    seq!["EFI\\debian"@, "EFI\\pardus"@, "EFI\\BOOT"@, "EFI\\NextOS"@, "boot\\grub"@]
}

/// The menu in each directory of `grub_dirs` on the partition `esp`: the
/// directory, and the file.
pub open spec fn grub_targets(esp: Seq<char>) -> Seq<(Seq<char>, Seq<char>)> {
    Seq::new(
        grub_dirs().len(),
        |i: int|
            (
                drive_path(esp, grub_dirs()[i]),
                host_path(drive_path(esp, grub_dirs()[i]), "grub.cfg"@),
            ),
    )
}

/// What is written for the boot menu.
pub struct GrubPlan {
    /// The menu, with Unix line ends.
    pub text: String,
    /// Every place it is written to: the directory, and the file.
    pub targets: Vec<(String, String)>,
    /// The place where the write must succeed.
    pub primary: String,
}

/// The plan that writes the boot menu `content` to the partition `esp_letter`.
pub fn write_grub_cfg(esp_letter: &str, content: &str) -> (r: GrubPlan)
    ensures
        r.text@ == with_lf(content@),
        files_of(r.targets@) == grub_targets(esp_letter@),
        r.primary@ == grub_targets(esp_letter@)[0].1,
        files_of(r.targets@).len() == 5,
        forall|i: int|
            0 <= i < 5 ==> (#[trigger] files_of(r.targets@)[i]).0 == esp_letter@ + ":\\"@ + (seq![
                "EFI\\debian"@,
                "EFI\\pardus"@,
                "EFI\\BOOT"@,
                "EFI\\NextOS"@,
                "boot\\grub"@,
            ])[i] && files_of(r.targets@)[i].1 == files_of(r.targets@)[i].0 + "\\"@ + "grub.cfg"@,
{
    let dirs: Vec<String> = vec![
        "EFI\\debian".to_owned(),
        "EFI\\pardus".to_owned(),
        "EFI\\BOOT".to_owned(),
        "EFI\\NextOS".to_owned(),
        "boot\\grub".to_owned(),
    ];
    assert(texts(dirs@) =~= grub_dirs());
    let mut targets: Vec<(String, String)> = Vec::new();
    let mut i: usize = 0;
    while i < dirs.len()
        invariant
            i <= dirs@.len(),
            texts(dirs@) == grub_dirs(),
            files_of(targets@) =~= grub_targets(esp_letter@).take(i as int),
        decreases dirs@.len() - i,
    {
        assert(grub_dirs()[i as int] == dirs@[i as int]@);
        let ghost before = files_of(targets@);
        let dir = drive_join(esp_letter, dirs[i].as_str());
        let file = host_join(dir.as_str(), "grub.cfg");
        targets.push((dir, file));
        proof {
            let t = grub_targets(esp_letter@)[i as int];
            assert(files_of(targets@) =~= before.push(t));
            assert(grub_targets(esp_letter@).take(i + 1) =~= before.push(t));
        }
        i = i + 1;
    }
    assert(grub_targets(esp_letter@).take(i as int) =~= grub_targets(esp_letter@));
    let dir = drive_join(esp_letter, "EFI\\debian");
    let primary = host_join(dir.as_str(), "grub.cfg");
    GrubPlan { text: to_lf(content), targets, primary }
}

/// A step that writes the boot menu.
pub enum GrubStep {
    MakeDir { path: String },
    /// Keep what stands at a path, unless an earlier file is kept already.
    BackUp { path: String },
    /// Write the menu. Only where it must succeed does a failure stop anything.
    Write { path: String, must_succeed: bool },
}

/// A step by its path.
pub enum GrubDeed {
    MakeDir(Seq<char>),
    BackUp(Seq<char>),
    Write(Seq<char>, bool),
}

impl View for GrubStep {
    type V = GrubDeed;

    open spec fn view(&self) -> GrubDeed {
        match *self {
            GrubStep::MakeDir { path } => GrubDeed::MakeDir(path@),
            GrubStep::BackUp { path } => GrubDeed::BackUp(path@),
            GrubStep::Write { path, must_succeed } => GrubDeed::Write(path@, must_succeed),
        }
    }
}

/// Steps by their views.
pub open spec fn grub_deeds(v: Seq<GrubStep>) -> Seq<GrubDeed> {
    v.map_values(|s: GrubStep| s@)
}

/// The steps that write the menu to each of some places: the directory is made,
/// what stands there is backed up, and the menu is written.
pub open spec fn target_deeds(ts: Seq<(Seq<char>, Seq<char>)>) -> Seq<GrubDeed>
    decreases ts.len(),
{
    if ts.len() == 0 {
        Seq::empty()
    } else {
        target_deeds(ts.drop_last()) + seq![
            GrubDeed::MakeDir(ts.last().0),
            GrubDeed::BackUp(ts.last().1),
            GrubDeed::Write(ts.last().1, false),
        ]
    }
}

/// The steps that write the menu to the places `ts`, and to `primary` so that
/// it must succeed.
pub open spec fn menu_deeds(ts: Seq<(Seq<char>, Seq<char>)>, primary: Seq<char>) -> Seq<GrubDeed> {
    target_deeds(ts).push(GrubDeed::Write(primary, true))
}

/// The steps that write the boot menu by a plan, in order.
pub fn grub_steps(plan: &GrubPlan) -> (r: Vec<GrubStep>)
    ensures
        grub_deeds(r@) == menu_deeds(files_of(plan.targets@), plan.primary@),
{
    let ghost ts = files_of(plan.targets@);
    let mut steps: Vec<GrubStep> = Vec::new();
    let mut i: usize = 0;
    assert(grub_deeds(steps@) =~= target_deeds(ts.take(0)));
    while i < plan.targets.len()
        invariant
            i <= plan.targets@.len(),
            ts == files_of(plan.targets@),
            grub_deeds(steps@) == target_deeds(ts.take(i as int)),
        decreases plan.targets@.len() - i,
    {
        let ghost before = grub_deeds(steps@);
        let t = &plan.targets[i];
        steps.push(GrubStep::MakeDir { path: t.0.clone() });
        steps.push(GrubStep::BackUp { path: t.1.clone() });
        steps.push(GrubStep::Write { path: t.1.clone(), must_succeed: false });
        proof {
            assert(ts.take(i + 1).drop_last() =~= ts.take(i as int));
            assert(ts.take(i + 1).last() == (t.0@, t.1@));
            assert(grub_deeds(steps@) =~= before + seq![
                GrubDeed::MakeDir(t.0@),
                GrubDeed::BackUp(t.1@),
                GrubDeed::Write(t.1@, false),
            ]);
        }
        i = i + 1;
    }
    let ghost before = grub_deeds(steps@);
    steps.push(GrubStep::Write { path: plan.primary.clone(), must_succeed: true });
    proof {
        assert(ts.take(i as int) =~= ts);
        assert(grub_deeds(steps@) =~= before.push(GrubDeed::Write(plan.primary@, true)));
    }
    steps
}

/// The error for a step that failed; none where it may fail.
pub fn grub_step_error(step: &GrubStep, cause: &str) -> (r: Option<InstallerError>)
    ensures
        match step@ {
            GrubDeed::Write(path, true) => r is Some && r->Some_0@ == (
                ErrorKind::BootloaderConfig,
                "grub.cfg write failed ("@ + path + "): "@ + cause@,
            ),
            _ => r is None,
        },
{
    match step {
        GrubStep::Write { path, must_succeed } => if *must_succeed {
            Some(grub_cfg_error(path.as_str(), cause))
        } else {
            None
        },
        _ => None,
    }
}

/// The files of a volume after a step that writes the menu `text`.
pub open spec fn after_grub_deed(
    fs: Map<Seq<char>, Seq<u8>>,
    text: Seq<u8>,
    d: GrubDeed,
) -> Map<Seq<char>, Seq<u8>> {
    match d {
        GrubDeed::MakeDir(_) => fs,
        GrubDeed::BackUp(p) => after_steps(
            fs,
            backup_steps(p, fs.contains_key(p), fs.contains_key(backup_path(p))),
        ),
        GrubDeed::Write(p, _) => fs.insert(p, text),
    }
}

/// The files of a volume after some steps that write the menu `text`.
pub open spec fn after_grub_deeds(
    fs: Map<Seq<char>, Seq<u8>>,
    text: Seq<u8>,
    ds: Seq<GrubDeed>,
) -> Map<Seq<char>, Seq<u8>>
    decreases ds.len(),
{
    if ds.len() == 0 {
        fs
    } else {
        after_grub_deed(after_grub_deeds(fs, text, ds.drop_last()), text, ds.last())
    }
}

/// `after` is what `fs` becomes at `path` where the file is overwritten with
/// `text`: an earlier backup stays, and otherwise the earlier file is the
/// backup.
pub open spec fn is_kept_and_written(
    fs: Map<Seq<char>, Seq<u8>>,
    after: Map<Seq<char>, Seq<u8>>,
    path: Seq<char>,
    text: Seq<u8>,
) -> bool {
    let b = backup_path(path);
    &&& after.contains_key(path) && after[path] == text
    &&& fs.contains_key(b) ==> after.contains_key(b) && after[b] == fs[b]
    &&& !fs.contains_key(b) && fs.contains_key(path) ==> after.contains_key(b) && after[b]
        == fs[path]
    &&& !fs.contains_key(b) && !fs.contains_key(path) ==> !after.contains_key(b)
}

/// The file at `q` is in `after` what it is in `fs`.
pub open spec fn is_same_at(
    fs: Map<Seq<char>, Seq<u8>>,
    after: Map<Seq<char>, Seq<u8>>,
    q: Seq<char>,
) -> bool {
    (after.contains_key(q) <==> fs.contains_key(q)) && (fs.contains_key(q) ==> after[q] == fs[q])
}

/// `q` is neither one of the files `ts` nor the backup of one.
pub open spec fn is_apart(ts: Seq<(Seq<char>, Seq<char>)>, q: Seq<char>) -> bool {
    forall|i: int|
        0 <= i < ts.len() ==> q != (#[trigger] ts[i]).1 && q != backup_path(ts[i].1)
}

/// The files `ts` and their backups all differ.
pub open spec fn all_apart(ts: Seq<(Seq<char>, Seq<char>)>) -> bool {
    forall|i: int, j: int|
        0 <= i < ts.len() && 0 <= j < ts.len() ==> (i != j ==> (#[trigger] ts[i]).1 != (
        #[trigger] ts[j]).1) && ts[i].1 != backup_path(ts[j].1)
}

proof fn backups_differ(a: Seq<char>, b: Seq<char>)
    requires
        a != b,
    ensures
        backup_path(a) != backup_path(b),
{
    if backup_path(a) == backup_path(b) {
        assert(a =~= backup_path(a).take(backup_path(a).len() - ESP_BACKUP_SUFFIX@.len()));
        assert(b =~= backup_path(b).take(backup_path(b).len() - ESP_BACKUP_SUFFIX@.len()));
    }
}

proof fn targets_are_written(
    fs: Map<Seq<char>, Seq<u8>>,
    text: Seq<u8>,
    ts: Seq<(Seq<char>, Seq<char>)>,
)
    requires
        all_apart(ts),
    ensures
        ({
            let after = after_grub_deeds(fs, text, target_deeds(ts));
            &&& forall|i: int|
                0 <= i < ts.len() ==> is_kept_and_written(fs, after, (#[trigger] ts[i]).1, text)
            &&& forall|q: Seq<char>|
                is_apart(ts, q) ==> #[trigger] is_same_at(fs, after, q)
        }),
    decreases ts.len(),
{
    if ts.len() > 0 {
        let front = ts.drop_last();
        let t = ts.last();
        let b = backup_path(t.1);
        assert forall|i: int, j: int| 0 <= i < front.len() && 0 <= j < front.len() implies (i != j
            ==> (#[trigger] front[i]).1 != (#[trigger] front[j]).1) && front[i].1 != backup_path(
            front[j].1,
        ) by {
            assert(front[i] == ts[i] && front[j] == ts[j]);
        }
        targets_are_written(fs, text, front);
        let mid = after_grub_deeds(fs, text, target_deeds(front));
        let n = ts.len() - 1;
        assert(ts[n] == t);
        assert forall|i: int| 0 <= i < front.len() implies t.1 != (#[trigger] front[i]).1 && t.1
            != backup_path(front[i].1) && b != front[i].1 && b != backup_path(front[i].1) by {
            assert(front[i] == ts[i]);
            assert(ts[i].1 != ts[n].1);
            backups_differ(t.1, ts[i].1);
        }
        assert(is_apart(front, t.1));
        assert(is_apart(front, b));
        assert(is_same_at(fs, mid, t.1));
        assert(is_same_at(fs, mid, b));
        let ds = target_deeds(ts);
        let kept = after_grub_deed(mid, text, GrubDeed::BackUp(t.1));
        let after = kept.insert(t.1, text);
        assert(ds.drop_last().drop_last().drop_last() =~= target_deeds(front));
        assert(after_grub_deeds(fs, text, ds) == after) by {
            reveal_with_fuel(after_grub_deeds, 4);
        }
        backup_is_elsewhere(t.1);
        let ss = backup_steps(t.1, mid.contains_key(t.1), mid.contains_key(b));
        assert(kept == (if mid.contains_key(t.1) && !mid.contains_key(b) {
            mid.insert(b, mid[t.1])
        } else {
            mid
        })) by {
            reveal_with_fuel(after_steps, 2);
            if ss.len() > 0 {
                assert(ss.drop_last() =~= Seq::empty());
            }
        }
        assert(is_kept_and_written(fs, after, t.1, text));
        assert forall|i: int| 0 <= i < ts.len() implies is_kept_and_written(
            fs,
            after,
            (#[trigger] ts[i]).1,
            text,
        ) by {
            if i < n {
                assert(front[i] == ts[i]);
                assert(is_kept_and_written(fs, mid, front[i].1, text));
                backups_differ(t.1, ts[i].1);
            }
        }
        assert forall|q: Seq<char>| is_apart(ts, q) implies #[trigger] is_same_at(fs, after, q) by {
            assert(q != ts[n].1 && q != backup_path(ts[n].1));
            assert(is_apart(front, q)) by {
                assert forall|i: int| 0 <= i < front.len() implies q != (#[trigger] front[i]).1 && q
                    != backup_path(front[i].1) by {
                    assert(front[i] == ts[i]);
                }
            }
            assert(is_same_at(fs, mid, q));
        }
    }
}

proof fn grub_files_differ(esp: Seq<char>)
    ensures
        all_apart(grub_targets(esp)),
{
    let ts = grub_targets(esp);
    reveal_strlit("EFI\\debian");
    reveal_strlit("EFI\\pardus");
    reveal_strlit("EFI\\BOOT");
    reveal_strlit("EFI\\NextOS");
    reveal_strlit("boot\\grub");
    reveal_strlit(":\\");
    reveal_strlit("\\");
    reveal_strlit("grub.cfg");
    reveal_strlit(".parkur-backup");
    let n = esp.len() as int;
    assert forall|i: int| 0 <= i < ts.len() implies (#[trigger] ts[i]).1.len() == n + 11
        + grub_dirs()[i].len() && ts[i].1.last() == 'g' && ts[i].1.subrange(
        n + 2,
        n + 2 + grub_dirs()[i].len(),
    ) =~= grub_dirs()[i] by {}
    assert("EFI\\debian"@[4] == 'd' && "EFI\\pardus"@[4] == 'p' && "EFI\\NextOS"@[4] == 'N');
    assert forall|i: int, j: int| 0 <= i < ts.len() && 0 <= j < ts.len() implies (i != j ==> (
    #[trigger] ts[i]).1 != (#[trigger] ts[j]).1) && ts[i].1 != backup_path(ts[j].1) by {
        assert(backup_path(ts[j].1).last() == 'p');
        if i != j && ts[i].1 == ts[j].1 {
            assert(grub_dirs()[i].len() == grub_dirs()[j].len());
            assert(grub_dirs()[i] == grub_dirs()[j]);
        }
    }
}

/// The boot menu is written to every place where a GRUB may look for it.
/// Whatever menu stood there is kept in its backup, and an earlier backup stays
/// as it is. No other file is touched.
pub proof fn menus_are_written_and_backed_up(
    fs: Map<Seq<char>, Seq<u8>>,
    text: Seq<u8>,
    esp: Seq<char>,
)
    ensures
        ({
            let ts = grub_targets(esp);
            let after = after_grub_deeds(fs, text, menu_deeds(ts, ts[0].1));
            &&& forall|i: int|
                0 <= i < ts.len() ==> is_kept_and_written(fs, after, (#[trigger] ts[i]).1, text)
            &&& forall|q: Seq<char>|
                is_apart(ts, q) ==> #[trigger] is_same_at(fs, after, q)
        }),
{
    let ts = grub_targets(esp);
    grub_files_differ(esp);
    targets_are_written(fs, text, ts);
    let before = after_grub_deeds(fs, text, target_deeds(ts));
    let ds = menu_deeds(ts, ts[0].1);
    assert(ds.drop_last() =~= target_deeds(ts));
    let after = after_grub_deeds(fs, text, ds);
    assert(is_kept_and_written(fs, before, ts[0].1, text));
    assert(after =~= before);
}

/// Each menu is backed up before it is written for the first time.
pub proof fn menus_are_backed_up_first(esp: Seq<char>, i: int)
    requires
        0 <= i < menu_deeds(grub_targets(esp), grub_targets(esp)[0].1).len(),
        menu_deeds(grub_targets(esp), grub_targets(esp)[0].1)[i] is Write,
    ensures
        ({
            let ds = menu_deeds(grub_targets(esp), grub_targets(esp)[0].1);
            ds.take(i).contains(GrubDeed::BackUp(ds[i]->Write_0))
        }),
{
    let ts = grub_targets(esp);
    let ds = menu_deeds(ts, ts[0].1);
    writes_follow_backups(ts);
    if i < target_deeds(ts).len() {
        assert(ds.take(i)[i - 1] == GrubDeed::BackUp(ds[i]->Write_0));
    } else {
        assert(target_deeds(ts)[2] == GrubDeed::Write(ts[0].1, false));
        assert(ds.take(i)[1] == GrubDeed::BackUp(ts[0].1));
    }
}

proof fn writes_follow_backups(ts: Seq<(Seq<char>, Seq<char>)>)
    ensures
        target_deeds(ts).len() == 3 * ts.len(),
        forall|i: int|
            0 <= i < target_deeds(ts).len() && (#[trigger] target_deeds(ts)[i]) is Write ==> i > 0
                && target_deeds(ts)[i - 1] == GrubDeed::BackUp(target_deeds(ts)[i]->Write_0),
        ts.len() > 0 ==> target_deeds(ts)[2] == GrubDeed::Write(ts[0].1, false),
    decreases ts.len(),
{
    if ts.len() > 0 {
        writes_follow_backups(ts.drop_last());
        let front = target_deeds(ts.drop_last());
        assert forall|i: int|
            0 <= i < target_deeds(ts).len() && (#[trigger] target_deeds(ts)[i]) is Write implies i
            > 0 && target_deeds(ts)[i - 1] == GrubDeed::BackUp(target_deeds(ts)[i]->Write_0) by {
            if i < front.len() {
                assert(target_deeds(ts)[i] == front[i]);
                assert(target_deeds(ts)[i - 1] == front[i - 1]);
            }
        }
        if ts.len() > 1 {
            assert(target_deeds(ts)[2] == front[2]);
        }
    }
}

/// The error for a boot menu that could not be written.
pub fn grub_cfg_error(primary: &str, cause: &str) -> (r: InstallerError)
    ensures
        r@ == (
            ErrorKind::BootloaderConfig,
            "grub.cfg write failed ("@ + primary@ + "): "@ + cause@,
        ),
{
    InstallerError::BootloaderConfig(
        "grub.cfg write failed (".to_owned().concat(primary).concat("): ").concat(cause),
    )
}

// ---------------------------------------------------------------------------
// Firmware entries
// ---------------------------------------------------------------------------

/// What `{:?}` writes between the brackets for a list of texts.
pub open spec fn debug_items(ts: Seq<Seq<char>>) -> Seq<char>
    decreases ts.len(),
{
    if ts.len() == 0 {
        Seq::empty()
    } else {
        debug_items(ts.drop_last()) + (if ts.len() == 1 {
            ""@
        } else {
            ", "@
        }) + debug_quoted(ts.last())
    }
}

fn debug_list(ts: &Vec<String>) -> (r: String)
    ensures
        r@ == "["@ + debug_items(texts(ts@)) + "]"@,
{
    let mut r: String = "[".to_owned();
    let ghost all = texts(ts@);
    let mut i: usize = 0;
    proof {
        reveal_strlit("");
        assert(r@ =~= "["@ + debug_items(all.take(0)));
    }
    while i < ts.len()
        invariant
            i <= ts@.len(),
            all == texts(ts@),
            r@ == "["@ + debug_items(all.take(i as int)),
        decreases ts@.len() - i,
    {
        assert(all.take(i + 1).drop_last() =~= all.take(i as int));
        assert(all.take(i + 1).last() == ts@[i as int]@);
        if i > 0 {
            r.append(", ");
        }
        let q = debug_text(ts[i].as_str());
        r.append(q.as_str());
        proof {
            reveal_strlit("");
            assert(r@ =~= "["@ + debug_items(all.take(i + 1)));
        }
        i = i + 1;
    }
    assert(all.take(i as int) =~= all);
    r.append("]");
    r
}

/// What a `bcdedit` run with the arguments `args` answers: its output where it
/// succeeded, an error with both outputs otherwise.
pub fn run_bcdedit(args: &Vec<String>, success: bool, stdout: String, stderr: &str) -> (r: Result<
    String,
    InstallerError,
>)
    ensures
        success ==> r == Ok::<String, InstallerError>(stdout),
        !success ==> r is Err && r->Err_0@ == (
            ErrorKind::BootloaderConfig,
            "bcdedit "@ + ("["@ + debug_items(texts(args@)) + "]"@) + " failed: "@ + trimmed(stdout@)
                + " "@ + trimmed(stderr@),
        ),
{
    if success {
        return Ok(stdout);
    }
    let list = debug_list(args);
    let o = trim(stdout.as_str());
    let e = trim(stderr);
    Err(
        InstallerError::BootloaderConfig(
            "bcdedit ".to_owned().concat(list.as_str()).concat(" failed: ").concat(
                o.as_str(),
            ).concat(" ").concat(e.as_str()),
        ),
    )
}

/// The error for a `bcdedit` that could not be started.
pub fn bcdedit_spawn_error(cause: &str) -> (r: InstallerError)
    ensures
        r@ == (ErrorKind::BootloaderConfig, "bcdedit spawn: "@ + cause@),
{
    InstallerError::BootloaderConfig("bcdedit spawn: ".to_owned().concat(cause))
}

/// The arguments for `bcdedit` that copy the Windows boot manager's entry,
/// which makes an entry that the firmware itself shows and starts.
pub fn copy_entry_args() -> (r: Vec<String>)
    ensures
        texts(r@) == seq!["/copy"@, "{bootmgr}"@, "/d"@, NEXTOS_BCD_DESCRIPTION@],
        texts(r@) == seq!["/copy"@, "{bootmgr}"@, "/d"@, "NextOS"@],
{
    let r: Vec<String> = vec![
        "/copy".to_owned(),
        "{bootmgr}".to_owned(),
        "/d".to_owned(),
        NEXTOS_BCD_DESCRIPTION.to_owned(),
    ];
    assert(texts(r@) =~= seq!["/copy"@, "{bootmgr}"@, "/d"@, NEXTOS_BCD_DESCRIPTION@]);
    r
}

/// The identifier of the copied entry, from what `bcdedit` answered.
pub fn copied_entry(success: bool, stdout: &str, stderr: &str) -> (r: Result<
    String,
    InstallerError,
>)
    ensures
        !success ==> r is Err && r->Err_0@ == (
            ErrorKind::BootloaderConfig,
            "bcdedit copy failed: "@ + trimmed(stderr@),
        ),
        success ==> match first_guid(stdout@) {
            Some(g) => r is Ok && r->Ok_0@ == g,
            None => r is Err && r->Err_0@ == (
                ErrorKind::BootloaderConfig,
                "GUID parse failed: "@ + trimmed(stdout@),
            ),
        },
{
    if !success {
        let e = trim(stderr);
        return Err(
            InstallerError::BootloaderConfig(
                "bcdedit copy failed: ".to_owned().concat(e.as_str()),
            ),
        );
    }
    match extract_first_guid(stdout) {
        Some(g) => Ok(g),
        None => {
            let o = trim(stdout);
            Err(
                InstallerError::BootloaderConfig(
                    "GUID parse failed: ".to_owned().concat(o.as_str()),
                ),
            )
        },
    }
}

/// A list of argument lists.
pub open spec fn arg_lists(v: Seq<Vec<String>>) -> Seq<Seq<Seq<char>>> {
    v.map_values(|a: Vec<String>| texts(a@))
}

/// The `bcdedit` calls that make the entry `guid` start `efi_path` on the
/// partition `esp`, and put it first.
pub open spec fn entry_calls(guid: Seq<char>, esp: Seq<char>, efi_path: Seq<char>) -> Seq<
    Seq<Seq<char>>,
> {
    seq![
        seq!["/set"@, guid, "device"@, "partition="@ + esp + ":"@],
        seq!["/set"@, guid, "path"@, efi_path],
        seq!["/set"@, guid, "description"@, NEXTOS_BCD_DESCRIPTION@],
        seq!["/set"@, "{fwbootmgr}"@, "displayorder"@, guid, "/addfirst"@],
        seq!["/timeout"@, "5"@],
    ]
}

/// The `bcdedit` calls that register the entry `guid`, in order. The entry
/// starts `efi_path` on the partition `esp_letter`.
pub fn entry_call_args(guid: &str, esp_letter: &str, efi_path: &str) -> (r: Vec<Vec<String>>)
    ensures
        arg_lists(r@) == entry_calls(guid@, esp_letter@, efi_path@),
{
    let device = "partition=".to_owned().concat(esp_letter).concat(":");
    let a: Vec<String> = vec!["/set".to_owned(), guid.to_owned(), "device".to_owned(), device];
    let b: Vec<String> = vec![
        "/set".to_owned(),
        guid.to_owned(),
        "path".to_owned(),
        efi_path.to_owned(),
    ];
    let c: Vec<String> = vec![
        "/set".to_owned(),
        guid.to_owned(),
        "description".to_owned(),
        NEXTOS_BCD_DESCRIPTION.to_owned(),
    ];
    let d: Vec<String> = vec![
        "/set".to_owned(),
        "{fwbootmgr}".to_owned(),
        "displayorder".to_owned(),
        guid.to_owned(),
        "/addfirst".to_owned(),
    ];
    let e: Vec<String> = vec!["/timeout".to_owned(), "5".to_owned()];
    let ghost calls = entry_calls(guid@, esp_letter@, efi_path@);
    assert(texts(a@) =~= calls[0]);
    assert(texts(b@) =~= calls[1]);
    assert(texts(c@) =~= calls[2]);
    assert(texts(d@) =~= calls[3]);
    assert(texts(e@) =~= calls[4]);
    let r: Vec<Vec<String>> = vec![a, b, c, d, e];
    assert(arg_lists(r@) =~= calls);
    r
}

/// What came of a step of registering a firmware entry.
pub enum EntryEvent {
    /// Earlier entries were deleted, as far as they could be.
    Cleaned,
    /// What copying an entry answered: whether it succeeded, and its two
    /// outputs; or why it could not be started.
    Copied { answer: Result<(bool, String, String), String> },
    /// What the call with the number `index` for the entry `guid` answered.
    Called { guid: String, index: usize, reply: Result<String, InstallerError> },
}

/// What comes next in registering a firmware entry.
pub enum EntryAction {
    /// Run `bcdedit` to copy an entry.
    Copy { args: Vec<String> },
    /// Run `bcdedit` for the call with the number `index`.
    Call { guid: String, index: usize, args: Vec<String> },
    Registered { guid: String },
}

/// How far the registration of a firmware entry is.
pub enum Registering {
    Copying,
    Calling(Seq<char>, int),
    Registered(Seq<char>),
    Failed(ErrorKind, Seq<char>),
}

/// How far the registration is where `r` comes next.
pub open spec fn registering(r: Result<EntryAction, InstallerError>) -> Registering {
    match r {
        Ok(EntryAction::Copy { .. }) => Registering::Copying,
        Ok(EntryAction::Call { guid, index, .. }) => Registering::Calling(guid@, index as int),
        Ok(EntryAction::Registered { guid }) => Registering::Registered(guid@),
        Err(e) => Registering::Failed(e@.0, e@.1),
    }
}

/// How far the registration is after copying an entry gave this answer.
pub open spec fn after_copy(answer: Result<(bool, Seq<char>, Seq<char>), Seq<char>>) -> Registering {
    match answer {
        Err(cause) => Registering::Failed(
            ErrorKind::BootloaderConfig,
            "bcdedit copy spawn: "@ + cause,
        ),
        Ok(a) => if !a.0 {
            Registering::Failed(
                ErrorKind::BootloaderConfig,
                "bcdedit copy failed: "@ + trimmed(a.2),
            )
        } else {
            match first_guid(a.1) {
                Some(g) => Registering::Calling(g, 0),
                None => Registering::Failed(
                    ErrorKind::BootloaderConfig,
                    "GUID parse failed: "@ + trimmed(a.1),
                ),
            }
        },
    }
}

/// How far the registration of the entry `guid` is after its call with the
/// number `index` gave this reply: a failure ends it, and after the last of the
/// calls the entry is registered.
pub open spec fn after_call(
    guid: Seq<char>,
    index: int,
    failure: Option<(ErrorKind, Seq<char>)>,
) -> Registering {
    match failure {
        Some(e) => Registering::Failed(e.0, e.1),
        None => if index < 4 {
            Registering::Calling(guid, index + 1)
        } else {
            Registering::Registered(guid)
        },
    }
}

/// How far the registration is after an event.
pub open spec fn after_entry_event(event: EntryEvent) -> Registering {
    match event {
        EntryEvent::Cleaned => Registering::Copying,
        EntryEvent::Copied { answer } => after_copy(
            match answer {
                Ok(a) => Ok((a.0, a.1@, a.2@)),
                Err(cause) => Err(cause@),
            },
        ),
        EntryEvent::Called { guid, index, reply } => after_call(
            guid@,
            index as int,
            match reply {
                Ok(_) => None,
                Err(e) => Some(e@),
            },
        ),
    }
}

/// The call with the number `index` for the entry `guid`.
fn entry_call(guid: String, index: usize, esp_letter: &str, efi_path: &str) -> (r: EntryAction)
    requires
        index < 5,
    ensures
        r is Call,
        r->Call_guid@ == guid@,
        r->Call_index == index,
        texts(r->Call_args@) == entry_calls(guid@, esp_letter@, efi_path@)[index as int],
{
    let mut calls = entry_call_args(guid.as_str(), esp_letter, efi_path);
    assert(calls@.len() == arg_lists(calls@).len());
    assert(texts(calls@[index as int]@) == arg_lists(calls@)[index as int]);
    let args = calls.swap_remove(index);
    EntryAction::Call { guid, index, args }
}

/// Register a firmware entry that starts `efi_path` on the partition
/// `esp_letter`, one `bcdedit` call at a time: what follows `event`. The first
/// call that fails ends the registration with its error. Where all of them
/// succeed, the identifier of the entry comes.
pub fn register_firmware_entry(esp_letter: &str, efi_path: &str, event: EntryEvent) -> (r: Result<
    EntryAction,
    InstallerError,
>)
    ensures
        registering(r) == after_entry_event(event),
        r matches Ok(EntryAction::Copy { args }) ==> texts(args@) == seq![
            "/copy"@,
            "{bootmgr}"@,
            "/d"@,
            NEXTOS_BCD_DESCRIPTION@,
        ],
        r matches Ok(EntryAction::Call { guid, index, args }) ==> index < 5 && texts(args@)
            == entry_calls(guid@, esp_letter@, efi_path@)[index as int],
        r matches Ok(EntryAction::Call { guid, index, args }) ==> {
            &&& index == 0 ==> texts(args@) == seq![
                "/set"@,
                guid@,
                "device"@,
                "partition="@ + esp_letter@ + ":"@,
            ]
            &&& index == 1 ==> texts(args@) == seq!["/set"@, guid@, "path"@, efi_path@]
            &&& index == 2 ==> texts(args@) == seq!["/set"@, guid@, "description"@, "NextOS"@]
            &&& index == 3 ==> texts(args@) == seq![
                "/set"@,
                "{fwbootmgr}"@,
                "displayorder"@,
                guid@,
                "/addfirst"@,
            ]
            &&& index == 4 ==> texts(args@) == seq!["/timeout"@, "5"@]
        },
        event is Cleaned ==> r is Ok && r->Ok_0 is Copy,
        event matches EntryEvent::Copied { answer } ==> {
            &&& answer matches Err(cause) ==> r is Err && r->Err_0@ == (
                ErrorKind::BootloaderConfig,
                "bcdedit copy spawn: "@ + cause@,
            )
            &&& answer matches Ok(a) ==> (!a.0 ==> r is Err && r->Err_0@ == (
                ErrorKind::BootloaderConfig,
                "bcdedit copy failed: "@ + trimmed(a.2@),
            )) && (a.0 && first_guid(a.1@) is None ==> r is Err && r->Err_0@ == (
                ErrorKind::BootloaderConfig,
                "GUID parse failed: "@ + trimmed(a.1@),
            )) && (a.0 && first_guid(a.1@) is Some ==> r is Ok && r->Ok_0 is Call
                && r->Ok_0->Call_guid@ == first_guid(a.1@)->Some_0 && r->Ok_0->Call_index == 0)
        },
        event matches EntryEvent::Called { guid, index, reply } ==> {
            &&& reply is Ok && index < 4 ==> r is Ok && r->Ok_0 is Call && r->Ok_0->Call_guid@ == guid@
                && r->Ok_0->Call_index == index + 1
            &&& reply is Ok && index >= 4 ==> r is Ok && r->Ok_0 is Registered
                && r->Ok_0->Registered_guid@ == guid@
            &&& reply is Err ==> r is Err && r->Err_0@ == reply->Err_0@
        },
{
    match event {
        EntryEvent::Cleaned => Ok(EntryAction::Copy { args: copy_entry_args() }),
        EntryEvent::Copied { answer } => match answer {
            Ok((success, stdout, stderr)) => match copied_entry(
                success,
                stdout.as_str(),
                stderr.as_str(),
            ) {
                Ok(guid) => Ok(entry_call(guid, 0, esp_letter, efi_path)),
                Err(e) => Err(e),
            },
            Err(cause) => Err(
                InstallerError::BootloaderConfig(
                    "bcdedit copy spawn: ".to_owned().concat(cause.as_str()),
                ),
            ),
        },
        EntryEvent::Called { guid, index, reply } => match reply {
            Ok(_) => if index < 4 {
                Ok(entry_call(guid, index + 1, esp_letter, efi_path))
            } else {
                Ok(EntryAction::Registered { guid })
            },
            Err(e) => Err(e),
        },
    }
}

/// How far the registration of the entry `guid` is after its calls failed or
/// succeeded in turn, as `failures` has it.
pub open spec fn after_calls(
    guid: Seq<char>,
    failures: Seq<Option<(ErrorKind, Seq<char>)>>,
) -> Registering
    decreases failures.len(),
{
    if failures.len() == 0 {
        Registering::Calling(guid, 0)
    } else {
        match after_calls(guid, failures.drop_last()) {
            Registering::Calling(g, index) => after_call(g, index, failures.last()),
            ended => ended,
        }
    }
}

proof fn calls_succeed_in_turn(guid: Seq<char>, failures: Seq<Option<(ErrorKind, Seq<char>)>>)
    requires
        failures.len() < 5,
        forall|i: int| 0 <= i < failures.len() ==> (#[trigger] failures[i]) is None,
    ensures
        after_calls(guid, failures) == Registering::Calling(guid, failures.len() as int),
    decreases failures.len(),
{
    if failures.len() > 0 {
        assert forall|i: int| 0 <= i < failures.drop_last().len() implies (
        #[trigger] failures.drop_last()[i]) is None by {
            assert(failures.drop_last()[i] == failures[i]);
        }
        calls_succeed_in_turn(guid, failures.drop_last());
        assert(failures[failures.len() - 1] is None);
    }
}

/// Where each of the five calls succeeds, the entry is registered under its
/// identifier.
pub proof fn registration_succeeds_with_its_calls(
    guid: Seq<char>,
    failures: Seq<Option<(ErrorKind, Seq<char>)>>,
)
    requires
        failures.len() == 5,
        forall|i: int| 0 <= i < 5 ==> (#[trigger] failures[i]) is None,
    ensures
        after_calls(guid, failures) == Registering::Registered(guid),
{
    assert forall|i: int| 0 <= i < failures.drop_last().len() implies (
    #[trigger] failures.drop_last()[i]) is None by {
        assert(failures.drop_last()[i] == failures[i]);
    }
    calls_succeed_in_turn(guid, failures.drop_last());
    assert(failures[4] is None);
}

/// The first call that fails ends the registration with its error, whatever the
/// calls behind it would have answered.
pub proof fn first_failure_ends_registration(
    guid: Seq<char>,
    failures: Seq<Option<(ErrorKind, Seq<char>)>>,
    k: int,
)
    requires
        0 <= k < failures.len(),
        k < 5,
        failures[k] is Some,
        forall|i: int| 0 <= i < k ==> (#[trigger] failures[i]) is None,
    ensures
        after_calls(guid, failures) == Registering::Failed(
            failures[k]->Some_0.0,
            failures[k]->Some_0.1,
        ),
    decreases failures.len(),
{
    let front = failures.drop_last();
    if k == failures.len() - 1 {
        assert forall|i: int| 0 <= i < front.len() implies (#[trigger] front[i]) is None by {
            assert(front[i] == failures[i]);
        }
        calls_succeed_in_turn(guid, front);
    } else {
        assert(front[k] == failures[k]);
        assert forall|i: int| 0 <= i < k implies (#[trigger] front[i]) is None by {
            assert(front[i] == failures[i]);
        }
        first_failure_ends_registration(guid, front, k);
    }
}

/// The script that lists the firmware entries of NextOS.
pub const FIRMWARE_ENTRIES_SCRIPT: &'static str =
    r#"
        $output = bcdedit /enum firmware 2>&1 | Out-String
        $entries = @()
        $currentId = $null
        foreach ($line in ($output -split "`n")) {
            $line = $line.Trim()
            if ($line -match '^identifier\s+(.+)$') {
                $currentId = $Matches[1].Trim()
            }
            if ($line -match '^description\s+(.+)$') {
                $desc = $Matches[1].Trim()
                if ($currentId -and ($desc -like '*NextOS*' -or $desc -like '*Next OS*' -or $desc -like '*Next-OS*')) {
                    if ($currentId -ne '{bootmgr}' -and $currentId -ne '{fwbootmgr}') {
                        $entries += $currentId
                    }
                }
            }
        }
        if ($entries.Count -eq 0) { "NONE" }
        else { $entries -join ";" }
    "#;

/// The entries in the answer of the script.
pub open spec fn listed_entries(out: Seq<char>) -> Seq<Seq<char>> {
    let t = trimmed(out);
    if t == "NONE"@ || t.len() == 0 {
        Seq::empty()
    } else {
        split_on(t, ';').map_values(|g: Seq<char>| trimmed(g))
    }
}

/// The entries to delete, from what the script answered.
pub fn cleanup_nextos_firmware_entries(reply: Result<String, InstallerError>) -> (r: Result<
    Vec<String>,
    InstallerError,
>)
    ensures
        match reply {
            Ok(out) => r is Ok && texts(r->Ok_0@) == listed_entries(out@),
            Err(e) => r == Err::<Vec<String>, InstallerError>(e),
        },
{
    match reply {
        Ok(out) => {
            let t = trim(out.as_str());
            let mut r: Vec<String> = Vec::new();
            if same(t.as_str(), "NONE") || t.as_str().is_empty() {
                assert(texts(r@) =~= Seq::empty());
                return Ok(r);
            }
            let parts = split(t.as_str(), ';');
            let ghost want = split_on(t@, ';').map_values(|g: Seq<char>| trimmed(g));
            let mut i: usize = 0;
            while i < parts.len()
                invariant
                    i <= parts@.len(),
                    texts(parts@) == split_on(t@, ';'),
                    want == split_on(t@, ';').map_values(|g: Seq<char>| trimmed(g)),
                    texts(r@) =~= want.take(i as int),
                decreases parts@.len() - i,
            {
                assert(split_on(t@, ';')[i as int] == parts@[i as int]@);
                let ghost before = texts(r@);
                let g = trim(parts[i].as_str());
                r.push(g);
                assert(texts(r@) =~= before.push(want[i as int]));
                i = i + 1;
            }
            assert(want.take(i as int) =~= want);
            Ok(r)
        },
        Err(e) => Err(e),
    }
}

/// The arguments for `bcdedit` that delete the entry `guid`.
pub fn delete_entry_args(guid: &str) -> (r: Vec<String>)
    ensures
        texts(r@) == seq!["/delete"@, guid@, "/f"@],
{
    let r: Vec<String> = vec!["/delete".to_owned(), guid.to_owned(), "/f".to_owned()];
    assert(texts(r@) =~= seq!["/delete"@, guid@, "/f"@]);
    r
}

/// Those of `names` whose flag is set.
pub open spec fn flagged(names: Seq<Seq<char>>, flags: Seq<bool>) -> Seq<Seq<char>>
    decreases names.len(),
{
    if names.len() == 0 {
        Seq::empty()
    } else {
        let front = flagged(names.drop_last(), flags);
        if flags[names.len() - 1] {
            front.push(names.last())
        } else {
            front
        }
    }
}

/// The entries that were deleted, where `done` says of each whether it was.
pub fn deleted_entries(entries: &Vec<String>, done: &Vec<bool>) -> (r: Vec<String>)
    requires
        done@.len() == entries@.len(),
    ensures
        texts(r@) == flagged(texts(entries@), done@),
{
    let mut r: Vec<String> = Vec::new();
    let ghost all = texts(entries@);
    let mut i: usize = 0;
    assert(texts(r@) =~= flagged(all.take(0), done@));
    while i < entries.len()
        invariant
            i <= entries@.len(),
            done@.len() == entries@.len(),
            all == texts(entries@),
            texts(r@) == flagged(all.take(i as int), done@),
        decreases entries@.len() - i,
    {
        assert(all.take(i + 1).drop_last() =~= all.take(i as int));
        assert(all[i as int] == entries@[i as int]@);
        let ghost before = texts(r@);
        if done[i] {
            r.push(entries[i].clone());
            assert(texts(r@) =~= before.push(all[i as int]));
        }
        i = i + 1;
    }
    assert(all.take(i as int) =~= all);
    r
}

// ---------------------------------------------------------------------------
// The boot menu timeout
// ---------------------------------------------------------------------------

/// The arguments for `bcdedit` that list the boot manager's settings.
pub fn read_timeout_args() -> (r: Vec<String>)
    ensures
        texts(r@) == seq!["/enum"@, "{bootmgr}"@],
{
    let r: Vec<String> = vec!["/enum".to_owned(), "{bootmgr}".to_owned()];
    assert(texts(r@) =~= seq!["/enum"@, "{bootmgr}"@]);
    r
}

/// The timeout in one line of the settings: the last word of a line that
/// begins with `timeout`, where it is a number.
pub open spec fn line_timeout(line: Seq<char>) -> Option<Seq<char>> {
    let t = trimmed(line);
    let ws = words_of(t);
    if has_prefix(lowered(t), "timeout"@) && ws.len() > 0 && forall|i: int|
        0 <= i < ws.last().len() ==> is_digit(#[trigger] ws.last()[i]) {
        Some(ws.last())
    } else {
        None
    }
}

/// The timeout in the first line of `ls` that has one.
pub open spec fn first_timeout(ls: Seq<Seq<char>>) -> Option<Seq<char>>
    decreases ls.len(),
{
    if ls.len() == 0 {
        None
    } else {
        match line_timeout(ls[0]) {
            Some(v) => Some(v),
            None => first_timeout(ls.skip(1)),
        }
    }
}

fn only_digits(s: &str) -> (r: bool)
    ensures
        r == forall|i: int| 0 <= i < s@.len() ==> is_digit(#[trigger] s@[i]),
{
    let v = chars_of(s);
    let mut i: usize = 0;
    while i < v.len()
        invariant
            v@ == s@,
            i <= v@.len(),
            forall|j: int| 0 <= j < i ==> is_digit(#[trigger] s@[j]),
        decreases v@.len() - i,
    {
        assert(s@[i as int] == v@[i as int]);
        if !('0' <= v[i] && v[i] <= '9') {
            return false;
        }
        i = i + 1;
    }
    true
}

/// The boot menu timeout, from what `bcdedit` listed, if it listed anything.
pub fn read_firmware_boot_timeout(reply: Result<String, InstallerError>) -> (r: Option<String>)
    ensures
        text_of(r) == (match reply {
            Ok(out) => first_timeout(lines_of(out@)),
            Err(_) => None,
        }),
{
    match reply {
        Ok(out) => {
            let ls = lines(out.as_str());
            let ghost all = lines_of(out@);
            let mut i: usize = 0;
            assert(all.skip(0) =~= all);
            while i < ls.len()
                invariant
                    i <= ls@.len(),
                    texts(ls@) == all,
                    all == lines_of(out@),
                    reply == Ok::<String, InstallerError>(out),
                    first_timeout(all) == first_timeout(all.skip(i as int)),
                decreases ls@.len() - i,
            {
                assert(all[i as int] == ls@[i as int]@);
                assert(all.skip(i as int).skip(1) =~= all.skip(i + 1));
                let t = trim(ls[i].as_str());
                let lower = ascii_lowercase(t.as_str());
                if starts_with(lower.as_str(), "timeout") {
                    let ws = words(t.as_str());
                    if ws.len() > 0 {
                        let last = &ws[ws.len() - 1];
                        assert(words_of(t@).last() == last@);
                        if only_digits(last.as_str()) {
                            assert(line_timeout(all[i as int]) == Some(last@));
                            return Some(last.clone());
                        }
                    } else {
                        assert(words_of(t@).len() == 0);
                    }
                }
                i = i + 1;
            }
            assert(ls@.len() == all.len());
            None
        },
        Err(_) => None,
    }
}

/// What to write to the backup of the boot menu timeout: nothing where there
/// is one already, or where the timeout is not known.
pub fn backup_firmware_boot_timeout_to_host(backup_exists: bool, timeout: Option<String>) -> (r:
    Option<String>)
    ensures
        r == (if backup_exists {
            None
        } else {
            timeout
        }),
{
    if backup_exists {
        None
    } else {
        timeout
    }
}

/// The arguments for `bcdedit` that restore the boot menu timeout `backup`;
/// none where the backup is blank. The backup is removed once this is done.
pub fn restore_firmware_boot_timeout_from_host(backup: &str) -> (r: Option<Vec<String>>)
    ensures
        match r {
            Some(args) => trimmed(backup@).len() > 0 && texts(args@) == seq![
                "/timeout"@,
                trimmed(backup@),
            ],
            None => trimmed(backup@).len() == 0,
        },
{
    let t = trim(backup);
    if t.as_str().is_empty() {
        return None;
    }
    let args: Vec<String> = vec!["/timeout".to_owned(), t];
    assert(texts(args@) =~= seq!["/timeout"@, trimmed(backup@)]);
    Some(args)
}

// ---------------------------------------------------------------------------
// Removal and reboot
// ---------------------------------------------------------------------------

/// What is removed from the system partition.
pub struct EspCleanup {
    /// Removed with all that is in it.
    pub nextos_dir: String,
    /// Restored from their backups, or removed.
    pub overwritten: Vec<String>,
    /// Removed if they are empty.
    pub dirs: Vec<String>,
}

/// The files outside our own directory that an installation writes.
pub open spec fn overwritten_files(esp: Seq<char>) -> Seq<Seq<char>> {
    seq![
        host_path(removable_dir(esp), ESP_REMOVABLE_FILE@),
        host_path(removable_dir(esp), "grubx64.efi"@),
        host_path(removable_dir(esp), "grub.cfg"@),
        host_path(drive_path(esp, "EFI\\debian"@), "grub.cfg"@),
        host_path(drive_path(esp, "EFI\\pardus"@), "grub.cfg"@),
        host_path(drive_path(esp, "boot\\grub"@), "grub.cfg"@),
    ]
}

/// What to remove from the system partition to undo an installation.
pub fn cleanup_esp_payload(esp_letter: &str) -> (r: EspCleanup)
    ensures
        r.nextos_dir@ == nextos_dir(esp_letter@),
        r.nextos_dir@ == esp_letter@ + ":\\"@ + "EFI\\NextOS"@,
        texts(r.overwritten@) == overwritten_files(esp_letter@),
        r.overwritten@.len() == 6,
        forall|i: int|
            0 <= i < 6 ==> (#[trigger] texts(r.overwritten@)[i]) == esp_letter@ + ":\\"@ + (seq![
                "EFI\\BOOT"@,
                "EFI\\BOOT"@,
                "EFI\\BOOT"@,
                "EFI\\debian"@,
                "EFI\\pardus"@,
                "boot\\grub"@,
            ])[i] + "\\"@ + (seq![
                "BOOTX64.EFI"@,
                "grubx64.efi"@,
                "grub.cfg"@,
                "grub.cfg"@,
                "grub.cfg"@,
                "grub.cfg"@,
            ])[i],
        texts(r.dirs@) == seq![
            drive_path(esp_letter@, "EFI\\debian"@),
            drive_path(esp_letter@, "EFI\\pardus"@),
            drive_path(esp_letter@, "boot\\grub"@),
            drive_path(esp_letter@, "boot"@),
        ],
{
    let removable = drive_join(esp_letter, ESP_REMOVABLE_DIR);
    let debian = drive_join(esp_letter, "EFI\\debian");
    let pardus = drive_join(esp_letter, "EFI\\pardus");
    let grub = drive_join(esp_letter, "boot\\grub");
    let boot = drive_join(esp_letter, "boot");
    let overwritten: Vec<String> = vec![
        host_join(removable.as_str(), ESP_REMOVABLE_FILE),
        host_join(removable.as_str(), "grubx64.efi"),
        host_join(removable.as_str(), "grub.cfg"),
        host_join(debian.as_str(), "grub.cfg"),
        host_join(pardus.as_str(), "grub.cfg"),
        host_join(grub.as_str(), "grub.cfg"),
    ];
    assert(texts(overwritten@) =~= overwritten_files(esp_letter@));
    let dirs: Vec<String> = vec![debian, pardus, grub, boot];
    assert(texts(dirs@) =~= seq![
        drive_path(esp_letter@, "EFI\\debian"@),
        drive_path(esp_letter@, "EFI\\pardus"@),
        drive_path(esp_letter@, "boot\\grub"@),
        drive_path(esp_letter@, "boot"@),
    ]);
    EspCleanup { nextos_dir: esp_nextos_dir(esp_letter), overwritten, dirs }
}

/// The arguments for `bcdedit` that make the next boot, and only that one,
/// start the entry `guid`; none where no entry is known.
pub fn set_nextos_bootsequence(guid: &str) -> (r: Option<Vec<String>>)
    ensures
        match r {
            Some(args) => guid@.len() > 0 && texts(args@) == seq![
                "/set"@,
                "{fwbootmgr}"@,
                "bootsequence"@,
                guid@,
            ],
            None => guid@.len() == 0,
        },
{
    if guid.is_empty() {
        return None;
    }
    let args: Vec<String> = vec![
        "/set".to_owned(),
        "{fwbootmgr}".to_owned(),
        "bootsequence".to_owned(),
        guid.to_owned(),
    ];
    assert(texts(args@) =~= seq!["/set"@, "{fwbootmgr}"@, "bootsequence"@, guid@]);
    Some(args)
}

/// The arguments for `shutdown` that restart the machine.
pub fn reboot_args() -> (r: Vec<String>)
    ensures
        texts(r@) == seq!["/r"@, "/t"@, "3"@, "/c"@, "Booting into NextOS"@],
{
    let r: Vec<String> = vec![
        "/r".to_owned(),
        "/t".to_owned(),
        "3".to_owned(),
        "/c".to_owned(),
        "Booting into NextOS".to_owned(),
    ];
    assert(texts(r@) =~= seq!["/r"@, "/t"@, "3"@, "/c"@, "Booting into NextOS"@]);
    r
}

/// What a `shutdown` run answers.
pub fn reboot_system(success: bool, stderr: &str) -> (r: Result<(), InstallerError>)
    ensures
        success ==> r is Ok,
        !success ==> r is Err && r->Err_0@ == (
            ErrorKind::BootloaderConfig,
            "reboot failed: "@ + trimmed(stderr@),
        ),
{
    if success {
        return Ok(());
    }
    let e = trim(stderr);
    Err(InstallerError::BootloaderConfig("reboot failed: ".to_owned().concat(e.as_str())))
}

/// The cleanup reaches every file that an installation writes on the system
/// partition: each is one that is restored or removed, or it stands in our own
/// directory, which is removed.
pub proof fn cleanup_reaches_every_file(esp: Seq<char>, p: EfiPlan, name: Seq<char>)
    requires
        is_efi_plan(p, esp, name),
    ensures
        overwritten_files(esp).contains(p.removable_dest@),
        p.grub is Some ==> overwritten_files(esp).contains(p.grub->Some_0.1@),
        forall|i: int|
            0 <= i < grub_targets(esp).len() ==> {
                ||| overwritten_files(esp).contains((#[trigger] grub_targets(esp)[i]).1)
                ||| grub_targets(esp)[i].1 == host_path(nextos_dir(esp), "grub.cfg"@)
            },
{
    let o = overwritten_files(esp);
    assert(o[0] == p.removable_dest@);
    assert(o.contains(o[0]) && o.contains(o[1]) && o.contains(o[2]) && o.contains(o[3])
        && o.contains(o[4]) && o.contains(o[5]));
    assert forall|i: int| 0 <= i < grub_targets(esp).len() implies {
        ||| o.contains((#[trigger] grub_targets(esp)[i]).1)
        ||| grub_targets(esp)[i].1 == host_path(nextos_dir(esp), "grub.cfg"@)
    } by {
        let t = grub_targets(esp)[i].1;
        if i == 0 {
            assert(t == o[3]);
        } else if i == 1 {
            assert(t == o[4]);
        } else if i == 2 {
            assert(t == o[2]);
        } else if i == 4 {
            assert(t == o[5]);
        }
    }
}

/// A wanted file whose first two bytes are `MZ` is an EFI program at every size
/// from 1024 bytes on and at no smaller one, so that a file that is one stays
/// one as it grows; nothing is one with other first bytes or without a size.
pub proof fn programs_are_accepted_from_1024_bytes_on(head: Seq<u8>, n: u64, m: u64)
    ensures
        head.len() == 2 && head[0] == 0x4D && head[1] == 0x5A && n >= 1024 ==> is_pe_image(
            head,
            Some(n),
        ),
        n < 1024 ==> !is_pe_image(head, Some(n)),
        is_pe_image(head, Some(n)) && n <= m ==> is_pe_image(head, Some(m)),
        head.len() != 2 || head[0] != 0x4D || head[1] != 0x5A ==> !is_pe_image(head, Some(n)),
        !is_pe_image(head, None),
{
    if head.len() == 2 && head[0] == 0x4D && head[1] == 0x5A {
        assert(head =~= seq![0x4Du8, 0x5A]);
    }
}

/// A file is wanted exactly where it is a file, its name in small letters ends
/// in `.efi`, and that name is not among those that were copied; once it was
/// copied it is wanted no more.
pub proof fn programs_are_copied_once(lower: Seq<char>, is_file: bool, copied: Seq<Seq<char>>)
    ensures
        is_new_efi(lower, is_file, copied) <==> is_file && (exists|stem: Seq<char>|
            lower == #[trigger] (stem + ".efi"@)) && forall|i: int|
            0 <= i < copied.len() ==> #[trigger] copied[i] != lower,
        !is_new_efi(lower, is_file, copied.push(lower)),
{
    crate::text::parts_of_a_text(lower, ".efi"@);
    assert(copied.push(lower)[copied.len() as int] == lower);
}

/// The program that the firmware starts is one that was copied: the shim where
/// it was, the default program where only that and GRUB were, and GRUB where
/// nothing else was. There is none exactly where none of the three was copied,
/// so that more programs never leave the firmware without one.
pub proof fn firmware_starts_a_copied_program(copied: Seq<Seq<char>>, more: Seq<Seq<char>>)
    ensures
        boot_name(copied) is Some ==> copied.contains(boot_name(copied)->Some_0),
        copied.contains("shimx64.efi"@) ==> boot_name(copied) == Some("shimx64.efi"@),
        copied.contains("bootx64.efi"@) && !copied.contains("shimx64.efi"@) ==> boot_name(copied)
            == Some("bootx64.efi"@),
        copied.contains("grubx64.efi"@) && !copied.contains("shimx64.efi"@) && !copied.contains(
            "bootx64.efi"@,
        ) ==> boot_name(copied) == Some("grubx64.efi"@),
        boot_name(copied) is None <==> !copied.contains("shimx64.efi"@) && !copied.contains(
            "bootx64.efi"@,
        ) && !copied.contains("grubx64.efi"@),
        boot_name(copied) is Some ==> boot_name(copied + more) is Some,
{
    if boot_name(copied) is Some {
        let n = boot_name(copied)->Some_0;
        let i = choose|i: int| 0 <= i < copied.len() && copied[i] == n;
        assert((copied + more)[i] == n);
        assert((copied + more).contains(n));
    }
}

/// The firmware entry points to the very file that the program was copied to,
/// and that file is what goes to the fallback boot path; GRUB goes beside it,
/// unless it is the program itself.
pub proof fn plan_points_to_the_copied_program(p: EfiPlan, esp: Seq<char>, name: Seq<char>)
    requires
        is_efi_plan(p, esp, name),
    ensures
        p.boot_path@ == "\\EFI\\NextOS\\"@ + name,
        p.primary_src@ == esp + ":"@ + p.boot_path@,
        p.primary_src@ == host_path(nextos_dir(esp), name),
        p.removable_dest@ == p.boot_dir@ + "\\BOOTX64.EFI"@,
        p.boot_dir@ == esp + ":\\EFI\\BOOT"@,
        p.grub is None <==> name == "grubx64.efi"@,
        p.grub is Some ==> p.grub->Some_0.0@ == esp + ":\\EFI\\NextOS\\grubx64.efi"@
            && p.grub->Some_0.1@ == p.boot_dir@ + "\\grubx64.efi"@,
{
    reveal_strlit("\\EFI\\NextOS\\");
    reveal_strlit("\\");
    reveal_strlit("EFI\\NextOS");
    reveal_strlit(":\\");
    reveal_strlit(":");
    reveal_strlit("\\BOOTX64.EFI");
    reveal_strlit("BOOTX64.EFI");
    reveal_strlit("EFI\\BOOT");
    reveal_strlit(":\\EFI\\BOOT");
    reveal_strlit(":\\EFI\\NextOS\\grubx64.efi");
    reveal_strlit("\\grubx64.efi");
    reveal_strlit("grubx64.efi");
    assert(p.boot_path@ =~= "\\EFI\\NextOS\\"@ + name);
    assert(p.primary_src@ =~= esp + ":"@ + p.boot_path@);
    assert(p.removable_dest@ =~= p.boot_dir@ + "\\BOOTX64.EFI"@);
    assert(p.boot_dir@ =~= esp + ":\\EFI\\BOOT"@);
    if p.grub is Some {
        assert(p.grub->Some_0.0@ =~= esp + ":\\EFI\\NextOS\\grubx64.efi"@);
        assert(p.grub->Some_0.1@ =~= p.boot_dir@ + "\\grubx64.efi"@);
    }
}

/// The fallback boot path is made first and then gets the program, and GRUB
/// beside it exactly where the plan has it and it is there; nothing else is
/// copied.
pub proof fn fallback_path_gets_the_program(p: EfiPlan, grub_there: bool)
    ensures
        efi_place_deeds(p, grub_there)[0] == PlaceDeed::MakeDir(p.boot_dir@),
        efi_place_deeds(p, grub_there)[2] == PlaceDeed::Copy(p.primary_src@, p.removable_dest@),
        p.grub is Some && grub_there ==> efi_place_deeds(p, grub_there).len() == 5
            && efi_place_deeds(p, grub_there)[4] == PlaceDeed::Copy(
            p.grub->Some_0.0@,
            p.grub->Some_0.1@,
        ),
        !(p.grub is Some && grub_there) ==> efi_place_deeds(p, grub_there).len() == 3,
{
}

/// A FAT image that has a drive letter is searched in its `EFI` directory and at
/// its root before it is unmounted; one without a letter is not searched.
pub proof fn efi_img_is_searched_before_it_goes(temp: Seq<char>, letter: Option<Seq<char>>)
    ensures
        letter matches Some(l) ==> mounted_img_deeds(temp, letter).len() == 4 && mounted_img_deeds(
            temp,
            letter,
        )[0] == ImgDeed::Walk(l + ":\\"@ + "EFI"@) && mounted_img_deeds(temp, letter)[1]
            == ImgDeed::Files(l + ":\\"@ + ""@),
        letter is None ==> mounted_img_deeds(temp, letter).len() == 2,
{
}

/// The deleted entries are those whose flag is set: each of them and no other,
/// all of them where every flag is set.
pub proof fn deleted_entries_are_the_flagged_ones(names: Seq<Seq<char>>, flags: Seq<bool>)
    requires
        flags.len() >= names.len(),
    ensures
        forall|n: Seq<char>| #[trigger]
            flagged(names, flags).contains(n) <==> exists|i: int|
                0 <= i < names.len() && flags[i] && #[trigger] names[i] == n,
        (forall|i: int| 0 <= i < names.len() ==> flags[i]) ==> flagged(names, flags) == names,
        flagged(names, flags).len() <= names.len(),
    decreases names.len(),
{
    if names.len() > 0 {
        let front = names.drop_last();
        let last = names.len() - 1;
        deleted_entries_are_the_flagged_ones(front, flags);
        let f = flagged(front, flags);
        let all = flagged(names, flags);
        assert forall|n: Seq<char>| #[trigger] all.contains(n) <==> exists|i: int|
            0 <= i < names.len() && flags[i] && #[trigger] names[i] == n by {
            if all.contains(n) {
                let k = choose|k: int| 0 <= k < all.len() && all[k] == n;
                if k < f.len() {
                    assert(f[k] == n);
                    assert(f.contains(n));
                    let i = choose|i: int|
                        0 <= i < front.len() && flags[i] && #[trigger] front[i] == n;
                    assert(names[i] == n);
                } else {
                    assert(names[last] == n);
                }
            }
            if exists|i: int| 0 <= i < names.len() && flags[i] && #[trigger] names[i] == n {
                let i = choose|i: int| 0 <= i < names.len() && flags[i] && #[trigger] names[i] == n;
                if i < last {
                    assert(front[i] == n);
                    assert(f.contains(n));
                    let k = choose|k: int| 0 <= k < f.len() && f[k] == n;
                    assert(all[k] == n);
                } else {
                    assert(all[f.len() as int] == n);
                }
            }
        }
        if forall|i: int| 0 <= i < names.len() ==> flags[i] {
            assert(forall|i: int| 0 <= i < front.len() ==> flags[i]);
            assert(flags[last]);
            assert(all =~= names);
        }
    }
}

/// Where the script found nothing, nothing is listed; otherwise the list is what
/// stands between the semicolons, each piece without the white space around it.
pub proof fn listed_entries_stand_between_semicolons(
    a: Seq<char>,
    out: Seq<char>,
    b: Seq<char>,
)
    requires
        is_blank(a),
        is_blank(b),
        out.len() == 0 || (!is_space(out[0]) && !is_space(out.last())),
    ensures
        out.len() == 0 ==> listed_entries(a + out + b).len() == 0,
        out == "NONE"@ ==> listed_entries(a + out + b).len() == 0,
        out.len() > 0 && out != "NONE"@ ==> listed_entries(a + out + b).len() == split_on(
            out,
            ';',
        ).len() && forall|i: int|
            0 <= i < split_on(out, ';').len() ==> (#[trigger] listed_entries(a + out + b)[i])
                == trimmed(split_on(out, ';')[i]),
        out.len() > 0 && out != "NONE"@ && !out.contains(';') ==> listed_entries(a + out + b)
            == seq![out],
{
    trimming_keeps_what_is_between(a, out, b);
    if out.len() > 0 && out != "NONE"@ && !out.contains(';') {
        pieces_are_what_stands_between(out, Seq::empty(), ';');
        let none = Seq::<char>::empty();
        assert(none + out + none =~= out);
        trimming_keeps_what_is_between(none, out, none);
        assert(listed_entries(a + out + b) =~= seq![out]);
    }
}

proof fn last_word_stands_last(s: Seq<char>)
    requires
        s.len() > 0,
        !is_space(s.last()),
    ensures
        words_of(s).len() > 0,
        words_of(s).last().len() > 0,
        is_solid(words_of(s).last()),
        has_suffix(s, words_of(s).last()),
    decreases s.len(),
{
    first_word_stands_first(s);
    let ws = words_of(s);
    if ws.len() == 0 {
        assert(is_space(s[s.len() - 1]));
    }
    let (a, b) = choose|a: Seq<char>, b: Seq<char>|
        is_blank(a) && (b.len() == 0 || is_space(b[0])) && s == #[trigger] (a + ws[0] + b) && ws
            == seq![ws[0]] + words_of(b);
    if b.len() == 0 {
        let none = Seq::<char>::empty();
        words_are_the_pieces_between_white_space(b, none, none);
        assert(b =~= none);
        assert(ws =~= seq![ws[0]]);
        assert(s.skip(s.len() - ws[0].len()) =~= ws[0]);
    } else {
        assert(b.last() == s.last());
        last_word_stands_last(b);
        let w = words_of(b).last();
        assert(ws.last() == w);
        assert(s.skip(s.len() - w.len()) =~= b.skip(b.len() - w.len()));
    }
}

/// A timeout that a line gives is a number of one decimal digit or more at its
/// end, and the line begins with `timeout` in capital or small letters, but for
/// white space around.
pub proof fn timeout_is_the_number_at_the_end(line: Seq<char>)
    requires
        line_timeout(line) is Some,
    ensures
        ({
            let v = line_timeout(line)->Some_0;
            &&& v.len() > 0
            &&& forall|i: int| 0 <= i < v.len() ==> '0' <= #[trigger] v[i] && v[i] <= '9'
            &&& has_suffix(trimmed(line), v)
            &&& has_prefix(lowered(trimmed(line)), "timeout"@)
        }),
{
    let t = trimmed(line);
    trimming_takes_white_space_only(line);
    reveal_strlit("timeout");
    assert(t.len() > 0) by {
        assert(lowered(t).len() == t.len());
    }
    last_word_stands_last(t);
}

/// A line with the word `timeout`, in capital or small letters, white space and
/// a number gives that number, whatever white space stands around it.
pub proof fn timeout_line_is_read(
    before: Seq<char>,
    word: Seq<char>,
    gap: Seq<char>,
    number: Seq<char>,
    behind: Seq<char>,
)
    requires
        is_blank(before),
        lowered(word) == "timeout"@,
        is_blank(gap),
        gap.len() > 0,
        number.len() > 0,
        forall|i: int| 0 <= i < number.len() ==> '0' <= #[trigger] number[i] && number[i] <= '9',
        is_blank(behind),
    ensures
        line_timeout(before + word + gap + number + behind) == Some(number),
{
    let line = before + word + gap + number + behind;
    let t = word + gap + number;
    reveal_strlit("timeout");
    assert(lowered(word).len() == word.len());
    assert forall|k: int| 0 <= k < word.len() implies !is_space(#[trigger] word[k]) by {
        assert(lowered(word)[k] == "timeout"@[k]);
        small_letter_is_no_space(word[k]);
    }
    assert forall|k: int| 0 <= k < number.len() implies !is_space(#[trigger] number[k]) by {
        digit_is_no_space(number[k]);
    }
    assert(is_solid(word));
    assert(is_solid(number));
    assert(t[0] == word[0]);
    assert(t.last() == number.last() && number.last() == number[number.len() - 1]);
    assert(line =~= before + t + behind);
    trimming_keeps_what_is_between(before, t, behind);
    let none = Seq::<char>::empty();
    assert(t =~= none + word + (gap + number));
    assert((gap + number)[0] == gap[0]);
    words_are_the_pieces_between_white_space(none, word, gap + number);
    assert(gap + number =~= gap + number + none);
    words_are_the_pieces_between_white_space(gap, number, none);
    words_are_the_pieces_between_white_space(none, none, none);
    assert(words_of(t) =~= seq![word, number]);
    assert(lowered(t).take(7) =~= "timeout"@) by {
        assert forall|k: int| 0 <= k < 7 implies lowered(t)[k] == "timeout"@[k] by {
            assert(lowered(t)[k] == lowered(word)[k]);
        }
    }
}

proof fn small_letter_is_no_space(c: char)
    requires
        'a' <= lower_char(c),
        lower_char(c) <= 'z',
    ensures
        !is_space(c),
{
    case_is_a_bit_of_the_code(c);
}

proof fn digit_is_no_space(c: char)
    requires
        '0' <= c,
        c <= '9',
    ensures
        !is_space(c),
{
}

/// The timeout is that of the first line that gives one, and there is none
/// exactly where no line does.
pub proof fn first_listed_timeout_counts(ls: Seq<Seq<char>>)
    ensures
        match first_timeout(ls) {
            Some(v) => exists|i: int|
                0 <= i < ls.len() && line_timeout(#[trigger] ls[i]) == Some(v) && forall|j: int|
                    0 <= j < i ==> line_timeout(#[trigger] ls[j]) is None,
            None => forall|i: int| 0 <= i < ls.len() ==> line_timeout(#[trigger] ls[i]) is None,
        },
    decreases ls.len(),
{
    if ls.len() > 0 && line_timeout(ls[0]) is None {
        let rest = ls.skip(1);
        first_listed_timeout_counts(rest);
        match first_timeout(rest) {
            Some(v) => {
                let i = choose|i: int|
                    0 <= i < rest.len() && line_timeout(#[trigger] rest[i]) == Some(v)
                        && forall|j: int| 0 <= j < i ==> line_timeout(#[trigger] rest[j]) is None;
                assert(ls[i + 1] == rest[i]);
                assert forall|j: int| 0 <= j < i + 1 implies line_timeout(
                    #[trigger] ls[j],
                ) is None by {
                    if j > 0 {
                        assert(ls[j] == rest[j - 1]);
                    }
                }
            },
            None => {
                assert forall|i: int| 0 <= i < ls.len() implies line_timeout(
                    #[trigger] ls[i],
                ) is None by {
                    if i > 0 {
                        assert(ls[i] == rest[i - 1]);
                    }
                }
            },
        }
    }
}

/// The entry of the boot menu for NextOS ends in the kernel of the host volume
/// and the serial number, and goes on with the root disk, the root file system,
/// and the initrd with the overlay behind it; these are the files that an
/// installation writes.
pub proof fn menu_boots_the_files_of_the_host_volume()
    ensures
        has_suffix(
            GRUB_CFG_HEAD@,
            "linux ($ntfsroot)/"@ + NEXTOS_HOST_DIR_NAME@ + "/"@ + HOST_BOOT_DIR_NAME@ + "/"@
                + HOST_KERNEL_FILENAME@ + " ro nextos_host_serial="@,
        ),
        has_prefix(
            GRUB_CFG_TAIL@,
            " nextos_root_disk=/"@ + NEXTOS_HOST_DIR_NAME@ + "/"@ + ROOT_DISK_FILENAME@
                + " nextos_squashfs=/"@ + NEXTOS_HOST_DIR_NAME@ + "/"@ + SQUASHFS_FILENAME@
                + "\n    initrd ($ntfsroot)/"@ + NEXTOS_HOST_DIR_NAME@ + "/"@ + HOST_BOOT_DIR_NAME@
                + "/"@ + HOST_INITRD_FILENAME@ + " ($ntfsroot)/"@ + NEXTOS_HOST_DIR_NAME@ + "/"@
                + HOST_BOOT_DIR_NAME@ + "/"@ + HOST_OVERLAY_FILENAME@ + "\n}"@,
        ),
{
    reveal_strlit("linux ($ntfsroot)/");
    reveal_strlit("NextOS");
    reveal_strlit("/");
    reveal_strlit("boot");
    reveal_strlit("vmlinuz");
    reveal_strlit(" ro nextos_host_serial=");
    reveal_strlit(" nextos_root_disk=/");
    reveal_strlit("root.disk");
    reveal_strlit(" nextos_squashfs=/");
    reveal_strlit("filesystem.squashfs");
    reveal_strlit("\n    initrd ($ntfsroot)/");
    reveal_strlit("initrd.img");
    reveal_strlit(" ($ntfsroot)/");
    reveal_strlit("overlay.cpio.gz");
    reveal_strlit("\n}");
    reveal_strlit(r#"set default="0"
set timeout="3"
set timeout_style="menu"

insmod part_gpt
insmod part_msdos
insmod fat
insmod ntfs
if insmod ntfs3; then true; fi
insmod chain
insmod search
insmod search_fs_file
insmod search_fs_uuid
insmod all_video
insmod gfxterm
insmod linux

if loadfont unicode; then
    set gfxmode=auto
    terminal_output gfxterm
elif loadfont $prefix/fonts/unicode.pf2; then
    set gfxmode=auto
    terminal_output gfxterm
fi

# Locate the NTFS host volume containing the NextOS payload.
# search --file sets 'ntfsroot' to the partition device (e.g. hd0,gpt3).
search --no-floppy --set=ntfsroot --file /NextOS/boot/vmlinuz

# NOTE: 'quiet splash' intentionally omitted so the [nextos] initramfs logs
# stay visible while the boot flow is being stabilised. Re-add once stable.
# The overlay is loaded as a SECOND initrd: the kernel extracts both archives
# in order, so the overlay's /init replaces live-boot's /init.
menuentry "NextOS" {
    linux ($ntfsroot)/NextOS/boot/vmlinuz ro nextos_host_serial="#);
    reveal_strlit(r#" nextos_root_disk=/NextOS/root.disk nextos_squashfs=/NextOS/filesystem.squashfs
    initrd ($ntfsroot)/NextOS/boot/initrd.img ($ntfsroot)/NextOS/boot/overlay.cpio.gz
}

menuentry "Windows" {
    search --no-floppy --set=winroot --file /EFI/Microsoft/Boot/bootmgfw.efi
    chainloader ($winroot)/EFI/Microsoft/Boot/bootmgfw.efi
}
"#);
    let k = "linux ($ntfsroot)/"@ + NEXTOS_HOST_DIR_NAME@ + "/"@ + HOST_BOOT_DIR_NAME@ + "/"@
        + HOST_KERNEL_FILENAME@ + " ro nextos_host_serial="@;
    assert(GRUB_CFG_HEAD@.skip(GRUB_CFG_HEAD@.len() - k.len()) =~= k);
    let i = " nextos_root_disk=/"@ + NEXTOS_HOST_DIR_NAME@ + "/"@ + ROOT_DISK_FILENAME@
        + " nextos_squashfs=/"@ + NEXTOS_HOST_DIR_NAME@ + "/"@ + SQUASHFS_FILENAME@
        + "\n    initrd ($ntfsroot)/"@ + NEXTOS_HOST_DIR_NAME@ + "/"@ + HOST_BOOT_DIR_NAME@ + "/"@
        + HOST_INITRD_FILENAME@ + " ($ntfsroot)/"@ + NEXTOS_HOST_DIR_NAME@ + "/"@
        + HOST_BOOT_DIR_NAME@ + "/"@ + HOST_OVERLAY_FILENAME@ + "\n}"@;
    assert(GRUB_CFG_TAIL@.take(i.len() as int) =~= i);
}

/// An EFI directory is searched four directories deep: a file in four
/// directories, one in the other, is met, and one in a fifth is not.
pub proof fn efi_directory_is_searched_four_directories_deep(
    a: Entry,
    b: Entry,
    c: Entry,
    d: Entry,
    e: Entry,
    file: Entry,
    dir: Seq<char>,
)
    requires
        a.node matches Node::Dir(s) && s@ == seq![b],
        b.node matches Node::Dir(s) && s@ == seq![c],
        c.node matches Node::Dir(s) && s@ == seq![d],
        d.node matches Node::Dir(s) && (s@ == seq![file] || s@ == seq![e]),
        e.node matches Node::Dir(s) && s@ == seq![file],
        file.node is File,
    ensures
        ({
            let fs = files_under(seq![a], dir, 0, EFI_DEPTH as nat);
            let inner = d.node->Dir_0@;
            &&& inner == seq![file] ==> fs.len() == 1 && fs[0].0 == file.name@
            &&& inner == seq![e] ==> fs.len() == 0
        }),
{
    let lim = EFI_DEPTH as nat;
    one_entry_is_listed_by_its_kind(a, dir, 0, lim);
    let p1 = path_in(dir, a.name@);
    one_entry_is_listed_by_its_kind(b, p1, 1, lim);
    let p2 = path_in(p1, b.name@);
    one_entry_is_listed_by_its_kind(c, p2, 2, lim);
    let p3 = path_in(p2, c.name@);
    one_entry_is_listed_by_its_kind(d, p3, 3, lim);
    let p4 = path_in(p3, d.name@);
    one_entry_is_listed_by_its_kind(file, p4, 4, lim);
    one_entry_is_listed_by_its_kind(e, p4, 4, lim);
    let p5 = path_in(p4, e.name@);
    one_entry_is_listed_by_its_kind(file, p5, 5, lim);
}

/// Of the steps that write the menu exactly the last one must succeed: it writes
/// the first of the places once more.
pub proof fn last_write_of_the_menu_must_succeed(ts: Seq<(Seq<char>, Seq<char>)>, primary: Seq<char>)
    ensures
        ({
            let ds = menu_deeds(ts, primary);
            &&& ds.len() == 3 * ts.len() + 1
            &&& ds.last() == GrubDeed::Write(primary, true)
            &&& forall|i: int|
                0 <= i < ds.len() - 1 ==> ((#[trigger] ds[i]) matches GrubDeed::Write(_, must) ==> !must)
            &&& forall|k: int|
                0 <= k < ts.len() ==> ds[3 * k] == GrubDeed::MakeDir((#[trigger] ts[k]).0) && ds[3 * k
                    + 1] == GrubDeed::BackUp(ts[k].1) && ds[3 * k + 2] == GrubDeed::Write(
                    ts[k].1,
                    false,
                )
        }),
    decreases ts.len(),
{
    let ds = menu_deeds(ts, primary);
    writes_follow_backups(ts);
    if ts.len() > 0 {
        let front = ts.drop_last();
        let n = front.len() as int;
        last_write_of_the_menu_must_succeed(front, primary);
        writes_follow_backups(front);
        let fd = menu_deeds(front, primary);
        let td = target_deeds(front);
        assert(forall|i: int| 0 <= i < td.len() ==> ds[i] == fd[i]);
        assert forall|i: int| 0 <= i < ds.len() - 1 implies ((
        #[trigger] ds[i]) matches GrubDeed::Write(_, must) ==> !must) by {
            if i < td.len() {
                assert(ds[i] == fd[i]);
            }
        }
        assert forall|k: int| 0 <= k < ts.len() implies ds[3 * k] == GrubDeed::MakeDir(
            (#[trigger] ts[k]).0,
        ) && ds[3 * k + 1] == GrubDeed::BackUp(ts[k].1) && ds[3 * k + 2] == GrubDeed::Write(
            ts[k].1,
            false,
        ) by {
            if k < n {
                assert(ts[k] == front[k]);
                assert(fd[3 * k] == GrubDeed::MakeDir(front[k].0));
            } else {
                assert(ts[k] == ts.last());
            }
        }
    }
}

/// The firmware counts as UEFI where its kind is two and as BIOS where it is one,
/// and the system partition is the one with the type that the GUID partition
/// table has for it.
pub proof fn firmware_is_told_by_its_kind()
    ensures
        occurs(BOOT_MODE_SCRIPT@, "if ($fwType -eq 2) { \"UEFI\" }\n        elseif ($fwType -eq 1) { \"BIOS\" }"@),
        occurs(MOUNT_ESP_SCRIPT@, "$_.GptType -eq '{c12a7328-f81f-11d2-ba4b-00a0c93ec93b}'"@),
{
    reveal_strlit(
        r#"
        $fwType = (Get-ItemProperty -Path 'HKLM:\SYSTEM\CurrentControlSet\Control' -Name 'PEFirmwareType' -ErrorAction SilentlyContinue).PEFirmwareType
        if ($fwType -eq 2) { "UEFI" }
        elseif ($fwType -eq 1) { "BIOS" }
        else {
            if (Test-Path 'HKLM:\SYSTEM\CurrentControlSet\Control\SecureBoot') { "UEFI" }
            else { "BIOS" }
        }
    "#,
    );
    reveal_strlit("if ($fwType -eq 2) { \"UEFI\" }\n        elseif ($fwType -eq 1) { \"BIOS\" }");
    assert(BOOT_MODE_SCRIPT@.subrange(161, 232) =~= "if ($fwType -eq 2) { \"UEFI\" }\n        elseif ($fwType -eq 1) { \"BIOS\" }"@);
    assert(occurs_at(BOOT_MODE_SCRIPT@, "if ($fwType -eq 2) { \"UEFI\" }\n        elseif ($fwType -eq 1) { \"BIOS\" }"@, 161));
    reveal_strlit(
        r#"
        $espPart = Get-Partition | Where-Object { $_.GptType -eq '{c12a7328-f81f-11d2-ba4b-00a0c93ec93b}' } | Select-Object -First 1
        if (-not $espPart) { throw "EFI System Partition not found" }
        if ($espPart.DriveLetter) {
            $espPart.DriveLetter
            return
        }
        $targetLetter = $null
        foreach ($l in @('S','R','Q','P')) {
            if (-not (Test-Path "${l}:\")) {
                $targetLetter = $l
                break
            }
        }
        if (-not $targetLetter) { throw "No drive letter available for ESP" }
        Add-PartitionAccessPath -DiskNumber $espPart.DiskNumber -PartitionNumber $espPart.PartitionNumber -AccessPath "${targetLetter}:\" -ErrorAction Stop
        Start-Sleep -Milliseconds 1000
        $targetLetter
    "#,
    );
    reveal_strlit("$_.GptType -eq '{c12a7328-f81f-11d2-ba4b-00a0c93ec93b}'");
    assert(MOUNT_ESP_SCRIPT@.subrange(51, 106) =~= "$_.GptType -eq '{c12a7328-f81f-11d2-ba4b-00a0c93ec93b}'"@);
    assert(occurs_at(MOUNT_ESP_SCRIPT@, "$_.GptType -eq '{c12a7328-f81f-11d2-ba4b-00a0c93ec93b}'"@, 51));
}

/// Of the firmware entries those are listed whose description holds the name of
/// NextOS in one of its spellings, and never one of the two boot managers.
pub proof fn only_our_entries_are_listed()
    ensures
        occurs(FIRMWARE_ENTRIES_SCRIPT@, "if ($currentId -and ($desc -like '*NextOS*' -or $desc -like '*Next OS*' -or $desc -like '*Next-OS*')) {\n                    if ($currentId -ne '{bootmgr}' -and $currentId -ne '{fwbootmgr}') {\n                        $entries += $currentId"@),
        occurs(FIRMWARE_ENTRIES_SCRIPT@, "if ($entries.Count -eq 0) { \"NONE\" }\n        else { $entries -join \";\" }"@),
{
    reveal_strlit(
        r#"
        $output = bcdedit /enum firmware 2>&1 | Out-String
        $entries = @()
        $currentId = $null
        foreach ($line in ($output -split "`n")) {
            $line = $line.Trim()
            if ($line -match '^identifier\s+(.+)$') {
                $currentId = $Matches[1].Trim()
            }
            if ($line -match '^description\s+(.+)$') {
                $desc = $Matches[1].Trim()
                if ($currentId -and ($desc -like '*NextOS*' -or $desc -like '*Next OS*' -or $desc -like '*Next-OS*')) {
                    if ($currentId -ne '{bootmgr}' -and $currentId -ne '{fwbootmgr}') {
                        $entries += $currentId
                    }
                }
            }
        }
        if ($entries.Count -eq 0) { "NONE" }
        else { $entries -join ";" }
    "#,
    );
    reveal_strlit("if ($currentId -and ($desc -like '*NextOS*' -or $desc -like '*Next OS*' -or $desc -like '*Next-OS*')) {\n                    if ($currentId -ne '{bootmgr}' -and $currentId -ne '{fwbootmgr}') {\n                        $entries += $currentId");
    assert(FIRMWARE_ENTRIES_SCRIPT@.subrange(424, 662) =~= "if ($currentId -and ($desc -like '*NextOS*' -or $desc -like '*Next OS*' -or $desc -like '*Next-OS*')) {\n                    if ($currentId -ne '{bootmgr}' -and $currentId -ne '{fwbootmgr}') {\n                        $entries += $currentId"@);
    assert(occurs_at(FIRMWARE_ENTRIES_SCRIPT@, "if ($currentId -and ($desc -like '*NextOS*' -or $desc -like '*Next OS*' -or $desc -like '*Next-OS*')) {\n                    if ($currentId -ne '{bootmgr}' -and $currentId -ne '{fwbootmgr}') {\n                        $entries += $currentId"@, 424));
    reveal_strlit("if ($entries.Count -eq 0) { \"NONE\" }\n        else { $entries -join \";\" }");
    assert(FIRMWARE_ENTRIES_SCRIPT@.subrange(735, 807) =~= "if ($entries.Count -eq 0) { \"NONE\" }\n        else { $entries -join \";\" }"@);
    assert(occurs_at(FIRMWARE_ENTRIES_SCRIPT@, "if ($entries.Count -eq 0) { \"NONE\" }\n        else { $entries -join \";\" }"@, 735));
}

/// What is seen of a step is what stands in it, and lists of steps and of
/// arguments are seen item by item.
pub proof fn boot_steps_are_seen_as_they_are(a: String, b: String, m: bool, v: Seq<Vec<String>>, i: int)
    ensures
        (FileStep::Copy { from: a, to: b })@ == Step::Copy(a@, b@),
        (FileStep::Rename { from: a, to: b })@ == Step::Rename(a@, b@),
        (FileStep::Remove { path: a })@ == Step::Remove(a@),
        (ImgStep::Walk { dir: a })@ == ImgDeed::Walk(a@),
        (ImgStep::Files { dir: a })@ == ImgDeed::Files(a@),
        (ImgStep::Run { script: a })@ == ImgDeed::Run(a@),
        (ImgStep::Remove { path: a })@ == ImgDeed::Remove(a@),
        (PlaceStep::MakeDir { path: a })@ == PlaceDeed::MakeDir(a@),
        (PlaceStep::BackUp { path: a })@ == PlaceDeed::BackUp(a@),
        (PlaceStep::Copy { from: a, to: b })@ == PlaceDeed::Copy(a@, b@),
        (GrubStep::MakeDir { path: a })@ == GrubDeed::MakeDir(a@),
        (GrubStep::BackUp { path: a })@ == GrubDeed::BackUp(a@),
        (GrubStep::Write { path: a, must_succeed: m })@ == GrubDeed::Write(a@, m),
        0 <= i < v.len() ==> arg_lists(v).len() == v.len() && arg_lists(v)[i].len() == v[i]@.len()
            && forall|k: int|
            0 <= k < v[i]@.len() ==> #[trigger] arg_lists(v)[i][k] == v[i]@[k]@,
{
}

/// A list of arguments is written in the order of its items, with a comma and a
/// space between two of them and nothing before the first.
pub proof fn arguments_are_written_with_commas(ts: Seq<Seq<char>>, t: Seq<char>)
    ensures
        debug_items(Seq::empty()) == Seq::<char>::empty(),
        debug_items(seq![t]) == debug_quoted(t),
        ts.len() > 0 ==> debug_items(ts.push(t)) == debug_items(ts) + ", "@ + debug_quoted(t),
{
    reveal_strlit("");
    reveal_with_fuel(debug_items, 2);
    assert(seq![t].drop_last() =~= Seq::<Seq<char>>::empty());
    assert(debug_items(seq![t]) =~= debug_quoted(t));
    assert(ts.push(t).drop_last() =~= ts);
}

/// Lists of steps and of files are seen item by item, in their order.
pub proof fn boot_lists_are_seen_item_by_item(
    v: Seq<FileStep>,
    w: Seq<(String, String)>,
    i: int,
)
    ensures
        steps_of(v).len() == v.len(),
        0 <= i < v.len() ==> steps_of(v)[i] == v[i]@,
        files_of(w).len() == w.len(),
        0 <= i < w.len() ==> files_of(w)[i] == (w[i].0@, w[i].1@),
{
}

} // verus!
