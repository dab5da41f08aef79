//! The overlay initrd: a gzipped cpio `newc` archive with the init program,
//! the first-boot program, the install password and extra kernel modules.
use crate::ascii::{remove_two, without_two};
use crate::codec::{gunzipped, gzip, gzipped};
use crate::error::{ErrorKind, InstallerError};
use crate::newc::{
    pad_to, padded, push_header, record_is_read, records, records_end, with_record,
    with_record_grows,
};
use crate::squashfs_ops::{module_parent_dirs, NtfsModuleBlob};
use crate::text::{has_prefix, same, texts, with_lf};
use crate::util::to_lf;
use crate::winpath::parent_dirs;
use vstd::prelude::*;
use vstd::slice::slice_to_vec;
use vstd::utf8::encode_utf8;

verus! {

/// One entry of the overlay.
pub struct OverlayEntry {
    pub path: String,
    pub mode: u32,
    pub content: Vec<u8>,
}

pub const MODE_DIR: u32 = 0o040755;

pub const MODE_EXEC: u32 = 0o100755;

pub const MODE_FILE: u32 = 0o100644;

pub const MODE_FILE_SECRET: u32 = 0o100600;

impl View for OverlayEntry {
    type V = (Seq<char>, u32, Seq<u8>);

    open spec fn view(&self) -> (Seq<char>, u32, Seq<u8>) {
        (self.path@, self.mode, self.content@)
    }
}

/// A list of entries by their views.
pub open spec fn entries_of(v: Seq<OverlayEntry>) -> Seq<(Seq<char>, u32, Seq<u8>)> {
    v.map_values(|e: OverlayEntry| e@)
}

/// The mode is that of a directory.
pub open spec fn is_dir_mode(mode: u32) -> bool {
    mode & 0o170000 == 0o040000
}

// ---------------------------------------------------------------------------
// Staging
// ---------------------------------------------------------------------------

/// The entry of the directory `d`.
pub open spec fn dir_entry(d: Seq<char>) -> (Seq<char>, u32, Seq<u8>) {
    (d, MODE_DIR, Seq::empty())
}

/// `es` with the directory `d`, unless it is listed already.
pub open spec fn with_dir(es: Seq<(Seq<char>, u32, Seq<u8>)>, d: Seq<char>) -> Seq<
    (Seq<char>, u32, Seq<u8>),
> {
    if es.contains(dir_entry(d)) {
        es
    } else {
        es.push(dir_entry(d))
    }
}

/// `es` with those of the directories `ds` that it does not list yet.
pub open spec fn with_dirs(es: Seq<(Seq<char>, u32, Seq<u8>)>, ds: Seq<Seq<char>>) -> Seq<
    (Seq<char>, u32, Seq<u8>),
>
    decreases ds.len(),
{
    if ds.len() == 0 {
        es
    } else {
        with_dir(with_dirs(es, ds.drop_last()), ds.last())
    }
}

/// The modules by path and content.
pub open spec fn modules_of(v: Seq<NtfsModuleBlob>) -> Seq<(Seq<char>, Seq<u8>)> {
    v.map_values(|b: NtfsModuleBlob| (b.cpio_path@, b.data@))
}

/// `es` with each module, behind the directories that it needs.
pub open spec fn with_modules(
    es: Seq<(Seq<char>, u32, Seq<u8>)>,
    modules: Seq<(Seq<char>, Seq<u8>)>,
) -> Seq<(Seq<char>, u32, Seq<u8>)>
    decreases modules.len(),
{
    if modules.len() == 0 {
        es
    } else {
        let m = modules.last();
        with_dirs(with_modules(es, modules.drop_last()), parent_dirs(m.0)).push(
            (m.0, MODE_FILE, m.1),
        )
    }
}

/// The directories that every overlay has.
pub open spec fn base_dirs() -> Seq<(Seq<char>, u32, Seq<u8>)> {
    seq![
        dir_entry("usr"@),
        dir_entry("usr/local"@),
        dir_entry("usr/local/sbin"@),
        dir_entry("var"@),
        dir_entry("var/lib"@),
        dir_entry("var/lib/nextos"@),
    ]
}

/// The entry that holds the install password, without line ends.
pub open spec fn secret_entry(password: Seq<char>) -> (Seq<char>, u32, Seq<u8>) {
    (
        "var/lib/nextos/install.pass"@,
        MODE_FILE_SECRET,
        encode_utf8(without_two(password, '\n', '\r')),
    )
}

/// The two programs of the overlay, with Unix line ends.
pub open spec fn programs(init: Seq<char>, firstboot: Seq<char>) -> Seq<
    (Seq<char>, u32, Seq<u8>),
> {
    seq![
        ("init"@, MODE_EXEC, encode_utf8(with_lf(init))),
        ("usr/local/sbin/nextos-firstboot"@, MODE_EXEC, encode_utf8(with_lf(firstboot))),
    ]
}

/// What every overlay begins with.
pub open spec fn staged_base(
    init: Seq<char>,
    firstboot: Seq<char>,
    password: Option<Seq<char>>,
) -> Seq<(Seq<char>, u32, Seq<u8>)> {
    base_dirs() + (match password {
        Some(p) => seq![secret_entry(p)],
        None => Seq::empty(),
    }) + programs(init, firstboot)
}

/// The entries of an overlay, in order.
pub open spec fn staged(
    init: Seq<char>,
    firstboot: Seq<char>,
    password: Option<Seq<char>>,
    modules: Seq<(Seq<char>, Seq<u8>)>,
) -> Seq<(Seq<char>, u32, Seq<u8>)> {
    with_modules(staged_base(init, firstboot, password), modules)
}

/// A password that may be missing, by its text.
pub open spec fn password_text(p: Option<&str>) -> Option<Seq<char>> {
    match p {
        Some(s) => Some(s@),
        None => None,
    }
}

/// Every directory of `es` is empty.
pub open spec fn dirs_are_empty(es: Seq<(Seq<char>, u32, Seq<u8>)>) -> bool {
    forall|i: int| 0 <= i < es.len() && (#[trigger] es[i]).1 == MODE_DIR ==> es[i].2.len() == 0
}

fn push_dir(v: &mut Vec<OverlayEntry>, d: &str)
    requires
        dirs_are_empty(entries_of(old(v)@)),
    ensures
        entries_of(final(v)@) == with_dir(entries_of(old(v)@), d@),
        dirs_are_empty(entries_of(final(v)@)),
{
    let ghost es = entries_of(v@);
    let mut i: usize = 0;
    while i < v.len()
        invariant
            i <= v@.len(),
            *v == *old(v),
            es == entries_of(v@),
            dirs_are_empty(es),
            forall|j: int| 0 <= j < i ==> #[trigger] es[j] != dir_entry(d@),
        decreases v@.len() - i,
    {
        assert(es[i as int] == v@[i as int]@);
        if v[i].mode == MODE_DIR && same(v[i].path.as_str(), d) {
            assert(es[i as int].2 =~= Seq::<u8>::empty());
            assert(es[i as int] == dir_entry(d@));
            return;
        }
        i = i + 1;
    }
    assert(!es.contains(dir_entry(d@)));
    let content: Vec<u8> = Vec::new();
    v.push(OverlayEntry { path: d.to_owned(), mode: MODE_DIR, content });
    assert(v@.last()@.2 =~= Seq::<u8>::empty());
    assert(entries_of(v@) =~= es.push(dir_entry(d@)));
}

fn push_file(v: &mut Vec<OverlayEntry>, path: &str, mode: u32, content: Vec<u8>)
    requires
        dirs_are_empty(entries_of(old(v)@)),
        mode != MODE_DIR,
    ensures
        entries_of(final(v)@) == entries_of(old(v)@).push((path@, mode, content@)),
        dirs_are_empty(entries_of(final(v)@)),
{
    let ghost es = entries_of(v@);
    v.push(OverlayEntry { path: path.to_owned(), mode, content });
    assert(entries_of(v@) =~= es.push((path@, mode, content@)));
}

/// Each directory that every overlay has is new among those before it.
proof fn base_dirs_differ()
    ensures
        forall|k: int|
            0 <= k < 6 ==> with_dir(base_dirs().take(k), (#[trigger] base_dirs()[k]).0)
                == base_dirs().take(k + 1),
{
    reveal_strlit("usr");
    reveal_strlit("usr/local");
    reveal_strlit("usr/local/sbin");
    reveal_strlit("var");
    reveal_strlit("var/lib");
    reveal_strlit("var/lib/nextos");
    assert("usr"@[0] != "var"@[0]);
    assert("usr/local/sbin"@[0] != "var/lib/nextos"@[0]);
    assert forall|k: int| 0 <= k < 6 implies with_dir(
        base_dirs().take(k),
        (#[trigger] base_dirs()[k]).0,
    ) == base_dirs().take(k + 1) by {
        let es = base_dirs().take(k);
        let d = base_dirs()[k].0;
        assert(base_dirs()[k] == dir_entry(d));
        if es.contains(dir_entry(d)) {
            let j = choose|j: int| 0 <= j < es.len() && es[j] == dir_entry(d);
            assert(base_dirs()[j].0 == d);
        }
        assert(es.push(dir_entry(d)) =~= base_dirs().take(k + 1));
    }
}

/// Lay out the overlay: the directories, the install password where there is
/// one, the programs, and each extra module behind the directories it needs.
/// No directory is listed twice.
pub fn stage_overlay_entries(
    init: &str,
    firstboot: &str,
    install_password: Option<&str>,
    extras: &[NtfsModuleBlob],
) -> (r: Vec<OverlayEntry>)
    ensures
        entries_of(r@) == staged(
            init@,
            firstboot@,
            password_text(install_password),
            modules_of(extras@),
        ),
{
    let mut v: Vec<OverlayEntry> = Vec::new();
    assert(entries_of(v@) =~= base_dirs().take(0));
    proof {
        base_dirs_differ();
    }
    push_dir(&mut v, "usr");
    push_dir(&mut v, "usr/local");
    push_dir(&mut v, "usr/local/sbin");
    push_dir(&mut v, "var");
    push_dir(&mut v, "var/lib");
    push_dir(&mut v, "var/lib/nextos");
    assert(entries_of(v@) =~= base_dirs()) by {
        let b = base_dirs();
        assert(with_dir(b.take(0), b[0].0) == b.take(1));
        assert(with_dir(b.take(1), b[1].0) == b.take(2));
        assert(with_dir(b.take(2), b[2].0) == b.take(3));
        assert(with_dir(b.take(3), b[3].0) == b.take(4));
        assert(with_dir(b.take(4), b[4].0) == b.take(5));
        assert(with_dir(b.take(5), b[5].0) == b.take(6));
        assert(b.take(6) =~= b);
    }
    match install_password {
        Some(pass) => {
            let clean = remove_two(pass, '\n', '\r');
            let content = slice_to_vec(clean.as_str().as_bytes());
            push_file(&mut v, "var/lib/nextos/install.pass", MODE_FILE_SECRET, content);
        },
        None => {},
    }
    let init_text = to_lf(init);
    let init_bytes = slice_to_vec(init_text.as_str().as_bytes());
    push_file(&mut v, "init", MODE_EXEC, init_bytes);
    let firstboot_text = to_lf(firstboot);
    let firstboot_bytes = slice_to_vec(firstboot_text.as_str().as_bytes());
    push_file(&mut v, "usr/local/sbin/nextos-firstboot", MODE_EXEC, firstboot_bytes);
    let ghost base = staged_base(init@, firstboot@, password_text(install_password));
    let ghost ms = modules_of(extras@);
    assert(entries_of(v@) =~= base);
    let mut k: usize = 0;
    assert(ms.take(0) =~= Seq::empty());
    while k < extras.len()
        invariant
            k <= extras@.len(),
            ms == modules_of(extras@),
            entries_of(v@) == with_modules(base, ms.take(k as int)),
            dirs_are_empty(entries_of(v@)),
        decreases extras@.len() - k,
    {
        assert(ms.take(k + 1).drop_last() =~= ms.take(k as int));
        assert(ms[k as int] == (extras@[k as int].cpio_path@, extras@[k as int].data@));
        let extra = &extras[k];
        let dirs = module_parent_dirs(extra.cpio_path.as_str());
        let ghost ds = texts(dirs@);
        let ghost before = entries_of(v@);
        let mut i: usize = 0;
        assert(ds.take(0) =~= Seq::empty());
        while i < dirs.len()
            invariant
                i <= dirs@.len(),
                ds == texts(dirs@),
                entries_of(v@) == with_dirs(before, ds.take(i as int)),
                dirs_are_empty(entries_of(v@)),
            decreases dirs@.len() - i,
        {
            assert(ds.take(i + 1).drop_last() =~= ds.take(i as int));
            assert(ds[i as int] == dirs@[i as int]@);
            push_dir(&mut v, dirs[i].as_str());
            i = i + 1;
        }
        assert(ds.take(i as int) =~= ds);
        push_file(
            &mut v,
            extra.cpio_path.as_str(),
            MODE_FILE,
            slice_to_vec(extra.data.as_slice()),
        );
        k = k + 1;
    }
    assert(ms.take(k as int) =~= ms);
    v
}

// ---------------------------------------------------------------------------
// The archive
// ---------------------------------------------------------------------------

/// How many links a record counts.
pub open spec fn nlink_of(mode: u32) -> nat {
    if is_dir_mode(mode) {
        2
    } else {
        1
    }
}

/// Append zero bytes up to a multiple of four.
pub fn align4(out: &mut Vec<u8>)
    ensures
        final(out)@ == padded(old(out)@, 4),
{
    pad_to(out, 4);
}

/// Append a record. Numbers that need more than 32 bits lose their high bits,
/// so that every header is 110 bytes long.
pub fn write_newc_record(out: &mut Vec<u8>, ino: u64, mode: u32, name: &str, data: &[u8])
    ensures
        final(out)@ == with_record(
            old(out)@,
            (ino % 0x1_0000_0000) as nat,
            mode as nat,
            nlink_of(mode),
            encode_utf8(name@),
            data@,
            false,
        ),
{
    reveal(with_record);
    let name_bytes = name.as_bytes();
    let namesize: u128 = (name_bytes.len() as u128 + 1) % 0x1_0000_0000;
    let filesize: u128 = data.len() as u128 % 0x1_0000_0000;
    let nlink: u32 = if mode & 0o170000 == 0o040000 { 2 } else { 1 };
    push_header(out, (ino % 0x1_0000_0000) as u32, mode, nlink, filesize, namesize, false);
    out.extend_from_slice(name_bytes);
    out.push(0);
    proof {
        let h = crate::newc::header(
            (ino % 0x1_0000_0000) as nat,
            mode as nat,
            nlink as nat,
            filesize as nat,
            namesize as nat,
            false,
        );
        assert(out@ =~= old(out)@ + h + name_bytes@ + seq![0u8]);
    }
    align4(out);
    out.extend_from_slice(data);
    align4(out);
}

/// The content that a record carries: none for a directory.
pub open spec fn carried(e: (Seq<char>, u32, Seq<u8>)) -> Seq<u8> {
    if is_dir_mode(e.1) {
        Seq::empty()
    } else {
        e.2
    }
}

/// The records of `es`, numbered from one.
pub open spec fn written(es: Seq<(Seq<char>, u32, Seq<u8>)>) -> Seq<u8>
    decreases es.len(),
{
    if es.len() == 0 {
        Seq::empty()
    } else {
        let e = es.last();
        with_record(
            written(es.drop_last()),
            es.len() % 0x1_0000_0000,
            e.1 as nat,
            nlink_of(e.1),
            encode_utf8(e.0),
            carried(e),
            false,
        )
    }
}

/// The records of `es` and the record that ends an archive.
pub open spec fn ended(es: Seq<(Seq<char>, u32, Seq<u8>)>) -> Seq<u8> {
    with_record(
        written(es),
        (es.len() + 1) % 0x1_0000_0000,
        0,
        1,
        encode_utf8("TRAILER!!!"@),
        Seq::empty(),
        false,
    )
}

/// The archive of `es`: its records, the end, and zero bytes up to a full
/// block of 512.
pub open spec fn archive_of(es: Seq<(Seq<char>, u32, Seq<u8>)>) -> Seq<u8> {
    padded(ended(es), 512)
}

/// Build the archive of `entries`.
pub fn build_cpio_newc(entries: &[OverlayEntry]) -> (r: Vec<u8>)
    ensures
        r@ == archive_of(entries_of(entries@)),
{
    let mut out: Vec<u8> = Vec::new();
    let mut i: usize = 0;
    let ghost es = entries_of(entries@);
    assert(es.take(0) =~= Seq::empty());
    while i < entries.len()
        invariant
            i <= entries@.len(),
            es == entries_of(entries@),
            out@ == written(es.take(i as int)),
        decreases entries@.len() - i,
    {
        let entry = &entries[i];
        assert(es.take(i + 1).drop_last() =~= es.take(i as int));
        assert(es.take(i + 1).last() == entry@);
        let none: Vec<u8> = Vec::new();
        let is_dir = entry.mode & 0o170000 == 0o040000;
        let data: &[u8] = if is_dir { none.as_slice() } else { entry.content.as_slice() };
        assert(data@ =~= carried(entry@));
        write_newc_record(&mut out, i as u64 + 1, entry.mode, entry.path.as_str(), data);
        i = i + 1;
    }
    assert(es.take(i as int) =~= es);
    let none: Vec<u8> = Vec::new();
    assert(none@ =~= Seq::empty());
    assert(!is_dir_mode(0)) by (bit_vector);
    let ino: u64 = (entries.len() as u64).wrapping_add(1);
    write_newc_record(&mut out, ino, 0, "TRAILER!!!", none.as_slice());
    pad_to(&mut out, 512);
    out
}

/// The error for a gzip run that failed.
pub open spec fn gzip_failure(at_end: bool, cause: Seq<char>) -> (ErrorKind, Seq<char>) {
    if at_end {
        (ErrorKind::InitramfsBuild, "gzip native finish failed: "@ + cause)
    } else {
        (ErrorKind::InitramfsBuild, "gzip native write failed: "@ + cause)
    }
}

/// What a gzip run answers, with its error as an error of the installer.
pub fn gzip_outcome(z: Result<Vec<u8>, (bool, String)>) -> (r: Result<Vec<u8>, InstallerError>)
    ensures
        z is Ok ==> r == Ok::<Vec<u8>, InstallerError>(z->Ok_0),
        z is Err ==> r is Err && r->Err_0@ == gzip_failure(z->Err_0.0, z->Err_0.1@),
{
    match z {
        Ok(v) => Ok(v),
        Err((at_end, cause)) => {
            let m = if at_end {
                "gzip native finish failed: ".to_owned().concat(cause.as_str())
            } else {
                "gzip native write failed: ".to_owned().concat(cause.as_str())
            };
            Err(InstallerError::InitramfsBuild(m))
        },
    }
}

/// Compress an archive.
pub fn gzip_native(raw: &[u8]) -> (r: Result<Vec<u8>, InstallerError>)
    ensures
        match gzipped(raw@) {
            Ok(z) => r is Ok && r->Ok_0@ == z,
            Err(e) => r is Err && r->Err_0@ == gzip_failure(e.0, e.1),
        },
        r is Ok ==> gunzipped(r->Ok_0@) == Ok::<Seq<u8>, Seq<char>>(raw@),
{
    gzip_outcome(gzip(raw))
}

/// `r` is the overlay with the entries `es`: the gzipped archive, which unpacks
/// to the archive, or the error of the gzip run.
pub open spec fn is_overlay(
    r: Result<Vec<u8>, InstallerError>,
    es: Seq<(Seq<char>, u32, Seq<u8>)>,
) -> bool {
    match gzipped(archive_of(es)) {
        Ok(z) => r is Ok && r->Ok_0@ == z && gunzipped(z) == Ok::<Seq<u8>, Seq<char>>(
            archive_of(es),
        ),
        Err(e) => r is Err && r->Err_0@ == gzip_failure(e.0, e.1),
    }
}

/// Build the overlay initrd with the install password.
pub fn build_overlay_cpio_gz(init: &str, firstboot: &str, install_password: &str) -> (r: Result<
    Vec<u8>,
    InstallerError,
>)
    ensures
        is_overlay(r, staged(init@, firstboot@, Some(install_password@), Seq::empty())),
{
    let none: Vec<NtfsModuleBlob> = Vec::new();
    assert(modules_of(none@) =~= Seq::empty());
    build_overlay_cpio_gz_with_extras(init, firstboot, Some(install_password), none.as_slice())
}

/// Build the overlay initrd with extra modules, and with the install password
/// where there is one.
pub fn build_overlay_cpio_gz_with_extras(
    init: &str,
    firstboot: &str,
    install_password: Option<&str>,
    extras: &[NtfsModuleBlob],
) -> (r: Result<Vec<u8>, InstallerError>)
    ensures
        is_overlay(
            r,
            staged(init@, firstboot@, password_text(install_password), modules_of(extras@)),
        ),
{
    let entries = stage_overlay_entries(init, firstboot, install_password, extras);
    let raw = build_cpio_newc(entries.as_slice());
    gzip_native(raw.as_slice())
}

/// Build the overlay initrd without a password.
pub fn build_overlay_cpio_gz_without_secrets(init: &str, firstboot: &str) -> (r: Result<
    Vec<u8>,
    InstallerError,
>)
    ensures
        is_overlay(r, staged(init@, firstboot@, None, Seq::empty())),
{
    let none: Vec<NtfsModuleBlob> = Vec::new();
    assert(modules_of(none@) =~= Seq::empty());
    build_overlay_cpio_gz_with_extras(init, firstboot, None, none.as_slice())
}

/// The extra modules of an overlay: the NTFS module of the root file system,
/// where it ships one and the initrd of the image does not.
pub fn overlay_extras(initrd_has: bool, module: Option<NtfsModuleBlob>) -> (r: Vec<NtfsModuleBlob>)
    ensures
        initrd_has || module is None ==> r@.len() == 0,
        !initrd_has && module is Some ==> r@ == seq![module->Some_0],
{
    let mut r: Vec<NtfsModuleBlob> = Vec::new();
    if !initrd_has {
        if let Some(m) = module {
            r.push(m);
        }
    }
    assert(!initrd_has && module is Some ==> r@ =~= seq![module->Some_0]);
    r
}

/// The extra modules of an overlay, by path and content.
pub open spec fn extras_for(initrd_has: bool, module: Option<NtfsModuleBlob>) -> Seq<
    (Seq<char>, Seq<u8>),
> {
    match module {
        Some(m) => if initrd_has {
            Seq::empty()
        } else {
            seq![(m.cpio_path@, m.data@)]
        },
        None => Seq::empty(),
    }
}

/// Build the overlay initrd of an installation: no password, and the NTFS
/// module where the initrd of the image lacks it.
pub fn build_overlay_for_initrd(
    init: &str,
    firstboot: &str,
    initrd_has: bool,
    module: Option<NtfsModuleBlob>,
) -> (r: Result<Vec<u8>, InstallerError>)
    ensures
        is_overlay(r, staged(init@, firstboot@, None, extras_for(initrd_has, module))),
{
    let extras = overlay_extras(initrd_has, module);
    assert(modules_of(extras@) =~= extras_for(initrd_has, module));
    build_overlay_cpio_gz_with_extras(init, firstboot, None, extras.as_slice())
}

// ---------------------------------------------------------------------------
// Laws
// ---------------------------------------------------------------------------

/// Where the initrd of an image lacks the NTFS module and its root file system
/// ships it, the overlay carries it. Otherwise the overlay carries no module.
pub proof fn missing_module_is_in_the_overlay(
    init: Seq<char>,
    firstboot: Seq<char>,
    initrd_has: bool,
    module: Option<NtfsModuleBlob>,
)
    ensures
        !initrd_has && module is Some ==> staged(
            init,
            firstboot,
            None,
            extras_for(initrd_has, module),
        ).last() == (module->Some_0.cpio_path@, MODE_FILE, module->Some_0.data@),
        initrd_has || module is None ==> staged(
            init,
            firstboot,
            None,
            extras_for(initrd_has, module),
        ) == staged_base(init, firstboot, None),
{
}

/// The names and the contents of `es` are shorter than 4 GiB each.
pub open spec fn sizes_fit(es: Seq<(Seq<char>, u32, Seq<u8>)>) -> bool {
    forall|i: int|
        0 <= i < es.len() ==> encode_utf8((#[trigger] es[i]).0).len() + 1 < 0x1_0000_0000
            && es[i].2.len() < 0x1_0000_0000
}

/// The entries as records: the name, the mode and the content of each.
pub open spec fn listed(es: Seq<(Seq<char>, u32, Seq<u8>)>) -> Seq<(Seq<u8>, nat, Seq<u8>)> {
    es.map_values(|e: (Seq<char>, u32, Seq<u8>)| (encode_utf8(e.0), e.1 as nat, carried(e)))
}

/// The record that ends an archive.
pub open spec fn end_record() -> (Seq<u8>, nat, Seq<u8>) {
    (encode_utf8("TRAILER!!!"@), 0, Seq::empty())
}

proof fn written_is_read(es: Seq<(Seq<char>, u32, Seq<u8>)>, d: Seq<u8>)
    requires
        sizes_fit(es),
        has_prefix(d, written(es)),
    ensures
        written(es).len() % 4 == 0,
        records_end(d, 0) == records_end(d, written(es).len() as int),
        records(d, 0) == listed(es) + records(d, written(es).len() as int),
    decreases es.len(),
{
    if es.len() == 0 {
        assert(listed(es) + records(d, 0) =~= records(d, 0));
    } else {
        let front = es.drop_last();
        let e = es.last();
        assert(sizes_fit(front)) by {
            assert forall|i: int| 0 <= i < front.len() implies encode_utf8(
                (#[trigger] front[i]).0,
            ).len() + 1 < 0x1_0000_0000 && front[i].2.len() < 0x1_0000_0000 by {
                assert(front[i] == es[i]);
            }
        }
        let out = written(front);
        assert(out.len() % 4 == 0 && has_prefix(d, out)) by {
            written_lengths(front);
            written_lengths(es);
            assert(d.take(out.len() as int) =~= d.take(written(es).len() as int).take(
                out.len() as int,
            ));
        }
        written_is_read(front, d);
        assert(es[es.len() - 1] == e);
        record_is_read(
            d,
            out,
            es.len() % 0x1_0000_0000,
            e.1 as nat,
            nlink_of(e.1),
            encode_utf8(e.0),
            carried(e),
            false,
        );
        assert(listed(es) =~= listed(front).push((encode_utf8(e.0), e.1 as nat, carried(e))));
        assert(listed(es) + records(d, written(es).len() as int) =~= listed(front) + (seq![
            (encode_utf8(e.0), e.1 as nat, carried(e)),
        ] + records(d, written(es).len() as int)));
    }
}

proof fn written_lengths(es: Seq<(Seq<char>, u32, Seq<u8>)>)
    ensures
        written(es).len() % 4 == 0,
        es.len() > 0 ==> has_prefix(written(es), written(es.drop_last())),
{
    if es.len() > 0 {
        let e = es.last();
        with_record_grows(
            written(es.drop_last()),
            es.len() % 0x1_0000_0000,
            e.1 as nat,
            nlink_of(e.1),
            encode_utf8(e.0),
            carried(e),
            false,
        );
    }
}

proof fn ended_is_read(es: Seq<(Seq<char>, u32, Seq<u8>)>, d: Seq<u8>)
    requires
        sizes_fit(es),
        has_prefix(d, ended(es)),
    ensures
        ended(es).len() % 4 == 0,
        records_end(d, 0) == records_end(d, ended(es).len() as int),
        records(d, 0) == listed(es).push(end_record()) + records(d, ended(es).len() as int),
{
    let out = written(es);
    written_lengths(es);
    with_record_grows(
        out,
        (es.len() + 1) % 0x1_0000_0000,
        0,
        1,
        encode_utf8("TRAILER!!!"@),
        Seq::empty(),
        false,
    );
    assert(d.take(out.len() as int) =~= d.take(ended(es).len() as int).take(out.len() as int));
    written_is_read(es, d);
    reveal_strlit("TRAILER!!!");
    vstd::utf8::is_ascii_chars_encode_utf8("TRAILER!!!"@);
    record_is_read(
        d,
        out,
        (es.len() + 1) % 0x1_0000_0000,
        0,
        1,
        encode_utf8("TRAILER!!!"@),
        Seq::empty(),
        false,
    );
    assert(listed(es).push(end_record()) + records(d, ended(es).len() as int) =~= listed(es) + (
    seq![end_record()] + records(d, ended(es).len() as int)));
}

/// What a reader finds in an archive is what was written: the entries in their
/// order, each with its name, its mode and its content, and the end.
pub proof fn archive_lists_its_entries(es: Seq<(Seq<char>, u32, Seq<u8>)>)
    requires
        sizes_fit(es),
    ensures
        records(archive_of(es), 0) == listed(es).push(end_record()),
        archive_of(es).len() % 512 == 0,
{
    let d = archive_of(es);
    let n = ended(es).len() as int;
    assert(d.take(n) =~= ended(es));
    ended_is_read(es, d);
    crate::newc::padding_is_no_record(ended(es), d);
    assert(listed(es).push(end_record()) + Seq::empty() =~= listed(es).push(end_record()));
}

/// Whatever follows the records of an archive, passing the records over ends
/// exactly behind its last one, unless another record begins there.
pub proof fn archive_is_passed_over(es: Seq<(Seq<char>, u32, Seq<u8>)>, rest: Seq<u8>)
    requires
        sizes_fit(es),
        !has_prefix(rest, crate::newc::magic()),
    ensures
        records_end(ended(es) + rest, 0) == ended(es).len(),
{
    let d = ended(es) + rest;
    let n = ended(es).len() as int;
    assert(d.take(n) =~= ended(es));
    ended_is_read(es, d);
    reveal(records_end);
    if n + 110 <= d.len() {
        assert(d.subrange(n, n + 6) =~= rest.take(6));
    }
}

/// No entry of `es` is listed as a directory twice.
pub open spec fn dirs_are_distinct(es: Seq<(Seq<char>, u32, Seq<u8>)>) -> bool {
    forall|i: int, j: int|
        0 <= i < j < es.len() && (#[trigger] es[i]).1 == MODE_DIR && (#[trigger] es[j]).1
            == MODE_DIR ==> es[i].0 != es[j].0
}

proof fn with_dirs_keeps(es: Seq<(Seq<char>, u32, Seq<u8>)>, ds: Seq<Seq<char>>)
    requires
        dirs_are_distinct(es),
        dirs_are_empty(es),
    ensures
        dirs_are_distinct(with_dirs(es, ds)),
        dirs_are_empty(with_dirs(es, ds)),
        has_prefix(with_dirs(es, ds), es),
        forall|i: int| 0 <= i < ds.len() ==> with_dirs(es, ds).contains(dir_entry(#[trigger] ds[i])),
    decreases ds.len(),
{
    let r = with_dirs(es, ds);
    if ds.len() == 0 {
        assert(es.take(es.len() as int) =~= es);
    } else {
        let front = with_dirs(es, ds.drop_last());
        let d = ds.last();
        with_dirs_keeps(es, ds.drop_last());
        if front.contains(dir_entry(d)) {
        } else {
            assert(r.take(es.len() as int) =~= front.take(es.len() as int));
            assert(r[front.len() as int] == dir_entry(d));
            assert forall|i: int, j: int|
                0 <= i < j < r.len() && (#[trigger] r[i]).1 == MODE_DIR && (#[trigger] r[j]).1
                    == MODE_DIR implies r[i].0 != r[j].0 by {
                assert(r[i] == front[i]);
                if j < front.len() {
                    assert(r[j] == front[j]);
                } else if r[i].0 == d {
                    assert(front[i].2 =~= Seq::<u8>::empty());
                    assert(front[i] == dir_entry(d));
                }
            }
        }
        assert forall|i: int| 0 <= i < ds.len() implies r.contains(dir_entry(#[trigger] ds[i])) by {
            if i < ds.len() - 1 {
                assert(ds.drop_last()[i] == ds[i]);
                let k = choose|k: int|
                    0 <= k < front.len() && front[k] == dir_entry(ds.drop_last()[i]);
                assert(r[k] == dir_entry(ds[i]));
            }
        }
    }
}

proof fn with_modules_keeps(
    es: Seq<(Seq<char>, u32, Seq<u8>)>,
    modules: Seq<(Seq<char>, Seq<u8>)>,
)
    requires
        dirs_are_distinct(es),
        dirs_are_empty(es),
    ensures
        dirs_are_distinct(with_modules(es, modules)),
        dirs_are_empty(with_modules(es, modules)),
        has_prefix(with_modules(es, modules), es),
        forall|k: int|
            0 <= k < modules.len() ==> stands_behind_its_dirs(
                with_modules(es, modules),
                #[trigger] modules[k],
            ),
    decreases modules.len(),
{
    let r = with_modules(es, modules);
    if modules.len() == 0 {
        assert(es.take(es.len() as int) =~= es);
    } else {
        let m = modules.last();
        let front = with_modules(es, modules.drop_last());
        with_modules_keeps(es, modules.drop_last());
        with_dirs_keeps(front, parent_dirs(m.0));
        let mid = with_dirs(front, parent_dirs(m.0));
        assert(r == mid.push((m.0, MODE_FILE, m.1)));
        assert forall|i: int, j: int|
            0 <= i < j < r.len() && (#[trigger] r[i]).1 == MODE_DIR && (#[trigger] r[j]).1
                == MODE_DIR implies r[i].0 != r[j].0 by {
            assert(r[i] == mid[i] && r[j] == mid[j]);
        }
        assert(r.take(es.len() as int) =~= front.take(es.len() as int)) by {
            assert(mid.take(front.len() as int) == front);
            assert forall|i: int| 0 <= i < front.len() implies mid[i] == front[i] by {
                assert(mid.take(front.len() as int)[i] == mid[i]);
            }
        }
        assert forall|k: int| 0 <= k < modules.len() implies stands_behind_its_dirs(
            r,
            #[trigger] modules[k],
        ) by {
            if k < modules.len() - 1 {
                assert(modules.drop_last()[k] == modules[k]);
                let p = choose|p: int| #[trigger] stands_at(front, modules[k], p);
                assert(r.take(p) =~= front.take(p)) by {
                    assert forall|i: int| 0 <= i < front.len() implies r[i] == front[i] by {
                        assert(mid.take(front.len() as int)[i] == mid[i]);
                    }
                }
                assert(r[p] == front[p]) by {
                    assert(mid.take(front.len() as int)[p] == mid[p]);
                }
                assert(stands_at(r, modules[k], p));
            } else {
                let p = mid.len() as int;
                assert(r.take(p) =~= mid);
                assert(stands_at(r, m, p));
            }
        }
    }
}

/// The module `m` stands at `p`, and all its directories stand before it.
pub open spec fn stands_at(
    es: Seq<(Seq<char>, u32, Seq<u8>)>,
    m: (Seq<char>, Seq<u8>),
    p: int,
) -> bool {
    &&& 0 <= p < es.len()
    &&& es[p] == (m.0, MODE_FILE, m.1)
    &&& forall|i: int|
        0 <= i < parent_dirs(m.0).len() ==> es.take(p).contains(
            dir_entry(#[trigger] parent_dirs(m.0)[i]),
        )
}

/// The module `m` is listed, and all its directories stand before it.
pub open spec fn stands_behind_its_dirs(
    es: Seq<(Seq<char>, u32, Seq<u8>)>,
    m: (Seq<char>, Seq<u8>),
) -> bool {
    exists|p: int| #[trigger] stands_at(es, m, p)
}

/// An overlay lists no directory twice, and each extra module stands behind
/// all the directories that lead to it.
pub proof fn overlay_is_well_ordered(
    init: Seq<char>,
    firstboot: Seq<char>,
    password: Option<Seq<char>>,
    modules: Seq<(Seq<char>, Seq<u8>)>,
)
    ensures
        dirs_are_distinct(staged(init, firstboot, password, modules)),
        forall|k: int|
            0 <= k < modules.len() ==> stands_behind_its_dirs(
                staged(init, firstboot, password, modules),
                #[trigger] modules[k],
            ),
{
    let es = staged_base(init, firstboot, password);
    base_dirs_differ();
    assert forall|i: int, j: int|
        0 <= i < j < es.len() && (#[trigger] es[i]).1 == MODE_DIR && (#[trigger] es[j]).1
            == MODE_DIR implies es[i].0 != es[j].0 by {
        let b = base_dirs();
        assert(i < 6 && j < 6);
        assert(es[i] == b[i] && es[j] == b[j]);
        if b[i].0 == b[j].0 {
            assert(b[i] == dir_entry(b[j].0));
            assert(b.take(j)[i] == dir_entry(b[j].0));
            assert(with_dir(b.take(j), b[j].0).len() == j);
        }
    }
    with_modules_keeps(es, modules);
}

proof fn insert_commutes_dirs(
    es: Seq<(Seq<char>, u32, Seq<u8>)>,
    e: (Seq<char>, u32, Seq<u8>),
    at: int,
    ds: Seq<Seq<char>>,
)
    requires
        0 <= at <= es.len(),
        e.1 != MODE_DIR,
    ensures
        with_dirs(es, ds).len() >= es.len(),
        with_dirs(es.insert(at, e), ds) == with_dirs(es, ds).insert(at, e),
    decreases ds.len(),
{
    if ds.len() > 0 {
        insert_commutes_dirs(es, e, at, ds.drop_last());
        let a = with_dirs(es, ds.drop_last());
        let b = a.insert(at, e);
        let d = dir_entry(ds.last());
        if a.contains(d) {
            let k = choose|k: int| 0 <= k < a.len() && a[k] == d;
            if k < at {
                assert(b[k] == d);
            } else {
                assert(b[k + 1] == d);
            }
        } else {
            if b.contains(d) {
                let k = choose|k: int| 0 <= k < b.len() && b[k] == d;
                if k < at {
                    assert(a[k] == d);
                } else if k > at {
                    assert(a[k - 1] == d);
                }
            }
            assert(b.push(d) =~= a.push(d).insert(at, e));
        }
    }
}

/// A password adds one entry to the overlay, which only its owner may read,
/// and changes nothing else.
pub proof fn password_adds_one_entry(
    init: Seq<char>,
    firstboot: Seq<char>,
    password: Seq<char>,
    modules: Seq<(Seq<char>, Seq<u8>)>,
)
    ensures
        staged(init, firstboot, None, modules).len() >= 6,
        staged(init, firstboot, Some(password), modules) == staged(
            init,
            firstboot,
            None,
            modules,
        ).insert(6, secret_entry(password)),
    decreases modules.len(),
{
    let bare = staged_base(init, firstboot, None);
    if modules.len() == 0 {
        assert(staged_base(init, firstboot, Some(password)) =~= bare.insert(
            6,
            secret_entry(password),
        ));
    } else {
        password_adds_one_entry(init, firstboot, password, modules.drop_last());
        let m = modules.last();
        let front = staged(init, firstboot, None, modules.drop_last());
        insert_commutes_dirs(front, secret_entry(password), 6, parent_dirs(m.0));
        let mid = with_dirs(front, parent_dirs(m.0));
        let e = (m.0, MODE_FILE, m.1);
        assert(mid.insert(6, secret_entry(password)).push(e) =~= mid.push(e).insert(
            6,
            secret_entry(password),
        ));
    }
}

/// Every overlay holds the six directories that it needs, each behind the one
/// it lies in, and the two programs, which all may run; no entry but the
/// password may be read by its owner alone.
pub proof fn overlay_holds_its_programs(
    init: Seq<char>,
    firstboot: Seq<char>,
    password: Option<Seq<char>>,
)
    ensures
        ({
            let es = staged_base(init, firstboot, password);
            let none = Seq::<u8>::empty();
            let k: int = if password is Some {
                7
            } else {
                6
            };
            &&& es.len() == k + 2
            &&& es[0] == ("usr"@, 16877u32, none)
            &&& es[1] == ("usr/local"@, 16877u32, none)
            &&& es[2] == ("usr/local/sbin"@, 16877u32, none)
            &&& es[3] == ("var"@, 16877u32, none)
            &&& es[4] == ("var/lib"@, 16877u32, none)
            &&& es[5] == ("var/lib/nextos"@, 16877u32, none)
            &&& password matches Some(p) ==> es[6] == (
                "var/lib/nextos/install.pass"@,
                33152u32,
                encode_utf8(without_two(p, '\n', '\r')),
            )
            &&& es[k] == ("init"@, 33261u32, encode_utf8(with_lf(init)))
            &&& es[k + 1] == (
                "usr/local/sbin/nextos-firstboot"@,
                33261u32,
                encode_utf8(with_lf(firstboot)),
            )
        }),
{
}

/// Without a password no entry of an overlay is named like the file that holds
/// one, as long as no module is.
pub proof fn overlay_without_a_password_holds_none(init: Seq<char>, firstboot: Seq<char>, i: int)
    requires
        0 <= i < staged_base(init, firstboot, None).len(),
    ensures
        staged_base(init, firstboot, None)[i].0 != "var/lib/nextos/install.pass"@,
        staged_base(init, firstboot, None)[i].1 != 33152,
{
    reveal_strlit("usr");
    reveal_strlit("usr/local");
    reveal_strlit("usr/local/sbin");
    reveal_strlit("var");
    reveal_strlit("var/lib");
    reveal_strlit("var/lib/nextos");
    reveal_strlit("var/lib/nextos/install.pass");
    reveal_strlit("init");
    reveal_strlit("usr/local/sbin/nextos-firstboot");
    overlay_holds_its_programs(init, firstboot, None);
    let n = "var/lib/nextos/install.pass"@.len();
    assert(n != "usr"@.len() && n != "usr/local"@.len() && n != "usr/local/sbin"@.len() && n
        != "var"@.len() && n != "var/lib"@.len() && n != "var/lib/nextos"@.len() && n
        != "init"@.len() && n != "usr/local/sbin/nextos-firstboot"@.len());
}

/// A module stands in an overlay as a file that all may read, under its path and
/// with its content, behind everything that was there.
pub proof fn module_comes_last(
    es: Seq<(Seq<char>, u32, Seq<u8>)>,
    modules: Seq<(Seq<char>, Seq<u8>)>,
    path: Seq<char>,
    data: Seq<u8>,
)
    ensures
        with_modules(es, Seq::empty()) == es,
        with_modules(es, modules.push((path, data))) == with_dirs(
            with_modules(es, modules),
            parent_dirs(path),
        ).push((path, 33188u32, data)),
{
    assert(modules.push((path, data)).drop_last() =~= modules);
}

/// The archive of an overlay begins with the bytes of `070701`, ends its records
/// with the one named `TRAILER!!!`, and fills whole blocks of 512 bytes.
pub proof fn overlay_archive_begins_and_ends_like_one(es: Seq<(Seq<char>, u32, Seq<u8>)>)
    requires
        sizes_fit(es),
    ensures
        ({
            let d = archive_of(es);
            &&& d.len() % 512 == 0
            &&& d.len() >= 110
            &&& d[0] == 48 && d[1] == 55 && d[2] == 48 && d[3] == 55 && d[4] == 48 && d[5] == 49
            &&& records(d, 0).last() == (encode_utf8("TRAILER!!!"@), 0nat, Seq::<u8>::empty())
            &&& records(d, 0).len() == es.len() + 1
        }),
{
    archive_lists_its_entries(es);
    reveal(records);
    let d = archive_of(es);
    assert(records(d, 0).len() > 0);
    let m = d.subrange(0, 6);
    assert(m == crate::newc::magic());
    assert(d[0] == m[0] && d[1] == m[1] && d[2] == m[2] && d[3] == m[3] && d[4] == m[4] && d[5]
        == m[5]);
}

/// Records are numbered from one on and count two links for a directory and one
/// for anything else; a directory carries no content, and only it has the kind
/// of a directory in its mode.
pub proof fn records_are_numbered_and_linked(
    es: Seq<(Seq<char>, u32, Seq<u8>)>,
    e: (Seq<char>, u32, Seq<u8>),
)
    requires
        es.len() < 0xffff_ffff,
    ensures
        e.1 == 16877 ==> written(es.push(e)) == with_record(
            written(es),
            es.len() + 1,
            16877,
            2,
            encode_utf8(e.0),
            Seq::empty(),
            false,
        ),
        e.1 == 33261 || e.1 == 33188 || e.1 == 33152 ==> written(es.push(e)) == with_record(
            written(es),
            es.len() + 1,
            e.1 as nat,
            1,
            encode_utf8(e.0),
            e.2,
            false,
        ),
        ended(es) == with_record(
            written(es),
            es.len() + 1,
            0,
            1,
            encode_utf8("TRAILER!!!"@),
            Seq::empty(),
            false,
        ),
{
    assert(es.push(e).drop_last() =~= es);
    assert(16877u32 & 0o170000 == 0o040000) by (bit_vector);
    assert(33261u32 & 0o170000 != 0o040000) by (bit_vector);
    assert(33188u32 & 0o170000 != 0o040000) by (bit_vector);
    assert(33152u32 & 0o170000 != 0o040000) by (bit_vector);
    assert((es.len() + 1) % 0x1_0000_0000 == es.len() + 1);
}

/// An overlay that was built unpacks to the archive of its entries, and a reader
/// of that archive finds every entry under its name, with its mode and, unless it is a directory,
/// its content.
pub proof fn overlay_unpacks_to_its_entries(
    r: Result<Vec<u8>, InstallerError>,
    es: Seq<(Seq<char>, u32, Seq<u8>)>,
)
    requires
        is_overlay(r, es),
        r is Ok,
        sizes_fit(es),
    ensures
        gunzipped(r->Ok_0@) is Ok,
        records(gunzipped(r->Ok_0@)->Ok_0, 0).len() == es.len() + 1,
        forall|i: int|
            0 <= i < es.len() ==> (#[trigger] records(gunzipped(r->Ok_0@)->Ok_0, 0)[i]).0
                == encode_utf8(es[i].0) && records(gunzipped(r->Ok_0@)->Ok_0, 0)[i].1 == es[i].1 && (
            is_dir_mode(es[i].1) || records(gunzipped(r->Ok_0@)->Ok_0, 0)[i].2 == es[i].2),
{
    archive_lists_its_entries(es);
    let l = listed(es);
    assert forall|i: int| 0 <= i < es.len() implies (#[trigger] records(archive_of(es), 0)[i]).0
        == encode_utf8(es[i].0) && records(archive_of(es), 0)[i].1 == es[i].1 && (is_dir_mode(
        es[i].1,
    ) || records(archive_of(es), 0)[i].2 == es[i].2) by {
        assert(records(archive_of(es), 0)[i] == l[i]);
    }
}

/// What is seen of an entry is its path, its mode and its content.
pub proof fn entries_are_seen_as_they_are(e: OverlayEntry)
    ensures
        e@ == (e.path@, e.mode, e.content@),
{
}

/// Packing that fails is told by whether it was writing or finishing, and by the
/// cause.
pub proof fn failed_packing_is_told_by_its_cause(cause: Seq<char>)
    ensures
        gzip_failure(false, cause) == (
            ErrorKind::InitramfsBuild,
            "gzip native write failed: "@ + cause,
        ),
        gzip_failure(true, cause) == (
            ErrorKind::InitramfsBuild,
            "gzip native finish failed: "@ + cause,
        ),
{
}

} // verus!
