//! The supplementary initrd: a gzipped cpio `newc` archive that the kernel
//! unpacks besides the live image's own initrd.
use crate::codec::{gunzipped, gzip, gzipped};
use crate::error::{ErrorKind, InstallerError};
use crate::newc::{
    header, header_layout, pad_len, pad_to, padded, push_header, push_zeros, record_is_read,
    records, zeros,
};
use crate::text::has_prefix;
use vstd::prelude::*;
use vstd::utf8::encode_utf8;

verus! {

/// The mode of a directory that all may read.
pub const DIR_MODE: u32 = 0o040755;

/// The mode of a program that all may run.
pub const EXEC_MODE: u32 = 0o100755;

/// The mode of a file that all may read.
pub const FILE_MODE: u32 = 0o100644;

/// A record: the header, the name and its end, and the content, each part
/// padded to a multiple of four as counted from the start of the record.
#[verifier::opaque]
pub open spec fn entry_bytes(path: Seq<char>, data: Seq<u8>, mode: u32) -> Seq<u8> {
    let name = encode_utf8(path);
    let namesize = name.len() + 1;
    header(0, mode as nat, 1, data.len(), namesize, true) + name + seq![0u8] + zeros(
        pad_len((110 + namesize) as int, 4) as nat,
    ) + data + zeros(pad_len(data.len() as int, 4) as nat)
}

/// Append the record of a file.
pub fn cpio_write_entry(archive: &mut Vec<u8>, path: &str, data: &[u8], mode: u32)
    ensures
        final(archive)@ == old(archive)@ + entry_bytes(path@, data@, mode),
{
    let name = path.as_bytes();
    let namesize: u128 = name.len() as u128 + 1;
    let filesize: usize = data.len();
    push_header(archive, 0, mode, 1, filesize as u128, namesize, true);
    archive.extend_from_slice(name);
    archive.push(0);
    let pad: usize = ((4 - ((110 + namesize) % 4)) % 4) as usize;
    push_zeros(archive, pad);
    archive.extend_from_slice(data);
    let data_pad: usize = (4 - filesize % 4) % 4;
    push_zeros(archive, data_pad);
    reveal(entry_bytes);
    assert(archive@ =~= old(archive)@ + entry_bytes(path@, data@, mode));
}

/// Append the record of a directory.
pub fn cpio_write_dir(archive: &mut Vec<u8>, path: &str)
    ensures
        final(archive)@ == old(archive)@ + entry_bytes(path@, Seq::empty(), DIR_MODE),
{
    let none: Vec<u8> = Vec::new();
    cpio_write_entry(archive, path, none.as_slice(), DIR_MODE);
}

/// Append the record that ends an archive, and fill the last block of 512 bytes.
pub fn cpio_write_trailer(archive: &mut Vec<u8>)
    ensures
        final(archive)@ == padded(
            old(archive)@ + entry_bytes("TRAILER!!!"@, Seq::empty(), 0),
            512,
        ),
{
    let none: Vec<u8> = Vec::new();
    cpio_write_entry(archive, "TRAILER!!!", none.as_slice(), 0);
    pad_to(archive, 512);
}

/// The archive of the supplementary initrd: the directories, the live-bottom
/// hook, the systemd unit and the engine, and the end of the archive.
pub open spec fn supplementary_archive(
    hook: Seq<char>,
    service: Seq<char>,
    engine: Seq<char>,
) -> Seq<u8> {
    padded(
        entry_bytes("scripts"@, Seq::empty(), DIR_MODE) + entry_bytes(
            "scripts/live-bottom"@,
            Seq::empty(),
            DIR_MODE,
        ) + entry_bytes("parkur-payload"@, Seq::empty(), DIR_MODE) + entry_bytes(
            "scripts/live-bottom/99-parkur"@,
            encode_utf8(hook),
            EXEC_MODE,
        ) + entry_bytes("parkur-payload/parkur.service"@, encode_utf8(service), FILE_MODE)
            + entry_bytes("parkur-payload/parkur-engine.sh"@, encode_utf8(engine), EXEC_MODE)
            + entry_bytes("TRAILER!!!"@, Seq::empty(), 0),
        512,
    )
}

/// The uncompressed archive of the supplementary initrd.
pub fn build_supplementary_archive(hook: &str, service: &str, engine: &str) -> (r: Vec<u8>)
    ensures
        r@ == supplementary_archive(hook@, service@, engine@),
{
    let mut archive: Vec<u8> = Vec::with_capacity(32768);
    cpio_write_dir(&mut archive, "scripts");
    cpio_write_dir(&mut archive, "scripts/live-bottom");
    cpio_write_dir(&mut archive, "parkur-payload");
    cpio_write_entry(&mut archive, "scripts/live-bottom/99-parkur", hook.as_bytes(), EXEC_MODE);
    cpio_write_entry(&mut archive, "parkur-payload/parkur.service", service.as_bytes(), FILE_MODE);
    cpio_write_entry(&mut archive, "parkur-payload/parkur-engine.sh", engine.as_bytes(), EXEC_MODE);
    let ghost before = archive@;
    cpio_write_trailer(&mut archive);
    proof {
        let d1 = entry_bytes("scripts"@, Seq::empty(), DIR_MODE);
        assert(Seq::<u8>::empty() + d1 =~= d1);
    }
    archive
}

/// The error for a gzip run that failed.
pub open spec fn gzip_failure(at_end: bool, cause: Seq<char>) -> (ErrorKind, Seq<char>) {
    if at_end {
        (ErrorKind::Io, "gzip finalize hatası: "@ + cause)
    } else {
        (ErrorKind::Io, "gzip sıkıştırma hatası: "@ + cause)
    }
}

/// What a gzip run answers, with its error as an error of the installer.
pub fn gzip_outcome(z: Result<Vec<u8>, (bool, String)>) -> (r: Result<Vec<u8>, InstallerError>)
    ensures
        z is Ok ==> r == Ok::<Vec<u8>, InstallerError>(z->Ok_0),
        z is Err ==> r is Err && r->Err_0@ == gzip_failure(z->Err_0.0, z->Err_0.1@),
{
    match z {
        Ok(v) => Ok(v),
        Err((at_end, cause)) => {
            let m = if at_end {
                "gzip finalize hatası: ".to_owned().concat(cause.as_str())
            } else {
                "gzip sıkıştırma hatası: ".to_owned().concat(cause.as_str())
            };
            Err(InstallerError::Io(m))
        },
    }
}

/// Build the supplementary initrd image (cpio newc, then gzip). The result can
/// be written as an image file as it is, and it unpacks to the archive.
pub fn build_supplementary_initrd(hook: &str, service: &str, engine: &str) -> (r: Result<
    Vec<u8>,
    InstallerError,
>)
    ensures
        match gzipped(supplementary_archive(hook@, service@, engine@)) {
            Ok(z) => r is Ok && r->Ok_0@ == z,
            Err(e) => r is Err && r->Err_0@ == gzip_failure(e.0, e.1),
        },
        r is Ok ==> gunzipped(r->Ok_0@) == Ok::<Seq<u8>, Seq<char>>(
            supplementary_archive(hook@, service@, engine@),
        ),
{
    let archive = build_supplementary_archive(hook, service, engine);
    gzip_outcome(gzip(archive.as_slice()))
}

/// Where the supplementary initrd is written on the volume `target_letter`.
pub fn write_initrd_to_partition(target_letter: &str) -> (r: String)
    ensures
        r@ == target_letter@ + ":\\parkur-hook.img"@,
{
    target_letter.to_owned().concat(":\\parkur-hook.img")
}

// ---------------------------------------------------------------------------
// Laws
// ---------------------------------------------------------------------------

proof fn entry_is_read(d: Seq<u8>, a: Seq<u8>, path: Seq<char>, data: Seq<u8>, mode: u32)
    requires
        a.len() % 4 == 0,
        encode_utf8(path).len() + 1 < 0x1_0000_0000,
        data.len() < 0x1_0000_0000,
        has_prefix(d, a + entry_bytes(path, data, mode)),
    ensures
        (a + entry_bytes(path, data, mode)).len() % 4 == 0,
        records(d, a.len() as int) == seq![(encode_utf8(path), mode as nat, data)] + records(
            d,
            (a + entry_bytes(path, data, mode)).len() as int,
        ),
{
    let name = encode_utf8(path);
    let namesize = name.len() + 1;
    let h = header(0, mode as nat, 1, data.len(), namesize, true);
    header_layout(0, mode as nat, 1, data.len(), namesize, true);
    reveal(entry_bytes);
    reveal(crate::newc::with_record);
    same_bytes(a, h, name, data);
    record_is_read(d, a, 0, mode as nat, 1, name, data, true);
}

/// Padding counted from the start of a record is padding counted from the
/// start of an archive that is a multiple of four long.
proof fn same_bytes(a: Seq<u8>, h: Seq<u8>, name: Seq<u8>, data: Seq<u8>)
    requires
        a.len() % 4 == 0,
        h.len() == 110,
    ensures
        a + (h + name + seq![0u8] + zeros(pad_len((110 + (name.len() + 1)) as int, 4) as nat) + data
            + zeros(pad_len(data.len() as int, 4) as nat)) == padded(
            padded(a + h + name + seq![0u8], 4) + data,
            4,
        ),
{
    let body = a + h + name + seq![0u8];
    let mid = padded(body, 4) + data;
    assert(pad_len(body.len() as int, 4) == pad_len((110 + (name.len() + 1)) as int, 4));
    assert(pad_len(mid.len() as int, 4) == pad_len(data.len() as int, 4));
    assert(a + (h + name + seq![0u8] + zeros(pad_len((110 + (name.len() + 1)) as int, 4) as nat)
        + data + zeros(pad_len(data.len() as int, 4) as nat)) =~= padded(
        padded(a + h + name + seq![0u8], 4) + data,
        4,
    ));
}

/// The name is plain ASCII and shorter than 4 GiB.
proof fn name_is_short(s: Seq<char>)
    requires
        vstd::utf8::is_ascii_chars(s),
        s.len() < 100,
    ensures
        encode_utf8(s).len() + 1 < 0x1_0000_0000,
{
    vstd::utf8::is_ascii_chars_encode_utf8(s);
}

/// What a reader finds in the supplementary initrd: the three directories, the
/// hook, the unit and the engine under their names and modes, and the end. All
/// may enter the directories and run the hook and the engine.
pub proof fn supplementary_archive_lists_its_files(
    hook: Seq<char>,
    service: Seq<char>,
    engine: Seq<char>,
)
    requires
        encode_utf8(hook).len() < 0x1_0000_0000,
        encode_utf8(service).len() < 0x1_0000_0000,
        encode_utf8(engine).len() < 0x1_0000_0000,
    ensures
        records(supplementary_archive(hook, service, engine), 0) == seq![
            (encode_utf8("scripts"@), 16877nat, Seq::empty()),
            (encode_utf8("scripts/live-bottom"@), 16877nat, Seq::empty()),
            (encode_utf8("parkur-payload"@), 16877nat, Seq::empty()),
            (encode_utf8("scripts/live-bottom/99-parkur"@), 33261nat, encode_utf8(hook)),
            (encode_utf8("parkur-payload/parkur.service"@), 33188nat, encode_utf8(service)),
            (encode_utf8("parkur-payload/parkur-engine.sh"@), 33261nat, encode_utf8(engine)),
            (encode_utf8("TRAILER!!!"@), 0, Seq::empty()),
        ],
        supplementary_archive(hook, service, engine).len() % 512 == 0,
{
    let d = supplementary_archive(hook, service, engine);
    let none = Seq::<u8>::empty();
    let e1 = entry_bytes("scripts"@, none, DIR_MODE);
    let e2 = entry_bytes("scripts/live-bottom"@, none, DIR_MODE);
    let e3 = entry_bytes("parkur-payload"@, none, DIR_MODE);
    let e4 = entry_bytes("scripts/live-bottom/99-parkur"@, encode_utf8(hook), EXEC_MODE);
    let e5 = entry_bytes("parkur-payload/parkur.service"@, encode_utf8(service), FILE_MODE);
    let e6 = entry_bytes("parkur-payload/parkur-engine.sh"@, encode_utf8(engine), EXEC_MODE);
    let e7 = entry_bytes("TRAILER!!!"@, none, 0);
    reveal_strlit("scripts");
    reveal_strlit("scripts/live-bottom");
    reveal_strlit("parkur-payload");
    reveal_strlit("scripts/live-bottom/99-parkur");
    reveal_strlit("parkur-payload/parkur.service");
    reveal_strlit("parkur-payload/parkur-engine.sh");
    reveal_strlit("TRAILER!!!");
    name_is_short("scripts"@);
    name_is_short("scripts/live-bottom"@);
    name_is_short("parkur-payload"@);
    name_is_short("scripts/live-bottom/99-parkur"@);
    name_is_short("parkur-payload/parkur.service"@);
    name_is_short("parkur-payload/parkur-engine.sh"@);
    name_is_short("TRAILER!!!"@);
    seven_parts(d, e1, e2, e3, e4, e5, e6, e7);
    let a1 = none + e1;
    let a2 = a1 + e2;
    let a3 = a2 + e3;
    let a4 = a3 + e4;
    let a5 = a4 + e5;
    let a6 = a5 + e6;
    let a7 = a6 + e7;
    entry_is_read(d, none, "scripts"@, none, DIR_MODE);
    entry_is_read(d, a1, "scripts/live-bottom"@, none, DIR_MODE);
    entry_is_read(d, a2, "parkur-payload"@, none, DIR_MODE);
    entry_is_read(d, a3, "scripts/live-bottom/99-parkur"@, encode_utf8(hook), EXEC_MODE);
    entry_is_read(d, a4, "parkur-payload/parkur.service"@, encode_utf8(service), FILE_MODE);
    entry_is_read(d, a5, "parkur-payload/parkur-engine.sh"@, encode_utf8(engine), EXEC_MODE);
    entry_is_read(d, a6, "TRAILER!!!"@, none, 0);
    crate::newc::padding_is_no_record(a7, d);
}

/// Each run of leading parts stands at the beginning of the whole.
proof fn seven_parts(
    d: Seq<u8>,
    e1: Seq<u8>,
    e2: Seq<u8>,
    e3: Seq<u8>,
    e4: Seq<u8>,
    e5: Seq<u8>,
    e6: Seq<u8>,
    e7: Seq<u8>,
)
    requires
        d == padded(e1 + e2 + e3 + e4 + e5 + e6 + e7, 512),
    ensures
        ({
            let a1 = Seq::<u8>::empty() + e1;
            let a2 = a1 + e2;
            let a3 = a2 + e3;
            let a4 = a3 + e4;
            let a5 = a4 + e5;
            let a6 = a5 + e6;
            let a7 = a6 + e7;
            &&& has_prefix(d, a1)
            &&& has_prefix(d, a2)
            &&& has_prefix(d, a3)
            &&& has_prefix(d, a4)
            &&& has_prefix(d, a5)
            &&& has_prefix(d, a6)
            &&& has_prefix(d, a7)
            &&& d == padded(a7, 512)
            &&& d.len() % 512 == 0
        }),
{
    let a1 = Seq::<u8>::empty() + e1;
    let a2 = a1 + e2;
    let a3 = a2 + e3;
    let a4 = a3 + e4;
    let a5 = a4 + e5;
    let a6 = a5 + e6;
    let a7 = a6 + e7;
    assert(a1 =~= e1);
    let p = zeros(pad_len(a7.len() as int, 512) as nat);
    assert(d == a7 + p);
    assert(d.take(a7.len() as int) =~= a7);
    assert(d.take(a6.len() as int) =~= a6);
    assert(d.take(a5.len() as int) =~= a5);
    assert(d.take(a4.len() as int) =~= a4);
    assert(d.take(a3.len() as int) =~= a3);
    assert(d.take(a2.len() as int) =~= a2);
    assert(d.take(a1.len() as int) =~= a1);
}

/// The archive of the supplementary initrd begins with the bytes of `070701`,
/// as every archive of its kind does.
pub proof fn supplementary_archive_begins_like_an_archive(
    hook: Seq<char>,
    service: Seq<char>,
    engine: Seq<char>,
)
    ensures
        ({
            let d = supplementary_archive(hook, service, engine);
            d.len() >= 110 && d[0] == 48 && d[1] == 55 && d[2] == 48 && d[3] == 55 && d[4] == 48
                && d[5] == 49
        }),
{
    reveal(entry_bytes);
    reveal_strlit("scripts");
    name_is_short("scripts"@);
    let name = encode_utf8("scripts"@);
    crate::newc::header_fields_stand_in_order(0, DIR_MODE as nat, 1, 0, name.len() + 1, true);
    let h = header(0, DIR_MODE as nat, 1, 0, name.len() + 1, true);
    let e1 = entry_bytes("scripts"@, Seq::empty(), DIR_MODE);
    assert(e1.take(110) =~= h);
    let d = supplementary_archive(hook, service, engine);
    assert(d.take(110) =~= e1.take(110));
    assert(d[0] == d.take(110)[0] && d[1] == d.take(110)[1] && d[2] == d.take(110)[2] && d[3]
        == d.take(110)[3] && d[4] == d.take(110)[4] && d[5] == d.take(110)[5]);
}

/// Packing that fails is told by whether it was writing or finishing, and by the
/// cause.
pub proof fn failed_packing_is_told_by_its_cause(cause: Seq<char>)
    ensures
        gzip_failure(false, cause) == (ErrorKind::Io, "gzip sıkıştırma hatası: "@ + cause),
        gzip_failure(true, cause) == (ErrorKind::Io, "gzip finalize hatası: "@ + cause),
{
}

} // verus!
