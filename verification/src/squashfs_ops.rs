//! The root file system image: its size, and the NTFS module that it ships.
use crate::ascii::{ascii_lowercase, lowered};
use crate::codec::{gunzip, gunzipped, unxz, unxzed, unzstd, unzstded};
use crate::error::{ErrorKind, InstallerError};
use crate::text::{
    chars_of, contains, ends_with, has_suffix, occurs, replace, replace_char, string_of,
    strip_start, texts, trim_start_char,
};
use crate::winpath::{dirs_above_path, parent_dirs};
use vstd::prelude::*;

verus! {

// ---------------------------------------------------------------------------
// Sizes
// ---------------------------------------------------------------------------

/// The sum of a list of sizes.
pub open spec fn total(lens: Seq<u64>) -> nat
    decreases lens.len(),
{
    if lens.len() == 0 {
        0
    } else {
        total(lens.drop_last()) + lens.last() as nat
    }
}

/// A size estimated at 3.8 times the compressed size.
pub open spec fn estimated(compressed: u64) -> u64 {
    if compressed * 38 <= u64::MAX {
        ((compressed * 38) / 10) as u64
    } else {
        u64::MAX / 10
    }
}

proof fn total_grows(lens: Seq<u64>, i: int)
    requires
        0 <= i <= lens.len(),
    ensures
        total(lens.take(i)) <= total(lens),
    decreases lens.len(),
{
    if i < lens.len() {
        assert(lens.drop_last().take(i) =~= lens.take(i));
        total_grows(lens.drop_last(), i);
    } else {
        assert(lens.take(i) =~= lens);
    }
}

/// The uncompressed size of an image that is `compressed` bytes long and whose
/// files are `file_lens` bytes long: their sum, or an estimate where the image
/// lists no content.
pub fn read_uncompressed_size(file_lens: &Vec<u64>, compressed: u64) -> (r: u64)
    requires
        total(file_lens@) <= u64::MAX,
    ensures
        total(file_lens@) > 0 ==> r == total(file_lens@),
        total(file_lens@) == 0 ==> r == estimated(compressed),
{
    let mut sum: u64 = 0;
    let mut i: usize = 0;
    while i < file_lens.len()
        invariant
            i <= file_lens@.len(),
            total(file_lens@) <= u64::MAX,
            sum == total(file_lens@.take(i as int)),
        decreases file_lens@.len() - i,
    {
        proof {
            assert(file_lens@.take(i + 1).drop_last() =~= file_lens@.take(i as int));
            total_grows(file_lens@, i + 1);
        }
        sum = sum + file_lens[i];
        i = i + 1;
    }
    assert(file_lens@.take(i as int) =~= file_lens@);
    if sum > 0 {
        sum
    } else {
        estimate_uncompressed_from_compressed(compressed)
    }
}

/// The uncompressed size to expect of `compressed_bytes` of squashfs.
pub fn estimate_uncompressed_from_compressed(compressed_bytes: u64) -> (r: u64)
    ensures
        r == estimated(compressed_bytes),
{
    let wide: u128 = compressed_bytes as u128 * 38;
    if wide <= u64::MAX as u128 {
        (wide / 10) as u64
    } else {
        u64::MAX / 10
    }
}

// ---------------------------------------------------------------------------
// Finding the module
// ---------------------------------------------------------------------------

/// A module for the overlay.
#[derive(Debug)]
pub struct NtfsModuleBlob {
    /// Path inside the overlay, e.g. `lib/modules/.../kernel/fs/ntfs3/ntfs3.ko`.
    pub cpio_path: String,
    pub data: Vec<u8>,
}

/// The path of a node as the archive names it: no leading slash, and slashes
/// between its parts.
pub open spec fn full_path(raw: Seq<char>) -> Seq<char> {
    replace_char(trim_start_char(raw, '/'), '\\', "/"@)
}

/// The path of a node as the archive names it.
pub fn node_full_path(raw: &str) -> (r: String)
    ensures
        r@ == full_path(raw@),
{
    let t = strip_start(raw, '/');
    replace(t.as_str(), '\\', "/")
}

/// `path` names the NTFS module as it is, whatever the case of its letters.
pub open spec fn is_plain_ntfs3(path: Seq<char>) -> bool {
    occurs(lowered(path), "/kernel/fs/ntfs3/"@) && has_suffix(lowered(path), "ntfs3.ko"@)
}

/// `path` names the NTFS module, as it is or packed.
pub open spec fn is_ntfs3(path: Seq<char>) -> bool {
    occurs(lowered(path), "/kernel/fs/ntfs3/"@) && (has_suffix(lowered(path), "ntfs3.ko"@)
        || has_suffix(lowered(path), "ntfs3.ko.xz"@) || has_suffix(lowered(path), "ntfs3.ko.zst"@)
        || has_suffix(lowered(path), "ntfs3.ko.gz"@))
}

/// Which files of an image to read, in order, and which of them to take.
pub struct Ntfs3Plan {
    pub reads: Vec<usize>,
    pub pick: Option<usize>,
}

/// The file to take: the first module that is not packed, or the first packed
/// one where all are.
pub open spec fn picks(paths: Seq<Seq<char>>, pick: Option<usize>) -> bool {
    match pick {
        Some(i) => {
            &&& i < paths.len()
            &&& is_ntfs3(paths[i as int])
            &&& is_plain_ntfs3(paths[i as int]) ==> forall|j: int|
                0 <= j < i ==> !is_plain_ntfs3(#[trigger] paths[j])
            &&& !is_plain_ntfs3(paths[i as int]) ==> {
                &&& forall|j: int| 0 <= j < paths.len() ==> !is_plain_ntfs3(#[trigger] paths[j])
                &&& forall|j: int| 0 <= j < i ==> !is_ntfs3(#[trigger] paths[j])
            }
        },
        None => forall|j: int| 0 <= j < paths.len() ==> !is_ntfs3(#[trigger] paths[j]),
    }
}

/// The file `i` is read: it is a module, and none that is not packed comes before.
pub open spec fn is_read(paths: Seq<Seq<char>>, i: int) -> bool {
    is_ntfs3(paths[i]) && forall|j: int| 0 <= j < i ==> !is_plain_ntfs3(#[trigger] paths[j])
}

/// Plan the search for the NTFS module among the files `paths` of an image.
pub fn find_ntfs3_in_squashfs(paths: &Vec<String>) -> (r: Ntfs3Plan)
    ensures
        picks(texts(paths@), r.pick),
        forall|a: int, b: int| 0 <= a < b < r.reads@.len() ==> r.reads@[a] < r.reads@[b],
        forall|i: usize|
            #[trigger] r.reads@.contains(i) <==> i < paths@.len() && is_read(
                texts(paths@),
                i as int,
            ),
{
    let ghost ps = texts(paths@);
    let mut reads: Vec<usize> = Vec::new();
    let mut preferred: Option<usize> = None;
    let mut i: usize = 0;
    while i < paths.len()
        invariant
            ps == texts(paths@),
            i <= paths@.len(),
            forall|j: int| 0 <= j < i ==> !is_plain_ntfs3(#[trigger] ps[j]),
            match preferred {
                Some(k) => k < i && is_ntfs3(ps[k as int]) && forall|j: int|
                    0 <= j < k ==> !is_ntfs3(#[trigger] ps[j]),
                None => forall|j: int| 0 <= j < i ==> !is_ntfs3(#[trigger] ps[j]),
            },
            forall|a: int, b: int| 0 <= a < b < reads@.len() ==> reads@[a] < reads@[b],
            forall|k: usize| #[trigger] reads@.contains(k) <==> k < i && is_ntfs3(ps[k as int]),
        decreases paths@.len() - i,
    {
        let lower = ascii_lowercase(paths[i].as_str());
        assert(ps[i as int] == paths@[i as int]@);
        let inside = contains(lower.as_str(), "/kernel/fs/ntfs3/");
        let plain = inside && ends_with(lower.as_str(), "ntfs3.ko");
        let wanted = inside && (ends_with(lower.as_str(), "ntfs3.ko") || ends_with(
            lower.as_str(),
            "ntfs3.ko.xz",
        ) || ends_with(lower.as_str(), "ntfs3.ko.zst") || ends_with(lower.as_str(), "ntfs3.ko.gz"));
        let ghost before = reads@;
        if wanted {
            proof {
                assert forall|a: int| 0 <= a < before.len() implies before[a] < i by {
                    assert(before.contains(before[a]));
                }
            }
            reads.push(i);
            proof {
                assert forall|k: usize| #[trigger] reads@.contains(k) <==> k < i + 1 && is_ntfs3(
                    ps[k as int],
                ) by {
                    if before.contains(k) {
                        let a = choose|a: int| 0 <= a < before.len() && before[a] == k;
                        assert(reads@[a] == k);
                    }
                    if reads@.contains(k) {
                        let a = choose|a: int| 0 <= a < reads@.len() && reads@[a] == k;
                        if a < before.len() {
                            assert(before[a] == k);
                            assert(before.contains(k));
                        }
                    }
                    assert(reads@[before.len() as int] == i);
                }
            }
            if plain {
                proof {
                    assert forall|k: usize| #[trigger] reads@.contains(k) <==> k < paths@.len()
                        && is_read(ps, k as int) by {
                        if k > i && is_read(ps, k as int) {
                            assert(!is_plain_ntfs3(ps[i as int]));
                        }
                    }
                }
                return Ntfs3Plan { reads, pick: Some(i) };
            }
            if preferred.is_none() {
                preferred = Some(i);
            }
        }
        i = i + 1;
    }
    proof {
        assert forall|k: usize| #[trigger] reads@.contains(k) <==> k < paths@.len() && is_read(
            ps,
            k as int,
        ) by {}
    }
    Ntfs3Plan { reads, pick: preferred }
}

/// Whether an image with the files `paths` ships the NTFS module.
pub fn squashfs_has_ntfs3(paths: &Vec<String>) -> (r: bool)
    ensures
        r == exists|i: int| 0 <= i < paths@.len() && is_ntfs3(#[trigger] texts(paths@)[i]),
{
    let plan = find_ntfs3_in_squashfs(paths);
    plan.pick.is_some()
}

// ---------------------------------------------------------------------------
// Unpacking the module
// ---------------------------------------------------------------------------

/// How a module is packed.
#[derive(Debug, Clone, Copy, PartialEq, Eq, Structural)]
pub enum Packing {
    Xz,
    Zst,
    Gz,
    Plain,
}

/// How the module `rel` is packed, as its name says.
pub open spec fn packing_of(rel: Seq<char>) -> Packing {
    if has_suffix(rel, ".ko.xz"@) {
        Packing::Xz
    } else if has_suffix(rel, ".ko.zst"@) {
        Packing::Zst
    } else if has_suffix(rel, ".ko.gz"@) {
        Packing::Gz
    } else {
        Packing::Plain
    }
}

/// How the module `rel` is packed.
pub fn packing(rel: &str) -> (r: Packing)
    ensures
        r == packing_of(rel@),
{
    if ends_with(rel, ".ko.xz") {
        Packing::Xz
    } else if ends_with(rel, ".ko.zst") {
        Packing::Zst
    } else if ends_with(rel, ".ko.gz") {
        Packing::Gz
    } else {
        Packing::Plain
    }
}

/// The name of a module without the ending that says how it is packed.
pub open spec fn unpacked_name(rel: Seq<char>) -> Seq<char> {
    match packing_of(rel) {
        Packing::Xz => rel.take(rel.len() - 3),
        Packing::Zst => rel.take(rel.len() - 4),
        Packing::Gz => rel.take(rel.len() - 3),
        Packing::Plain => rel,
    }
}

/// A packed module is listed under the name that it has once it is unpacked.
pub proof fn unpacked_modules_end_in_ko(rel: Seq<char>)
    requires
        packing_of(rel) != Packing::Plain,
    ensures
        has_suffix(unpacked_name(rel), ".ko"@),
        crate::text::has_prefix(rel, unpacked_name(rel)),
{
    reveal_strlit(".ko.xz");
    reveal_strlit(".ko.zst");
    reveal_strlit(".ko.gz");
    reveal_strlit(".ko");
    let n = unpacked_name(rel);
    let ending: Seq<char> = match packing_of(rel) {
        Packing::Xz => ".ko.xz"@,
        Packing::Zst => ".ko.zst"@,
        _ => ".ko.gz"@,
    };
    assert(rel.skip(rel.len() - ending.len()) == ending);
    assert forall|i: int| 0 <= i < ending.len() implies #[trigger] ending[i] == rel[rel.len()
        - ending.len() + i] by {
        assert(rel.skip(rel.len() - ending.len())[i] == ending[i]);
    }
    let at = n.len() - 3;
    assert(ending[0] == '.' && ending[1] == 'k' && ending[2] == 'o');
    assert(n[at] == '.' && n[at + 1] == 'k' && n[at + 2] == 'o');
    assert(n.skip(at) =~= ".ko"@);
    assert(rel.take(n.len() as int) =~= n);
}

/// The message for a module that cannot be unpacked.
pub open spec fn unpack_failure(packing: Packing, cause: Seq<char>) -> Seq<char> {
    match packing {
        Packing::Xz => "ntfs3.ko.xz decompress failed: "@ + cause,
        Packing::Zst => "ntfs3.ko.zst decompress failed: "@ + cause,
        Packing::Gz => "ntfs3.ko.gz decompress failed: "@ + cause,
        Packing::Plain => cause,
    }
}

/// The module `rel` once its content has been unpacked.
pub fn unpacked_module(rel: String, content: Result<Vec<u8>, String>) -> (r: Result<
    NtfsModuleBlob,
    InstallerError,
>)
    ensures
        match content {
            Ok(data) => r is Ok && r->Ok_0.cpio_path@ == unpacked_name(rel@) && r->Ok_0.data@
                == data@,
            Err(e) => r is Err && r->Err_0@ == (
                ErrorKind::IsoExtraction,
                unpack_failure(packing_of(rel@), e@),
            ),
        },
{
    let how = packing(rel.as_str());
    match content {
        Ok(data) => {
            let v = chars_of(rel.as_str());
            proof {
                reveal_strlit(".ko.xz");
                reveal_strlit(".ko.zst");
                reveal_strlit(".ko.gz");
            }
            let drop: usize = match how {
                Packing::Xz => 3,
                Packing::Zst => 4,
                Packing::Gz => 3,
                Packing::Plain => 0,
            };
            let cpio_path = string_of(v.as_slice(), 0, v.len() - drop);
            assert(cpio_path@ =~= unpacked_name(rel@));
            Ok(NtfsModuleBlob { cpio_path, data })
        },
        Err(e) => {
            let m = match how {
                Packing::Xz => "ntfs3.ko.xz decompress failed: ".to_owned().concat(e.as_str()),
                Packing::Zst => "ntfs3.ko.zst decompress failed: ".to_owned().concat(e.as_str()),
                Packing::Gz => "ntfs3.ko.gz decompress failed: ".to_owned().concat(e.as_str()),
                Packing::Plain => e,
            };
            Err(InstallerError::IsoExtraction(m))
        },
    }
}

/// What unpacking `raw` gives.
pub open spec fn unpacked(packing: Packing, raw: Seq<u8>) -> Result<Seq<u8>, Seq<char>> {
    match packing {
        Packing::Xz => unxzed(raw),
        Packing::Zst => unzstded(raw),
        Packing::Gz => gunzipped(raw),
        Packing::Plain => Ok(raw),
    }
}

/// Unpack the NTFS module that was found in an image, for the overlay.
pub fn extract_ntfs3_module(found: Option<(String, Vec<u8>)>) -> (r: Result<
    Option<NtfsModuleBlob>,
    InstallerError,
>)
    ensures
        match found {
            None => r is Ok && r->Ok_0 is None,
            Some((rel, raw)) => match unpacked(packing_of(rel@), raw@) {
                Ok(data) => r is Ok && r->Ok_0 is Some && r->Ok_0->Some_0.cpio_path@
                    == unpacked_name(rel@) && r->Ok_0->Some_0.data@ == data,
                Err(e) => r is Err && r->Err_0@ == (
                    ErrorKind::IsoExtraction,
                    unpack_failure(packing_of(rel@), e),
                ),
            },
        },
{
    match found {
        None => Ok(None),
        Some((rel, raw)) => {
            let content = match packing(rel.as_str()) {
                Packing::Xz => unxz(raw.as_slice()),
                Packing::Zst => unzstd(raw.as_slice()),
                Packing::Gz => gunzip(raw.as_slice()),
                Packing::Plain => Ok(raw),
            };
            match unpacked_module(rel, content) {
                Ok(blob) => Ok(Some(blob)),
                Err(e) => Err(e),
            }
        },
    }
}

// ---------------------------------------------------------------------------
// Directories of a module
// ---------------------------------------------------------------------------

/// The directories above `cpio_path`, from the outermost to the innermost, as
/// Windows reads a path.
pub fn module_parent_dirs(cpio_path: &str) -> (r: Vec<String>)
    ensures
        texts(r@) == parent_dirs(cpio_path@),
{
    dirs_above_path(cpio_path)
}

// ---------------------------------------------------------------------------
// Laws
// ---------------------------------------------------------------------------

/// The size of files is the sum of their sizes: that of two lists, one behind
/// the other, is the sum of both, and that of one file is its own.
pub proof fn sizes_add_up(a: Seq<u64>, b: Seq<u64>, n: u64)
    ensures
        total(a + b) == total(a) + total(b),
        total(seq![n]) == n,
        total(Seq::empty()) == 0,
    decreases b.len(),
{
    reveal_with_fuel(total, 2);
    assert(seq![n].drop_last() =~= Seq::<u64>::empty());
    if b.len() == 0 {
        assert(a + b =~= a);
    } else {
        assert((a + b).drop_last() =~= a + b.drop_last());
        sizes_add_up(a, b.drop_last(), n);
    }
}

/// The estimate is 3.8 times the compressed size, rounded down, as long as 38
/// times that size can be counted; and a larger image is never estimated
/// smaller.
pub proof fn estimate_is_nearly_four_times_the_size(compressed: u64, larger: u64)
    ensures
        compressed * 38 <= u64::MAX ==> 10 * estimated(compressed) <= 38 * compressed && 38
            * compressed < 10 * estimated(compressed) + 10,
        compressed * 38 > u64::MAX ==> estimated(compressed) == 1844674407370955161,
        compressed <= larger ==> estimated(compressed) <= estimated(larger),
{
}

/// Every path below the directory of the module, with its file name, is that of
/// the module, also with one of three endings; only without an ending it is not
/// packed. Nothing else is one, and the case of the letters does not matter.
pub proof fn module_is_told_by_its_path(dir: Seq<char>, path: Seq<char>)
    ensures
        is_plain_ntfs3(dir + "/kernel/fs/ntfs3/ntfs3.ko"@),
        is_ntfs3(dir + "/kernel/fs/ntfs3/ntfs3.ko"@),
        is_ntfs3(dir + "/kernel/fs/ntfs3/ntfs3.ko.xz"@),
        is_ntfs3(dir + "/kernel/fs/ntfs3/ntfs3.ko.zst"@),
        is_ntfs3(dir + "/kernel/fs/ntfs3/ntfs3.ko.gz"@),
        is_plain_ntfs3(path) ==> is_ntfs3(path),
        is_ntfs3(path) <==> occurs(lowered(path), "/kernel/fs/ntfs3/"@) && (has_suffix(
            lowered(path),
            "ntfs3.ko"@,
        ) || has_suffix(lowered(path), "ntfs3.ko.xz"@) || has_suffix(lowered(path), "ntfs3.ko.zst"@)
            || has_suffix(lowered(path), "ntfs3.ko.gz"@)),
        is_plain_ntfs3(path) <==> is_ntfs3(path) && has_suffix(lowered(path), "ntfs3.ko"@),
        is_ntfs3(lowered(path)) <==> is_ntfs3(path),
{
    reveal_strlit("/kernel/fs/ntfs3/ntfs3.ko");
    reveal_strlit("/kernel/fs/ntfs3/ntfs3.ko.xz");
    reveal_strlit("/kernel/fs/ntfs3/ntfs3.ko.zst");
    reveal_strlit("/kernel/fs/ntfs3/ntfs3.ko.gz");
    reveal_strlit("/kernel/fs/ntfs3/");
    reveal_strlit("ntfs3.ko");
    reveal_strlit("ntfs3.ko.xz");
    reveal_strlit("ntfs3.ko.zst");
    reveal_strlit("ntfs3.ko.gz");
    path_of_the_module(dir, "/kernel/fs/ntfs3/ntfs3.ko"@, "ntfs3.ko"@);
    path_of_the_module(dir, "/kernel/fs/ntfs3/ntfs3.ko.xz"@, "ntfs3.ko.xz"@);
    path_of_the_module(dir, "/kernel/fs/ntfs3/ntfs3.ko.zst"@, "ntfs3.ko.zst"@);
    path_of_the_module(dir, "/kernel/fs/ntfs3/ntfs3.ko.gz"@, "ntfs3.ko.gz"@);
    assert(lowered(lowered(path)) =~= lowered(path));
}

proof fn path_of_the_module(dir: Seq<char>, end: Seq<char>, name: Seq<char>)
    requires
        end =~= "/kernel/fs/ntfs3/"@ + name,
        lowered(end) =~= end,
    ensures
        occurs(lowered(dir + end), "/kernel/fs/ntfs3/"@),
        has_suffix(lowered(dir + end), name),
{
    let low = lowered(dir + end);
    let n = dir.len() as int;
    let m = "/kernel/fs/ntfs3/"@;
    assert(low =~= lowered(dir) + end);
    assert(low.subrange(n, n + m.len()) =~= m);
    assert(crate::text::occurs_at(low, m, n));
    assert(low.skip(low.len() - name.len()) =~= name);
}

/// Which file is taken is settled by the list of files: two choices that are
/// both right are the same.
pub proof fn choice_of_the_module_is_settled(
    paths: Seq<Seq<char>>,
    a: Option<usize>,
    b: Option<usize>,
)
    requires
        picks(paths, a),
        picks(paths, b),
    ensures
        a == b,
        a is Some <==> exists|i: int| 0 <= i < paths.len() && is_ntfs3(#[trigger] paths[i]),
        a matches Some(i) ==> ((exists|j: int|
            0 <= j < paths.len() && is_plain_ntfs3(#[trigger] paths[j])) ==> is_plain_ntfs3(
            paths[i as int],
        )),
{
    match (a, b) {
        (Some(i), Some(j)) => {
            assert(is_ntfs3(paths[i as int]) && is_ntfs3(paths[j as int]));
        },
        (Some(i), None) => {
            assert(!is_ntfs3(paths[i as int]));
        },
        (None, Some(j)) => {
            assert(!is_ntfs3(paths[j as int]));
        },
        (None, None) => {},
    }
}

/// The ending of a module says how it is unpacked, and the unpacked module has
/// its name without that ending: `.xz`, `.zst` and `.gz` go and `.ko` stays; a
/// module without such an ending is taken as it is.
pub proof fn endings_say_how_to_unpack(stem: Seq<char>, rel: Seq<char>, raw: Seq<u8>)
    ensures
        unpacked_name(stem + ".ko.xz"@) == stem + ".ko"@,
        unpacked_name(stem + ".ko.zst"@) == stem + ".ko"@,
        unpacked_name(stem + ".ko.gz"@) == stem + ".ko"@,
        unpacked_name(stem + ".ko"@) == stem + ".ko"@,
        unpacked(packing_of(stem + ".ko.xz"@), raw) == unxzed(raw),
        unpacked(packing_of(stem + ".ko.zst"@), raw) == unzstded(raw),
        unpacked(packing_of(stem + ".ko.gz"@), raw) == gunzipped(raw),
        unpacked(packing_of(stem + ".ko"@), raw) == Ok::<Seq<u8>, Seq<char>>(raw),
        !has_suffix(rel, ".xz"@) && !has_suffix(rel, ".zst"@) && !has_suffix(rel, ".gz"@)
            ==> unpacked(packing_of(rel), raw) == Ok::<Seq<u8>, Seq<char>>(raw) && unpacked_name(rel)
            == rel,
{
    reveal_strlit(".ko.xz");
    reveal_strlit(".ko.zst");
    reveal_strlit(".ko.gz");
    reveal_strlit(".ko");
    reveal_strlit(".xz");
    reveal_strlit(".zst");
    reveal_strlit(".gz");
    let x = stem + ".ko.xz"@;
    let z = stem + ".ko.zst"@;
    let g = stem + ".ko.gz"@;
    let k = stem + ".ko"@;
    ends_in(stem, ".ko.xz"@, ".ko.xz"@);
    ends_in(stem, ".ko.zst"@, ".ko.zst"@);
    ends_in(stem, ".ko.gz"@, ".ko.gz"@);
    last_character_decides(z, ".ko.xz"@);
    last_character_decides(g, ".ko.xz"@);
    last_character_decides(g, ".ko.zst"@);
    last_character_decides(k, ".ko.xz"@);
    last_character_decides(k, ".ko.zst"@);
    last_character_decides(k, ".ko.gz"@);
    assert(!has_suffix(g, ".ko.xz"@)) by {
        if has_suffix(g, ".ko.xz"@) {
            assert(g.skip(g.len() - 6)[4] == 'x');
        }
    }
    assert(x.take(x.len() - 3) =~= k);
    assert(z.take(z.len() - 4) =~= k);
    assert(g.take(g.len() - 3) =~= k);
    shorter_ending(rel, ".ko.xz"@, ".xz"@);
    shorter_ending(rel, ".ko.zst"@, ".zst"@);
    shorter_ending(rel, ".ko.gz"@, ".gz"@);
}

proof fn ends_in(stem: Seq<char>, end: Seq<char>, e: Seq<char>)
    requires
        end == e,
    ensures
        has_suffix(stem + end, e),
{
    assert((stem + end).skip((stem + end).len() - e.len()) =~= e);
}

proof fn last_character_decides(s: Seq<char>, e: Seq<char>)
    requires
        s.len() > 0,
        e.len() > 0,
    ensures
        has_suffix(s, e) ==> s.last() == e.last(),
{
    if has_suffix(s, e) {
        assert(s.skip(s.len() - e.len()).last() == s.last());
    }
}

proof fn shorter_ending(s: Seq<char>, long: Seq<char>, short: Seq<char>)
    requires
        short.len() <= long.len(),
        long.skip(long.len() - short.len()) =~= short,
    ensures
        has_suffix(s, long) ==> has_suffix(s, short),
{
    if has_suffix(s, long) {
        assert(s.skip(s.len() - short.len()) =~= s.skip(s.len() - long.len()).skip(
            long.len() - short.len(),
        ));
    }
}

/// The path of a node loses the slashes before it and keeps everything else, but
/// for backslashes, which become slashes.
pub proof fn node_path_loses_its_leading_slashes(slashes: Seq<char>, rest: Seq<char>)
    requires
        forall|k: int| 0 <= k < slashes.len() ==> #[trigger] slashes[k] == '/',
        rest.len() == 0 || rest[0] != '/',
    ensures
        full_path(slashes + rest).len() == rest.len(),
        forall|k: int|
            0 <= k < rest.len() ==> (#[trigger] full_path(slashes + rest)[k]) == (if rest[k] == '\\' {
                '/'
            } else {
                rest[k]
            }),
{
    reveal_strlit("/");
    crate::text::characters_go_from_one_end(rest, slashes, '/');
    crate::text::replacing_by_one_character(rest, '\\', '/');
    assert("/"@ =~= seq!['/']);
}

/// The file that is taken is one of those that are read, and nothing behind the
/// first module that is not packed is read.
pub proof fn module_that_is_taken_is_read(paths: Seq<Seq<char>>, pick: Option<usize>, j: int)
    requires
        picks(paths, pick),
        0 <= j < paths.len(),
    ensures
        pick matches Some(i) ==> is_read(paths, i as int),
        is_read(paths, j) ==> is_ntfs3(paths[j]),
        is_read(paths, j) ==> (pick matches Some(i) && (is_plain_ntfs3(paths[i as int]) ==> j <= i)),
{
    match pick {
        Some(i) => {
            if is_read(paths, j) && i < j {
                assert(!is_plain_ntfs3(paths[i as int]));
            }
        },
        None => {
            assert(!is_ntfs3(paths[j]));
        },
    }
}

/// A module that cannot be unpacked is told by the way it was packed and by the
/// cause.
pub proof fn failed_unpacking_is_told_by_the_packing(cause: Seq<char>)
    ensures
        unpack_failure(Packing::Xz, cause) == "ntfs3.ko.xz decompress failed: "@ + cause,
        unpack_failure(Packing::Zst, cause) == "ntfs3.ko.zst decompress failed: "@ + cause,
        unpack_failure(Packing::Gz, cause) == "ntfs3.ko.gz decompress failed: "@ + cause,
{
}

} // verus!
