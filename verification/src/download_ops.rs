//! Downloading an installation image: the catalogue, the published checksums,
//! and the steps of a download.
use crate::ascii::{
    lower_char, lowercase, lowercased, lowered, same_ignoring_case, same_letters_differ_by_case_only,
};
use crate::codec::{
    fed, hex_encode, hex_text, hex_text_len, sha256_finish, sha256_new, sha256_of, sha256_update,
};
use crate::error::{ErrorKind, InstallerError};
use crate::i18n::{encoded, message_is_written_piece_by_piece, slice_pairs};
use crate::text::{
    byte_len, characters_go_from_one_end, chars_of, first_word_stands_first, is_blank, is_solid,
    is_space, has_suffix, lines, lines_of, same, strip_start, texts, trim, trim_start_char, trimmed,
    trimming_keeps_what_is_between, trimming_takes_white_space_only, words,
    words_are_the_pieces_between_white_space, words_of,
};
use crate::winpath::{in_dir, join_name, names_are_joined_by_one_backslash};
use vstd::prelude::*;
use vstd::utf8::encode_utf8;

verus! {

pub const ISO_BASE: &'static str = "https://indir.pardus.org.tr/ISO/Pardus25";

pub const SHA256SUMS_URL: &'static str = "https://indir.pardus.org.tr/ISO/Pardus25/SHA256SUMS";

// ---------------------------------------------------------------------------
// The catalogue
// ---------------------------------------------------------------------------

/// An image that can be downloaded.
#[derive(Debug)]
pub struct IsoCatalogEntry {
    pub id: String,
    pub version: String,
    pub desktop: String,
    pub filename: String,
    pub url: String,
    pub size_hint_gb: u32,
}

/// `e` is the image `filename` of the distribution.
pub open spec fn is_entry(
    e: IsoCatalogEntry,
    id: Seq<char>,
    version: Seq<char>,
    desktop: Seq<char>,
    filename: Seq<char>,
) -> bool {
    &&& e.id@ == id
    &&& e.version@ == version
    &&& e.desktop@ == desktop
    &&& e.filename@ == filename
    &&& e.url@ == ISO_BASE@ + "/"@ + filename
    &&& e.size_hint_gb == 3
}

fn entry(id: &str, version: &str, desktop: &str, filename: &str) -> (r: IsoCatalogEntry)
    ensures
        is_entry(r, id@, version@, desktop@, filename@),
{
    IsoCatalogEntry {
        id: id.to_owned(),
        version: version.to_owned(),
        desktop: desktop.to_owned(),
        filename: filename.to_owned(),
        url: ISO_BASE.to_owned().concat("/").concat(filename),
        size_hint_gb: 3,
    }
}

/// `e` is the XFCE edition.
pub open spec fn is_xfce(e: IsoCatalogEntry) -> bool {
    is_entry(e, "pardus-25.2-xfce"@, "25.2"@, "XFCE"@, "Pardus-25.2-XFCE-amd64.iso"@)
}

/// `e` is the GNOME edition.
pub open spec fn is_gnome(e: IsoCatalogEntry) -> bool {
    is_entry(e, "pardus-25.2-gnome"@, "25.2"@, "GNOME"@, "Pardus-25.2-GNOME-amd64.iso"@)
}

/// The images that can be downloaded: the latest desktop editions.
pub fn iso_catalog() -> (r: Vec<IsoCatalogEntry>)
    ensures
        r@.len() == 2,
        is_xfce(r@[0]),
        is_gnome(r@[1]),
        r@[0].url@ == "https://indir.pardus.org.tr/ISO/Pardus25/Pardus-25.2-XFCE-amd64.iso"@,
        r@[1].url@ == "https://indir.pardus.org.tr/ISO/Pardus25/Pardus-25.2-GNOME-amd64.iso"@,
        r@[0].id@ == "pardus-25.2-xfce"@ && r@[1].id@ == "pardus-25.2-gnome"@,
        r@[0].version@ == "25.2"@ && r@[1].version@ == "25.2"@,
        r@[0].desktop@ == "XFCE"@ && r@[1].desktop@ == "GNOME"@,
        r@[0].filename@ == "Pardus-25.2-XFCE-amd64.iso"@,
        r@[1].filename@ == "Pardus-25.2-GNOME-amd64.iso"@,
        r@[0].size_hint_gb == 3 && r@[1].size_hint_gb == 3,
{
    proof {
        catalogue_addresses_are_these();
    }
    vec![
        entry("pardus-25.2-xfce", "25.2", "XFCE", "Pardus-25.2-XFCE-amd64.iso"),
        entry("pardus-25.2-gnome", "25.2", "GNOME", "Pardus-25.2-GNOME-amd64.iso"),
    ]
}

/// The image with the identifier `id`.
pub fn find_catalog_entry(id: &str) -> (r: Result<IsoCatalogEntry, InstallerError>)
    ensures
        id@ == "pardus-25.2-xfce"@ ==> r is Ok && is_xfce(r->Ok_0),
        id@ == "pardus-25.2-gnome"@ ==> r is Ok && is_gnome(r->Ok_0),
        id@ != "pardus-25.2-xfce"@ && id@ != "pardus-25.2-gnome"@ ==> r is Err && r->Err_0@ == (
            ErrorKind::InvalidInput,
            encoded("ERR_ISO_UNKNOWN_ID"@, seq![("id"@, id@)]),
        ),
        r is Ok ==> r->Ok_0.id@ == id@ && has_suffix(r->Ok_0.url@, r->Ok_0.filename@),
{
    proof {
        reveal_strlit("pardus-25.2-xfce");
        reveal_strlit("pardus-25.2-gnome");
        assert("pardus-25.2-xfce"@.len() != "pardus-25.2-gnome"@.len());
    }
    proof {
        assert forall|e: IsoCatalogEntry| is_xfce(e) || is_gnome(e) implies has_suffix(
            #[trigger] e.url@,
            e.filename@,
        ) by {
            assert(e.url@.skip(e.url@.len() - e.filename@.len()) =~= e.filename@);
        }
    }
    let mut all = iso_catalog();
    let gnome = all.pop();
    let xfce = all.pop();
    match (xfce, gnome) {
        (Some(x), Some(g)) => {
            if same(x.id.as_str(), id) {
                return Ok(x);
            }
            if same(g.id.as_str(), id) {
                return Ok(g);
            }
        },
        _ => {},
    }
    let params: [(&str, &str); 1] = [("id", id)];
    assert(slice_pairs(params@) =~= seq![("id"@, id@)]);
    Err(InstallerError::coded(ErrorKind::InvalidInput, "ERR_ISO_UNKNOWN_ID", &params))
}

/// The directory for downloads in the home directory `home`.
pub fn download_dir(home: Option<String>) -> (r: Result<String, InstallerError>)
    ensures
        match home {
            Some(h) => r is Ok && r->Ok_0@ == in_dir(in_dir(h@, "Downloads"@), "ParKur"@),
            None => r is Err && r->Err_0@ == (
                ErrorKind::Io,
                encoded("ERR_ISO_DOWNLOAD_DIR"@, Seq::empty()),
            ),
        },
{
    match home {
        Some(h) => {
            let d = join_name(h.as_str(), "Downloads");
            Ok(join_name(d.as_str(), "ParKur"))
        },
        None => {
            let none: [(&str, &str); 0] = [];
            assert(slice_pairs(none@) =~= Seq::empty());
            Err(InstallerError::coded(ErrorKind::Io, "ERR_ISO_DOWNLOAD_DIR", &none))
        },
    }
}

// ---------------------------------------------------------------------------
// Checksums
// ---------------------------------------------------------------------------

/// The word at `i`, or nothing where there are fewer.
pub open spec fn word_at(ws: Seq<Seq<char>>, i: int) -> Seq<char> {
    if i < ws.len() {
        ws[i]
    } else {
        ""@
    }
}

/// The checksum in one line of the list, where the line is that of `filename`:
/// the checksum comes first, then the name, which may have asterisks before it.
pub open spec fn line_checksum(line: Seq<char>, filename: Seq<char>) -> Option<Seq<char>> {
    let t = trimmed(line);
    let ws = words_of(t);
    if t.len() > 0 && t[0] != '#' && trim_start_char(word_at(ws, 1), '*') == filename
        && encode_utf8(word_at(ws, 0)).len() == 64 {
        Some(word_at(ws, 0))
    } else {
        None
    }
}

/// The checksum in the first line that has one for `filename`.
pub open spec fn listed_checksum(ls: Seq<Seq<char>>, filename: Seq<char>) -> Option<Seq<char>>
    decreases ls.len(),
{
    if ls.len() == 0 {
        None
    } else {
        match line_checksum(ls[0], filename) {
            Some(h) => Some(h),
            None => listed_checksum(ls.skip(1), filename),
        }
    }
}

/// The checksum of `filename` in a published list.
pub fn published_checksum(text: &str, filename: &str) -> (r: Option<String>)
    ensures
        crate::text::text_of(r) == listed_checksum(lines_of(text@), filename@),
{
    let ls = lines(text);
    let ghost all = lines_of(text@);
    let mut i: usize = 0;
    assert(all.skip(0) =~= all);
    while i < ls.len()
        invariant
            i <= ls@.len(),
            texts(ls@) == all,
            all == lines_of(text@),
            listed_checksum(all, filename@) == listed_checksum(all.skip(i as int), filename@),
        decreases ls@.len() - i,
    {
        assert(all[i as int] == ls@[i as int]@);
        assert(all.skip(i as int).skip(1) =~= all.skip(i + 1));
        let t = trim(ls[i].as_str());
        let v = chars_of(t.as_str());
        if v.len() > 0 && v[0] != '#' {
            let ws = words(t.as_str());
            let hash: String = if ws.len() > 0 { ws[0].clone() } else { "".to_owned() };
            let second: String = if ws.len() > 1 { ws[1].clone() } else { "".to_owned() };
            proof {
                assert(hash@ == word_at(words_of(t@), 0)) by {
                    if ws@.len() > 0 {
                        assert(texts(ws@)[0] == ws@[0]@);
                    }
                }
                assert(second@ == word_at(words_of(t@), 1)) by {
                    if ws@.len() > 1 {
                        assert(texts(ws@)[1] == ws@[1]@);
                    }
                }
            }
            let name = strip_start(second.as_str(), '*');
            if same(name.as_str(), filename) && byte_len(hash.as_str()) == 64 {
                assert(line_checksum(all[i as int], filename@) == Some(hash@));
                return Some(hash);
            }
        }
        i = i + 1;
    }
    assert(ls@.len() == all.len());
    None
}

/// The checksum to expect for `filename`, from the published list, or from the
/// text of the error that came instead of it.
pub fn fetch_expected_sha256(filename: &str, reply: Result<String, String>) -> (r: Result<
    String,
    InstallerError,
>)
    ensures
        match reply {
            Ok(text) => match listed_checksum(lines_of(text@), filename@) {
                Some(h) => r is Ok && r->Ok_0@ == lowercased(h),
                None => r is Err && r->Err_0@ == (
                    ErrorKind::Network,
                    encoded("ERR_ISO_CHECKSUM_MISSING"@, seq![("file"@, filename@)]),
                ),
            },
            Err(e) => r is Err && r->Err_0@ == (
                ErrorKind::Network,
                encoded("ERR_ISO_CHECKSUM_FETCH"@, seq![("detail"@, e@)]),
            ),
        },
{
    match reply {
        Ok(text) => match published_checksum(text.as_str(), filename) {
            Some(h) => Ok(lowercase(h.as_str())),
            None => Err(network_error("ERR_ISO_CHECKSUM_MISSING", "file", filename)),
        },
        Err(e) => Err(network_error("ERR_ISO_CHECKSUM_FETCH", "detail", e.as_str())),
    }
}

fn network_error(code: &str, name: &str, value: &str) -> (r: InstallerError)
    ensures
        r@ == (ErrorKind::Network, encoded(code@, seq![(name@, value@)])),
{
    let params: [(&str, &str); 1] = [(name, value)];
    assert(slice_pairs(params@) =~= seq![(name@, value@)]);
    InstallerError::coded(ErrorKind::Network, code, &params)
}

/// The checksum of a file that is read piece by piece. Its view is what was
/// read so far.
pub struct FileChecksum {
    hasher: sha2::Sha256,
}

impl View for FileChecksum {
    type V = Seq<u8>;

    closed spec fn view(&self) -> Seq<u8> {
        fed(self.hasher)
    }
}

impl FileChecksum {
    /// Nothing was read.
    pub fn new() -> (r: Self)
        ensures
            r@ == Seq::<u8>::empty(),
    {
        FileChecksum { hasher: sha256_new() }
    }

    /// `chunk` was read too.
    pub fn update(&mut self, chunk: &[u8])
        ensures
            final(self)@ == old(self)@ + chunk@,
    {
        sha256_update(&mut self.hasher, chunk);
    }

    /// The SHA-256 checksum of what was read, in small hexadecimal digits.
    pub fn finish(self) -> (r: String)
        ensures
            r@ == hex_text(sha256_of(self@)),
            r@.len() == 64,
    {
        let d = sha256_finish(self.hasher);
        proof {
            hex_text_len(d@);
        }
        hex_encode(d.as_slice())
    }
}

// ---------------------------------------------------------------------------
// One download at a time
// ---------------------------------------------------------------------------

/// Whether a download runs, and whether it is to stop.
pub struct DownloadGate {
    pub busy: bool,
    pub cancel: bool,
}

impl DownloadGate {
    /// No download runs.
    pub fn new() -> (r: Self)
        ensures
            !r.busy,
            !r.cancel,
    {
        DownloadGate { busy: false, cancel: false }
    }

    /// A download begins, unless one runs. It forgets an earlier request to
    /// stop.
    pub fn download_iso(&mut self) -> (r: Result<(), InstallerError>)
        ensures
            old(self).busy ==> *final(self) == *old(self) && r is Err && r->Err_0@ == (
                ErrorKind::InvalidInput,
                encoded("ERR_ISO_DOWNLOAD_BUSY"@, Seq::empty()),
            ),
            !old(self).busy ==> final(self).busy && !final(self).cancel && r is Ok,
    {
        if self.busy {
            let none: [(&str, &str); 0] = [];
            assert(slice_pairs(none@) =~= Seq::empty());
            return Err(
                InstallerError::coded(ErrorKind::InvalidInput, "ERR_ISO_DOWNLOAD_BUSY", &none),
            );
        }
        self.busy = true;
        self.cancel = false;
        Ok(())
    }

    /// The download that runs is to stop.
    pub fn request_cancel_download(&mut self)
        ensures
            final(self).cancel,
            final(self).busy == old(self).busy,
    {
        self.cancel = true;
    }

    /// The download is over, however it ended.
    pub fn end(&mut self)
        ensures
            !final(self).busy,
            final(self).cancel == old(self).cancel,
    {
        self.busy = false;
    }
}

// ---------------------------------------------------------------------------
// The steps of a download
// ---------------------------------------------------------------------------

/// The client is told after this many bytes.
pub const EMIT_BYTES: u64 = 8 * 1024 * 1024;

/// What a download does next, or how it ended.
#[derive(Debug, Clone, Copy, PartialEq, Eq, Structural)]
pub enum Stage {
    /// Fetch the published checksums.
    FetchSums,
    /// Look whether the image is there already.
    LookForDest,
    /// Compute the checksum of the image that is there.
    HashDest,
    /// Remove the image that is there; this may fail.
    RemoveDest,
    /// Ask for the image.
    Connect,
    /// Create the partial file.
    Create,
    /// Wait for the next piece.
    NextChunk,
    /// Append the piece to the partial file.
    Write,
    /// Flush and close the partial file.
    Flush,
    /// Compute the checksum of the partial file.
    HashPartial,
    /// Close and remove the partial file; this may fail.
    DropPartial,
    /// Give the partial file its final name.
    Rename,
    Finished,
    Failed,
}

/// What came of the last step.
pub enum Event {
    /// The published checksums, or the text of the error.
    Sums(Result<String, String>),
    /// Whether the image is there.
    Found(bool),
    /// A checksum, or the error of reading the file.
    Hash(Result<String, InstallerError>),
    /// A removal was tried.
    Tried,
    /// The server answered with the size of the image, zero where it is not
    /// known, or the text of the error.
    Connected(Result<u64, String>),
    /// The size of the next piece, or the text of the error; nothing at the end.
    Chunk(Option<Result<u64, String>>),
    /// A step that has no value ended.
    Outcome(Result<(), InstallerError>),
}

/// What came of the last step, by its texts.
pub enum Happening {
    Sums(Result<Seq<char>, Seq<char>>),
    Found(bool),
    Hash(Result<Seq<char>, (ErrorKind, Seq<char>)>),
    Tried,
    Connected(Result<u64, Seq<char>>),
    Chunk(Option<Result<u64, Seq<char>>>),
    Outcome(Result<(), (ErrorKind, Seq<char>)>),
}

impl View for Event {
    type V = Happening;

    open spec fn view(&self) -> Happening {
        match *self {
            Event::Sums(Ok(t)) => Happening::Sums(Ok(t@)),
            Event::Sums(Err(t)) => Happening::Sums(Err(t@)),
            Event::Found(b) => Happening::Found(b),
            Event::Hash(Ok(h)) => Happening::Hash(Ok(h@)),
            Event::Hash(Err(e)) => Happening::Hash(Err(e@)),
            Event::Tried => Happening::Tried,
            Event::Connected(Ok(n)) => Happening::Connected(Ok(n)),
            Event::Connected(Err(t)) => Happening::Connected(Err(t@)),
            Event::Chunk(None) => Happening::Chunk(None),
            Event::Chunk(Some(Ok(n))) => Happening::Chunk(Some(Ok(n))),
            Event::Chunk(Some(Err(t))) => Happening::Chunk(Some(Err(t@))),
            Event::Outcome(Ok(_)) => Happening::Outcome(Ok(())),
            Event::Outcome(Err(e)) => Happening::Outcome(Err(e@)),
        }
    }
}

/// What the client is told of a download. Where the percentage is missing, it
/// is the share of the bytes that came, and at most 99.
#[derive(Debug)]
pub struct DownloadProgressPayload {
    pub phase: String,
    pub percent: Option<u32>,
    pub downloaded_mb: u64,
    pub total_mb: u64,
    pub path: String,
}

impl View for DownloadProgressPayload {
    type V = (Seq<char>, Option<u32>, u64, u64, Seq<char>);

    open spec fn view(&self) -> (Seq<char>, Option<u32>, u64, u64, Seq<char>) {
        (self.phase@, self.percent, self.downloaded_mb, self.total_mb, self.path@)
    }
}

/// What the client is told, by its texts.
pub open spec fn told(v: Seq<DownloadProgressPayload>) -> Seq<
    (Seq<char>, Option<u32>, u64, u64, Seq<char>),
> {
    v.map_values(|p: DownloadProgressPayload| p@)
}

/// A download.
pub struct Download {
    pub stage: Stage,
    /// The name of the image, and where it goes.
    pub filename: String,
    pub dest: String,
    /// The published checksum.
    pub expected: String,
    /// The size of the image, zero where it is not known.
    pub total: u64,
    pub downloaded: u64,
    /// How much had come when the client was told last.
    pub last_emit: u64,
    /// The size of the piece that is being written.
    pub chunk: u64,
    pub failure: Option<InstallerError>,
}

/// A download, by its texts.
pub struct State {
    pub stage: Stage,
    pub filename: Seq<char>,
    pub dest: Seq<char>,
    pub expected: Seq<char>,
    pub total: u64,
    pub downloaded: u64,
    pub last_emit: u64,
    pub chunk: u64,
    pub failure: Option<(ErrorKind, Seq<char>)>,
}

impl View for Download {
    type V = State;

    open spec fn view(&self) -> State {
        State {
            stage: self.stage,
            filename: self.filename@,
            dest: self.dest@,
            expected: self.expected@,
            total: self.total,
            downloaded: self.downloaded,
            last_emit: self.last_emit,
            chunk: self.chunk,
            failure: match self.failure {
                Some(e) => Some(e@),
                None => None,
            },
        }
    }
}

/// The state of a download makes sense: the client was told of no more than
/// came, the piece that is being written can be counted, and a download that
/// fails knows why.
pub open spec fn is_sound(s: State) -> bool {
    &&& s.last_emit <= s.downloaded
    &&& s.stage == Stage::Write ==> s.downloaded + s.chunk <= u64::MAX
    &&& s.stage == Stage::Failed || s.stage == Stage::DropPartial ==> s.failure is Some
}

/// The message for a download that was cancelled.
pub open spec fn cancelled() -> (ErrorKind, Seq<char>) {
    (ErrorKind::Network, encoded("ERR_ISO_DOWNLOAD_CANCELLED"@, Seq::empty()))
}

/// The message for a download that failed with the text `detail`.
pub open spec fn download_failed(detail: Seq<char>) -> (ErrorKind, Seq<char>) {
    (ErrorKind::Network, encoded("ERR_ISO_DOWNLOAD_FAILED"@, seq![("detail"@, detail)]))
}

/// The message for a file whose checksum is not the published one.
pub open spec fn mismatch(filename: Seq<char>) -> (ErrorKind, Seq<char>) {
    (ErrorKind::Network, encoded("ERR_ISO_CHECKSUM_MISMATCH"@, seq![("file"@, filename)]))
}

/// The checksum to expect, as `fetch_expected_sha256` gives it.
pub open spec fn expected_checksum(
    filename: Seq<char>,
    reply: Result<Seq<char>, Seq<char>>,
) -> Result<Seq<char>, (ErrorKind, Seq<char>)> {
    match reply {
        Ok(text) => match listed_checksum(lines_of(text), filename) {
            Some(h) => Ok(lowercased(h)),
            None => Err(
                (
                    ErrorKind::Network,
                    encoded("ERR_ISO_CHECKSUM_MISSING"@, seq![("file"@, filename)]),
                ),
            ),
        },
        Err(e) => Err(
            (ErrorKind::Network, encoded("ERR_ISO_CHECKSUM_FETCH"@, seq![("detail"@, e)])),
        ),
    }
}

/// Two checksums are the same, whatever the case of their letters.
pub open spec fn same_checksum(a: Seq<char>, b: Seq<char>) -> bool {
    lowered(a) == lowered(b)
}

/// The download failed with the error `e`.
pub open spec fn failing(s: State, e: (ErrorKind, Seq<char>)) -> State {
    State { stage: Stage::Failed, failure: Some(e), ..s }
}

/// The download failed with the error `e`, and the partial file goes.
pub open spec fn dropping(s: State, e: (ErrorKind, Seq<char>)) -> State {
    State { stage: Stage::DropPartial, failure: Some(e), ..s }
}

/// The download goes on at the stage `stage`.
pub open spec fn at(s: State, stage: Stage) -> State {
    State { stage, ..s }
}

/// The image is to be asked for, unless the user cancelled.
pub open spec fn connecting(s: State, cancel: bool) -> State {
    if cancel {
        failing(s, cancelled())
    } else {
        at(s, Stage::Connect)
    }
}

/// A piece was written.
pub open spec fn counted(s: State) -> State {
    let d = (s.downloaded + s.chunk) as u64;
    State {
        stage: Stage::NextChunk,
        downloaded: d,
        last_emit: if d - s.last_emit >= EMIT_BYTES || (s.total > 0 && d == s.total) {
            d
        } else {
            s.last_emit
        },
        ..s
    }
}

/// What comes after `h` happened: the next state of a download. Where `h` is no
/// answer to the stage, nothing changes.
pub open spec fn next(s: State, h: Happening, cancel: bool) -> State {
    match (s.stage, h) {
        (Stage::FetchSums, Happening::Sums(reply)) => match expected_checksum(s.filename, reply) {
            Ok(x) => State { stage: Stage::LookForDest, expected: x, ..s },
            Err(e) => failing(s, e),
        },
        (Stage::FetchSums, Happening::Outcome(Err(e))) => failing(s, e),
        (Stage::LookForDest, Happening::Found(true)) => at(s, Stage::HashDest),
        (Stage::LookForDest, Happening::Found(false)) => connecting(s, cancel),
        (Stage::HashDest, Happening::Hash(Ok(x))) => if same_checksum(x, s.expected) {
            at(s, Stage::Finished)
        } else {
            at(s, Stage::RemoveDest)
        },
        (Stage::HashDest, Happening::Hash(Err(e))) => failing(s, e),
        (Stage::RemoveDest, Happening::Tried) => connecting(s, cancel),
        (Stage::Connect, Happening::Connected(Ok(n))) => State {
            stage: Stage::Create,
            total: n,
            ..s
        },
        (Stage::Connect, Happening::Connected(Err(t))) => failing(s, download_failed(t)),
        (Stage::Connect, Happening::Outcome(Err(e))) => failing(s, e),
        (Stage::Create, Happening::Outcome(Ok(_))) => at(s, Stage::NextChunk),
        (Stage::Create, Happening::Outcome(Err(e))) => failing(s, e),
        (Stage::NextChunk, Happening::Chunk(None)) => at(s, Stage::Flush),
        (Stage::NextChunk, Happening::Chunk(Some(piece))) => if cancel {
            dropping(s, cancelled())
        } else {
            match piece {
                Ok(n) => State { stage: Stage::Write, chunk: n, ..s },
                Err(t) => failing(s, download_failed(t)),
            }
        },
        (Stage::Write, Happening::Outcome(Ok(_))) => counted(s),
        (Stage::Write, Happening::Outcome(Err(e))) => failing(s, e),
        (Stage::Flush, Happening::Outcome(Ok(_))) => at(s, Stage::HashPartial),
        (Stage::Flush, Happening::Outcome(Err(e))) => failing(s, e),
        (Stage::HashPartial, Happening::Hash(Ok(x))) => if same_checksum(x, s.expected) {
            at(s, Stage::Rename)
        } else {
            dropping(s, mismatch(s.filename))
        },
        (Stage::HashPartial, Happening::Hash(Err(e))) => failing(s, e),
        (Stage::DropPartial, Happening::Tried) => at(s, Stage::Failed),
        (Stage::Rename, Happening::Outcome(Ok(_))) => at(s, Stage::Finished),
        (Stage::Rename, Happening::Outcome(Err(e))) => failing(s, e),
        _ => s,
    }
}

/// One thing that the client is told.
pub open spec fn tell(
    phase: Seq<char>,
    percent: Option<u32>,
    downloaded: u64,
    total: u64,
    path: Seq<char>,
) -> Seq<(Seq<char>, Option<u32>, u64, u64, Seq<char>)> {
    seq![(phase, percent, downloaded / 0x10_0000, total / 0x10_0000, path)]
}

/// What the client is told when a download goes from `s` to `t`: that a file is
/// verified, how much came whenever enough came since the last time, and that
/// the download is done.
pub open spec fn tells(s: State, t: State) -> Seq<
    (Seq<char>, Option<u32>, u64, u64, Seq<char>),
> {
    if s.stage == Stage::LookForDest && t.stage == Stage::HashDest {
        tell("verifying"@, Some(0), 0, 0, s.dest)
    } else if s.stage == Stage::HashDest && t.stage == Stage::Finished {
        tell("done"@, Some(100), 0, 0, s.dest)
    } else if s.stage == Stage::Write && t.stage == Stage::NextChunk && t.downloaded - s.last_emit
        >= EMIT_BYTES || s.stage == Stage::Write && t.stage == Stage::NextChunk && s.total > 0
        && t.downloaded == s.total {
        tell("downloading"@, None, t.downloaded, s.total, s.dest)
    } else if s.stage == Stage::Flush && t.stage == Stage::HashPartial {
        tell("verifying"@, Some(99), s.downloaded, s.total, s.dest)
    } else if s.stage == Stage::Rename && t.stage == Stage::Finished {
        tell("done"@, Some(100), s.downloaded, s.total, s.dest)
    } else {
        Seq::empty()
    }
}

impl Download {
    fn progress(&self, phase: &str, percent: Option<u32>, downloaded: u64, total: u64) -> (r: Vec<
        DownloadProgressPayload,
    >)
        ensures
            told(r@) == tell(phase@, percent, downloaded, total, self.dest@),
    {
        let r: Vec<DownloadProgressPayload> = vec![
            DownloadProgressPayload {
                phase: phase.to_owned(),
                percent,
                downloaded_mb: downloaded / (1024 * 1024),
                total_mb: total / (1024 * 1024),
                path: self.dest.clone(),
            },
        ];
        assert(told(r@) =~= tell(phase@, percent, downloaded, total, self.dest@));
        r
    }

    /// The download of `filename` to `dest` begins; the client is told that it
    /// is prepared.
    pub fn download_iso_inner(filename: String, dest: String) -> (r: (
        Download,
        Vec<DownloadProgressPayload>,
    ))
        ensures
            is_sound(r.0@),
            r.0@ == (State {
                stage: Stage::FetchSums,
                filename: filename@,
                dest: dest@,
                expected: ""@,
                total: 0,
                downloaded: 0,
                last_emit: 0,
                chunk: 0,
                failure: None,
            }),
            told(r.1@) == tell("preparing"@, Some(0), 0, 0, dest@),
    {
        let d = Download {
            stage: Stage::FetchSums,
            filename,
            dest,
            expected: "".to_owned(),
            total: 0,
            downloaded: 0,
            last_emit: 0,
            chunk: 0,
            failure: None,
        };
        let p = d.progress("preparing", Some(0), 0, 0);
        (d, p)
    }

    fn fail(&mut self, e: InstallerError)
        ensures
            final(self)@ == failing(old(self)@, e@),
    {
        self.stage = Stage::Failed;
        self.failure = Some(e);
    }

    fn drop_partial(&mut self, e: InstallerError)
        ensures
            final(self)@ == dropping(old(self)@, e@),
    {
        self.stage = Stage::DropPartial;
        self.failure = Some(e);
    }

    fn cancelled_error() -> (r: InstallerError)
        ensures
            r@ == cancelled(),
    {
        let none: [(&str, &str); 0] = [];
        assert(slice_pairs(none@) =~= Seq::empty());
        InstallerError::coded(ErrorKind::Network, "ERR_ISO_DOWNLOAD_CANCELLED", &none)
    }

    fn connect(&mut self, cancel: bool)
        ensures
            final(self)@ == connecting(old(self)@, cancel),
    {
        if cancel {
            self.fail(Self::cancelled_error());
        } else {
            self.stage = Stage::Connect;
        }
    }

    /// The download goes on after `event`; `cancel` says whether the user wants
    /// it to stop. What the client is told is handed back. A piece must fit
    /// into the count of bytes.
    pub fn step(&mut self, event: Event, cancel: bool) -> (r: Vec<DownloadProgressPayload>)
        requires
            is_sound(old(self)@),
            event@ matches Happening::Chunk(Some(Ok(n))) ==> old(self).downloaded + n <= u64::MAX,
        ensures
            is_sound(final(self)@),
            final(self)@ == next(old(self)@, event@, cancel),
            told(r@) == tells(old(self)@, final(self)@),
    {
        let mut out: Vec<DownloadProgressPayload> = Vec::new();
        assert(told(out@) =~= Seq::empty());
        match (self.stage, event) {
            (Stage::FetchSums, Event::Sums(reply)) => {
                match fetch_expected_sha256(self.filename.as_str(), reply) {
                    Ok(x) => {
                        self.expected = x;
                        self.stage = Stage::LookForDest;
                    },
                    Err(e) => {
                        self.fail(e);
                    },
                }
            },
            (Stage::FetchSums, Event::Outcome(Err(e))) => {
                self.fail(e);
            },
            (Stage::LookForDest, Event::Found(there)) => {
                if there {
                    self.stage = Stage::HashDest;
                    out = self.progress("verifying", Some(0), 0, 0);
                } else {
                    self.connect(cancel);
                }
            },
            (Stage::HashDest, Event::Hash(Ok(x))) => {
                if same_ignoring_case(x.as_str(), self.expected.as_str()) {
                    self.stage = Stage::Finished;
                    out = self.progress("done", Some(100), 0, 0);
                } else {
                    self.stage = Stage::RemoveDest;
                }
            },
            (Stage::HashDest, Event::Hash(Err(e))) => {
                self.fail(e);
            },
            (Stage::RemoveDest, Event::Tried) => {
                self.connect(cancel);
            },
            (Stage::Connect, Event::Connected(Ok(n))) => {
                self.total = n;
                self.stage = Stage::Create;
            },
            (Stage::Connect, Event::Connected(Err(t))) => {
                self.fail(network_error("ERR_ISO_DOWNLOAD_FAILED", "detail", t.as_str()));
            },
            (Stage::Connect, Event::Outcome(Err(e))) => {
                self.fail(e);
            },
            (Stage::Create, Event::Outcome(Ok(_))) => {
                self.stage = Stage::NextChunk;
            },
            (Stage::Create, Event::Outcome(Err(e))) => {
                self.fail(e);
            },
            (Stage::NextChunk, Event::Chunk(None)) => {
                self.stage = Stage::Flush;
            },
            (Stage::NextChunk, Event::Chunk(Some(piece))) => {
                if cancel {
                    self.drop_partial(Self::cancelled_error());
                } else {
                    match piece {
                        Ok(n) => {
                            self.chunk = n;
                            self.stage = Stage::Write;
                        },
                        Err(t) => {
                            self.fail(
                                network_error("ERR_ISO_DOWNLOAD_FAILED", "detail", t.as_str()),
                            );
                        },
                    }
                }
            },
            (Stage::Write, Event::Outcome(Ok(_))) => {
                self.downloaded = self.downloaded + self.chunk;
                self.stage = Stage::NextChunk;
                if self.downloaded - self.last_emit >= EMIT_BYTES || (self.total > 0
                    && self.downloaded == self.total) {
                    self.last_emit = self.downloaded;
                    out = self.progress("downloading", None, self.downloaded, self.total);
                }
            },
            (Stage::Write, Event::Outcome(Err(e))) => {
                self.fail(e);
            },
            (Stage::Flush, Event::Outcome(Ok(_))) => {
                self.stage = Stage::HashPartial;
                out = self.progress("verifying", Some(99), self.downloaded, self.total);
            },
            (Stage::Flush, Event::Outcome(Err(e))) => {
                self.fail(e);
            },
            (Stage::HashPartial, Event::Hash(Ok(x))) => {
                if same_ignoring_case(x.as_str(), self.expected.as_str()) {
                    self.stage = Stage::Rename;
                } else {
                    let e = network_error(
                        "ERR_ISO_CHECKSUM_MISMATCH",
                        "file",
                        self.filename.as_str(),
                    );
                    self.drop_partial(e);
                }
            },
            (Stage::HashPartial, Event::Hash(Err(e))) => {
                self.fail(e);
            },
            (Stage::DropPartial, Event::Tried) => {
                self.stage = Stage::Failed;
            },
            (Stage::Rename, Event::Outcome(Ok(_))) => {
                self.stage = Stage::Finished;
                out = self.progress("done", Some(100), self.downloaded, self.total);
            },
            (Stage::Rename, Event::Outcome(Err(e))) => {
                self.fail(e);
            },
            _ => {},
        }
        out
    }

    /// How the download ended, if it did: with the path of the image, or with
    /// the error.
    pub fn outcome(self) -> (r: Option<Result<String, InstallerError>>)
        requires
            is_sound(self@),
        ensures
            self.stage == Stage::Finished ==> r == Some(Ok::<String, InstallerError>(self.dest)),
            self.stage == Stage::Failed ==> self.failure is Some && r == Some(
                Err::<String, InstallerError>(self.failure->Some_0),
            ),
            self.stage != Stage::Finished && self.stage != Stage::Failed ==> r is None,
    {
        match self.stage {
            Stage::Finished => Some(Ok(self.dest)),
            Stage::Failed => match self.failure {
                Some(e) => Some(Err(e)),
                None => None,
            },
            _ => None,
        }
    }
}

// ---------------------------------------------------------------------------
// Laws
// ---------------------------------------------------------------------------

/// The state after all of `hs` happened, each with the wish to cancel that was
/// there at the time.
pub open spec fn run(s: State, hs: Seq<(Happening, bool)>) -> State
    decreases hs.len(),
{
    if hs.len() == 0 {
        s
    } else {
        next(run(s, hs.drop_last()), hs.last().0, hs.last().1)
    }
}

/// A checksum that was computed in the course of `hs` has the length of
/// `expected` and agrees with it at every position but for the case of ASCII
/// letters.
pub open spec fn has_matching_checksum(hs: Seq<(Happening, bool)>, expected: Seq<char>) -> bool {
    exists|i: int|
        0 <= i < hs.len() && (#[trigger] hs[i]).0 is Hash && hs[i].0->Hash_0 is Ok
            && hs[i].0->Hash_0->Ok_0.len() == expected.len() && forall|k: int|
            0 <= k < expected.len() ==> lower_char(hs[i].0->Hash_0->Ok_0[k]) == lower_char(
                #[trigger] expected[k],
            )
}

/// Two checksums are taken for the same exactly where they have one length and
/// every character of the one is that of the other, or the two are the capital
/// and the small form of one ASCII letter, whose codes are 32 apart.
pub proof fn checksums_agree_character_by_character(a: Seq<char>, b: Seq<char>)
    ensures
        same_checksum(a, b) <==> a.len() == b.len() && forall|k: int|
            0 <= k < a.len() ==> lower_char(#[trigger] a[k]) == lower_char(b[k]),
        same_checksum(a, b) <==> a.len() == b.len() && forall|k: int|
            0 <= k < a.len() ==> (#[trigger] a[k]) == b[k] || (65 <= a[k] as u32 <= 90
                && b[k] as u32 == a[k] as u32 + 32) || (65 <= b[k] as u32 <= 90 && a[k] as u32
                == b[k] as u32 + 32),
{
    same_letters_differ_by_case_only(a, b);
}

/// A download ends well, or is about to give the file its final name, only
/// where the checksum of a file was computed, has the length of the published
/// one, and agrees with it at every position but for the case of ASCII letters,
/// whatever happened otherwise.
pub proof fn finished_only_with_matching_checksum(s: State, hs: Seq<(Happening, bool)>)
    requires
        s.stage == Stage::FetchSums,
    ensures
        run(s, hs).stage == Stage::Finished || run(s, hs).stage == Stage::Rename ==> exists|i: int|
            0 <= i < hs.len() && (#[trigger] hs[i]).0 is Hash && hs[i].0->Hash_0 is Ok
                && hs[i].0->Hash_0->Ok_0.len() == run(s, hs).expected.len() && forall|k: int|
                0 <= k < run(s, hs).expected.len() ==> lower_char(hs[i].0->Hash_0->Ok_0[k])
                    == lower_char(#[trigger] run(s, hs).expected[k]),
    decreases hs.len(),
{
    if hs.len() > 0 {
        let front = hs.drop_last();
        finished_only_with_matching_checksum(s, front);
        let before = run(s, front);
        let after = run(s, hs);
        if has_matching_checksum(front, before.expected) && after.expected == before.expected {
            let i = choose|i: int|
                0 <= i < front.len() && (#[trigger] front[i]).0 is Hash && front[i].0->Hash_0 is Ok
                    && front[i].0->Hash_0->Ok_0.len() == before.expected.len() && forall|k: int|
                    0 <= k < before.expected.len() ==> lower_char(front[i].0->Hash_0->Ok_0[k])
                        == lower_char(#[trigger] before.expected[k]);
            assert(hs[i] == front[i]);
        }
        if after.stage == Stage::Finished || after.stage == Stage::Rename {
            assert(after.expected == before.expected);
            if before.stage == Stage::HashDest || before.stage == Stage::HashPartial {
                let last = hs[hs.len() - 1].0;
                assert(last is Hash);
                checksums_agree_character_by_character(last->Hash_0->Ok_0, after.expected);
            }
        }
    }
}

/// A download that ended stays as it ended.
pub proof fn ended_downloads_stay(s: State, h: Happening, cancel: bool)
    requires
        s.stage == Stage::Finished || s.stage == Stage::Failed,
    ensures
        next(s, h, cancel) == s,
        tells(s, next(s, h, cancel)).len() == 0,
{
}

/// A piece that comes after the user cancelled is not written: the partial file
/// goes, and the download fails as cancelled.
pub proof fn cancelled_download_drops_its_file(s: State, piece: Result<u64, Seq<char>>)
    requires
        s.stage == Stage::NextChunk,
    ensures
        ({
            let a = next(s, Happening::Chunk(Some(piece)), true);
            let b = next(a, Happening::Tried, true);
            &&& a.stage == Stage::DropPartial
            &&& b.stage == Stage::Failed
            &&& b.failure == Some(cancelled())
            &&& b.downloaded == s.downloaded
        }),
{
}

/// A file whose checksum has another length than the published one, or differs
/// from it at some position by more than the case of an ASCII letter, is never
/// given its final name: it goes, and the download fails with the mismatch. A
/// file of that kind that was there already is removed and fetched anew.
pub proof fn wrong_file_is_dropped(s: State, x: Seq<char>, cancel: bool)
    requires
        x.len() != s.expected.len() || exists|k: int|
            0 <= k < x.len() && lower_char(#[trigger] x[k]) != lower_char(s.expected[k]),
    ensures
        s.stage == Stage::HashPartial ==> ({
            let a = next(s, Happening::Hash(Ok(x)), cancel);
            let b = next(a, Happening::Tried, cancel);
            &&& a.stage == Stage::DropPartial
            &&& b.stage == Stage::Failed
            &&& b.failure == Some(mismatch(s.filename))
        }),
        s.stage == Stage::HashDest ==> ({
            let a = next(s, Happening::Hash(Ok(x)), cancel);
            &&& a.stage == Stage::RemoveDest
            &&& !cancel ==> next(a, Happening::Tried, cancel).stage == Stage::Connect
        }),
{
    checksums_agree_character_by_character(x, s.expected);
}

/// A file whose checksum agrees with the published one at every position but
/// for the case of ASCII letters is kept: one that was there already ends the
/// download, and one that came is given its final name.
pub proof fn right_file_is_kept(s: State, x: Seq<char>, cancel: bool)
    requires
        x.len() == s.expected.len(),
        forall|k: int|
            0 <= k < x.len() ==> lower_char(#[trigger] x[k]) == lower_char(s.expected[k]),
    ensures
        s.stage == Stage::HashPartial ==> ({
            let a = next(s, Happening::Hash(Ok(x)), cancel);
            let b = next(a, Happening::Outcome(Ok(())), cancel);
            &&& a.stage == Stage::Rename
            &&& b.stage == Stage::Finished
        }),
        s.stage == Stage::HashDest ==> next(s, Happening::Hash(Ok(x)), cancel).stage
            == Stage::Finished,
{
    checksums_agree_character_by_character(x, s.expected);
}

/// A line of the published list that holds a checksum of 64 bytes, white space,
/// any number of asterisks and then the name of the image gives that checksum,
/// whatever white space stands before it and whatever stands behind it after
/// white space. A line that begins with `#` gives none.
pub proof fn checksum_line_is_read(
    before: Seq<char>,
    checksum: Seq<char>,
    gap: Seq<char>,
    stars: Seq<char>,
    filename: Seq<char>,
    behind: Seq<char>,
)
    requires
        is_blank(before),
        is_solid(checksum),
        checksum.len() > 0,
        is_blank(gap),
        gap.len() > 0,
        forall|k: int| 0 <= k < stars.len() ==> #[trigger] stars[k] == '*',
        is_solid(filename),
        filename.len() > 0,
        filename[0] != '*',
        behind.len() == 0 || is_space(behind[0]),
    ensures
        line_checksum(before + checksum + gap + stars + filename + behind, filename) == (
        if checksum[0] != '#' && encode_utf8(checksum).len() == 64 {
            Some(checksum)
        } else {
            None
        }),
{
    let line = before + checksum + gap + stars + filename + behind;
    let name = stars + filename;
    let t = trimmed(line);
    assert(is_solid(name)) by {
        assert forall|k: int| 0 <= k < name.len() implies !is_space(#[trigger] name[k]) by {
            if k < stars.len() {
                assert(name[k] == stars[k]);
            } else {
                assert(name[k] == filename[k - stars.len()]);
            }
        }
    }
    let body = checksum + gap + name;
    let (rest, end) = trailing_space_splits(behind);
    assert(line =~= before + (body + rest) + end);
    let mid = body + rest;
    assert(mid[0] == checksum[0]);
    assert(!is_space(mid.last())) by {
        if rest.len() == 0 {
            assert(mid.last() == filename.last());
            assert(filename.last() == filename[filename.len() - 1]);
        } else {
            assert(mid.last() == rest.last());
        }
    }
    trimming_keeps_what_is_between(before, mid, end);
    let none = Seq::<char>::empty();
    assert(t == mid);
    assert(mid =~= none + checksum + (gap + name + rest));
    assert((gap + name + rest)[0] == gap[0]);
    words_are_the_pieces_between_white_space(none, checksum, gap + name + rest);
    assert(rest.len() == 0 || is_space(rest[0])) by {
        if rest.len() > 0 {
            assert(rest[0] == behind[0]);
        }
    }
    words_are_the_pieces_between_white_space(gap, name, rest);
    let ws = words_of(t);
    assert(ws =~= seq![checksum] + (seq![name] + words_of(rest)));
    assert(word_at(ws, 0) == checksum);
    assert(word_at(ws, 1) == name);
    characters_go_from_one_end(filename, stars, '*');
}

proof fn trailing_space_splits(s: Seq<char>) -> (r: (Seq<char>, Seq<char>))
    ensures
        s == r.0 + r.1,
        is_blank(r.1),
        r.0.len() > 0 ==> !is_space(r.0.last()),
    decreases s.len(),
{
    if s.len() > 0 && is_space(s.last()) {
        let (a, b) = trailing_space_splits(s.drop_last());
        let b1 = b.push(s.last());
        assert forall|k: int| 0 <= k < b1.len() implies is_space(#[trigger] b1[k]) by {
            if k < b.len() {
                assert(b1[k] == b[k]);
            }
        }
        assert(s =~= s.drop_last().push(s.last()));
        assert(s =~= a + b1);
        (a, b1)
    } else {
        assert(s =~= s + Seq::<char>::empty());
        (s, Seq::empty())
    }
}

/// A checksum that a line gives is its first word, has 64 bytes and does not
/// begin with `#`, and the second word of the line is the name of the image with
/// asterisks or nothing before it.
pub proof fn checksum_comes_from_its_line(line: Seq<char>, filename: Seq<char>)
    requires
        line_checksum(line, filename) is Some,
        filename.len() > 0,
    ensures
        ({
            let h = line_checksum(line, filename)->Some_0;
            &&& encode_utf8(h).len() == 64
            &&& h.len() > 0 && h[0] != '#'
            &&& is_solid(h)
            &&& exists|a: Seq<char>, gap: Seq<char>, stars: Seq<char>, b: Seq<char>|
                is_blank(a) && is_blank(gap) && gap.len() > 0 && (forall|k: int|
                    0 <= k < stars.len() ==> #[trigger] stars[k] == '*') && (b.len() == 0
                    || is_space(b[0])) && line == #[trigger] (a + h + gap + stars + filename + b)
        }),
{
    let t = trimmed(line);
    let ws = words_of(t);
    let h = word_at(ws, 0);
    reveal_strlit("");
    trimming_takes_white_space_only(line);
    let (a, z) = choose|a: Seq<char>, z: Seq<char>|
        is_blank(a) && is_blank(z) && line == #[trigger] (a + t + z);
    first_word_stands_first(t);
    let second = word_at(ws, 1);
    assert(second.len() > 0) by {
        if second.len() == 0 {
            assert(trim_start_char(second, '*') == second);
        }
    }
    let (a1, b1) = choose|a1: Seq<char>, b1: Seq<char>|
        is_blank(a1) && (b1.len() == 0 || is_space(b1[0])) && t == #[trigger] (a1 + ws[0] + b1) && ws
            == seq![ws[0]] + words_of(b1);
    assert(a1.len() == 0) by {
        if a1.len() > 0 {
            assert(t[0] == a1[0]);
        }
    }
    assert(t[0] == h[0]);
    first_word_stands_first(b1);
    assert(ws[1] == words_of(b1)[0]);
    let (gap, b2) = choose|a2: Seq<char>, b2: Seq<char>|
        is_blank(a2) && (b2.len() == 0 || is_space(b2[0])) && b1 == #[trigger] (a2 + words_of(b1)[0]
            + b2) && words_of(b1) == seq![words_of(b1)[0]] + words_of(b2);
    assert(gap.len() > 0) by {
        if gap.len() == 0 {
            assert(b1[0] == second[0]);
        }
    }
    leading_characters_split(second, '*');
    let stars = choose|stars: Seq<char>|
        (forall|k: int| 0 <= k < stars.len() ==> #[trigger] stars[k] == '*') && second
            == #[trigger] (stars + filename);
    let b = b2 + z;
    assert(b.len() == 0 || is_space(b[0])) by {
        if b2.len() > 0 {
            assert(b[0] == b2[0]);
        } else if z.len() > 0 {
            assert(b[0] == z[0]);
        }
    }
    assert(line =~= a + h + gap + stars + filename + b);
}

proof fn leading_characters_split(s: Seq<char>, c: char)
    ensures
        exists|run: Seq<char>|
            (forall|k: int| 0 <= k < run.len() ==> #[trigger] run[k] == c) && s == #[trigger] (run
                + trim_start_char(s, c)),
    decreases s.len(),
{
    if s.len() > 0 && s[0] == c {
        leading_characters_split(s.skip(1), c);
        let run = choose|run: Seq<char>|
            (forall|k: int| 0 <= k < run.len() ==> #[trigger] run[k] == c) && s.skip(1)
                == #[trigger] (run + trim_start_char(s.skip(1), c));
        let more = seq![c] + run;
        assert forall|k: int| 0 <= k < more.len() implies #[trigger] more[k] == c by {
            if k > 0 {
                assert(more[k] == run[k - 1]);
            }
        }
        assert(s =~= seq![c] + s.skip(1));
        assert(s =~= more + trim_start_char(s, c));
    } else {
        assert(s =~= Seq::<char>::empty() + trim_start_char(s, c));
    }
}

/// The checksum of an image is that of the first line that gives one for it, and
/// there is none exactly where no line does.
pub proof fn first_listed_checksum_counts(ls: Seq<Seq<char>>, filename: Seq<char>)
    ensures
        match listed_checksum(ls, filename) {
            Some(h) => exists|i: int|
                0 <= i < ls.len() && line_checksum(#[trigger] ls[i], filename) == Some(h)
                    && forall|j: int|
                    0 <= j < i ==> line_checksum(#[trigger] ls[j], filename) is None,
            None => forall|i: int|
                0 <= i < ls.len() ==> line_checksum(#[trigger] ls[i], filename) is None,
        },
    decreases ls.len(),
{
    if ls.len() > 0 && line_checksum(ls[0], filename) is None {
        let rest = ls.skip(1);
        first_listed_checksum_counts(rest, filename);
        match listed_checksum(rest, filename) {
            Some(h) => {
                let i = choose|i: int|
                    0 <= i < rest.len() && line_checksum(#[trigger] rest[i], filename) == Some(h)
                        && forall|j: int|
                        0 <= j < i ==> line_checksum(#[trigger] rest[j], filename) is None;
                assert(ls[i + 1] == rest[i]);
                assert forall|j: int| 0 <= j < i + 1 implies line_checksum(
                    #[trigger] ls[j],
                    filename,
                ) is None by {
                    if j > 0 {
                        assert(ls[j] == rest[j - 1]);
                    }
                }
            },
            None => {
                assert forall|i: int| 0 <= i < ls.len() implies line_checksum(
                    #[trigger] ls[i],
                    filename,
                ) is None by {
                    if i > 0 {
                        assert(ls[i] == rest[i - 1]);
                    }
                }
            },
        }
    }
}

/// The checksum that is held against the files is always one that a line of the
/// published list gives for the image, in small letters: a download that got
/// beyond the list has read such a list.
pub proof fn expected_checksum_was_published(s: State, hs: Seq<(Happening, bool)>)
    requires
        s.stage == Stage::FetchSums,
    ensures
        run(s, hs).filename == s.filename,
        run(s, hs).dest == s.dest,
        run(s, hs).stage != Stage::FetchSums && run(s, hs).stage != Stage::Failed ==> exists|i: int|
            0 <= i < hs.len() && (#[trigger] hs[i]).0 is Sums && hs[i].0->Sums_0 is Ok
                && listed_checksum(lines_of(hs[i].0->Sums_0->Ok_0), s.filename) is Some
                && run(s, hs).expected == lowercased(
                listed_checksum(lines_of(hs[i].0->Sums_0->Ok_0), s.filename)->Some_0,
            ),
    decreases hs.len(),
{
    if hs.len() > 0 {
        let front = hs.drop_last();
        expected_checksum_was_published(s, front);
        let before = run(s, front);
        if before.stage == Stage::FetchSums {
            assert(hs[hs.len() - 1] == hs.last());
        } else if before.stage != Stage::Failed {
            let i = choose|i: int|
                0 <= i < front.len() && (#[trigger] front[i]).0 is Sums && front[i].0->Sums_0 is Ok
                    && listed_checksum(lines_of(front[i].0->Sums_0->Ok_0), s.filename) is Some
                    && before.expected == lowercased(
                    listed_checksum(lines_of(front[i].0->Sums_0->Ok_0), s.filename)->Some_0,
                );
            assert(hs[i] == front[i]);
        }
    }
}

proof fn catalogue_addresses_are_these()
    ensures
        ISO_BASE@ + "/"@ + "Pardus-25.2-XFCE-amd64.iso"@
            == "https://indir.pardus.org.tr/ISO/Pardus25/Pardus-25.2-XFCE-amd64.iso"@,
        ISO_BASE@ + "/"@ + "Pardus-25.2-GNOME-amd64.iso"@
            == "https://indir.pardus.org.tr/ISO/Pardus25/Pardus-25.2-GNOME-amd64.iso"@,
{
    reveal_strlit("https://indir.pardus.org.tr/ISO/Pardus25");
    reveal_strlit("/");
    reveal_strlit("Pardus-25.2-XFCE-amd64.iso");
    reveal_strlit("Pardus-25.2-GNOME-amd64.iso");
    reveal_strlit("https://indir.pardus.org.tr/ISO/Pardus25/Pardus-25.2-XFCE-amd64.iso");
    reveal_strlit("https://indir.pardus.org.tr/ISO/Pardus25/Pardus-25.2-GNOME-amd64.iso");
    assert(ISO_BASE@ + "/"@ + "Pardus-25.2-XFCE-amd64.iso"@
        =~= "https://indir.pardus.org.tr/ISO/Pardus25/Pardus-25.2-XFCE-amd64.iso"@);
    assert(ISO_BASE@ + "/"@ + "Pardus-25.2-GNOME-amd64.iso"@
        =~= "https://indir.pardus.org.tr/ISO/Pardus25/Pardus-25.2-GNOME-amd64.iso"@);
}

/// The published checksums lie beside the images, under the same address.
pub proof fn checksums_lie_beside_the_images()
    ensures
        SHA256SUMS_URL@ == ISO_BASE@ + "/SHA256SUMS"@,
{
    reveal_strlit("https://indir.pardus.org.tr/ISO/Pardus25");
    reveal_strlit("/SHA256SUMS");
    reveal_strlit("https://indir.pardus.org.tr/ISO/Pardus25/SHA256SUMS");
    assert(SHA256SUMS_URL@ =~= ISO_BASE@ + "/SHA256SUMS"@);
}

/// A piece that was written is counted in full. The client is told of it exactly
/// where 8388608 bytes or more came since the last time, or where the image is
/// complete; so fewer than 8388608 bytes are ever untold, and what is told is
/// the number of whole mebibytes.
pub proof fn client_hears_of_every_eight_mebibytes(s: State, cancel: bool)
    requires
        s.stage == Stage::Write,
        is_sound(s),
    ensures
        ({
            let t = next(s, Happening::Outcome(Ok(())), cancel);
            &&& t.downloaded == s.downloaded + s.chunk
            &&& t.stage == Stage::NextChunk
            &&& t.downloaded - t.last_emit < 8388608
            &&& tells(s, t).len() <= 1
            &&& tells(s, t).len() == 1 <==> t.downloaded - s.last_emit >= 8388608 || (s.total > 0
                && t.downloaded == s.total)
            &&& tells(s, t).len() == 1 ==> t.last_emit == t.downloaded && tells(s, t)[0].2 * 1048576
                <= t.downloaded && t.downloaded < (tells(s, t)[0].2 + 1) * 1048576
                && tells(s, t)[0].3 * 1048576 <= s.total && s.total < (tells(s, t)[0].3 + 1)
                * 1048576 && tells(s, t)[0].4 == s.dest && tells(s, t)[0].0 == "downloading"@
                && tells(s, t)[0].1 is None
            &&& tells(s, t).len() == 0 ==> t.last_emit == s.last_emit
        }),
{
}

/// The sizes of the pieces that were written, added up: those whose writing was
/// reported as good.
pub open spec fn written_bytes(s: State, hs: Seq<(Happening, bool)>) -> int
    decreases hs.len(),
{
    if hs.len() == 0 {
        0
    } else {
        let before = run(s, hs.drop_last());
        written_bytes(s, hs.drop_last()) + (if before.stage == Stage::Write && hs.last().0 is Outcome
            && hs.last().0->Outcome_0 is Ok {
            before.chunk as int
        } else {
            0
        })
    }
}

/// A download counts exactly the bytes that were written to the partial file, as
/// long as they can be counted.
pub proof fn written_bytes_are_counted(s: State, hs: Seq<(Happening, bool)>)
    requires
        s.downloaded == 0,
        forall|i: int|
            0 <= i <= hs.len() ==> (#[trigger] written_bytes(s, hs.take(i))) <= u64::MAX,
    ensures
        run(s, hs).downloaded == written_bytes(s, hs),
    decreases hs.len(),
{
    assert(hs.take(hs.len() as int) =~= hs);
    assert(written_bytes(s, hs.take(hs.len() as int)) <= u64::MAX);
    if hs.len() > 0 {
        let front = hs.drop_last();
        assert forall|i: int| 0 <= i <= front.len() implies (#[trigger] written_bytes(
            s,
            front.take(i),
        )) <= u64::MAX by {
            assert(front.take(i) =~= hs.take(i));
            assert(written_bytes(s, hs.take(i)) <= u64::MAX);
        }
        written_bytes_are_counted(s, front);
    }
}

/// A file is given its final name only from the stage at which its checksum is
/// held against the published one, its checksum is computed only after it was
/// flushed, and nothing is asked for or written once the user cancelled.
pub proof fn checked_steps_come_in_order(s: State, h: Happening, cancel: bool)
    ensures
        next(s, h, cancel).stage == Stage::HashPartial && s.stage != Stage::HashPartial ==> s.stage
            == Stage::Flush,
        next(s, h, cancel).stage == Stage::Rename && s.stage != Stage::Rename ==> s.stage
            == Stage::HashPartial,
        next(s, h, cancel).stage == Stage::Finished && s.stage != Stage::Finished ==> s.stage
            == Stage::Rename || s.stage == Stage::HashDest,
        next(s, h, cancel).stage == Stage::Connect && s.stage != Stage::Connect ==> !cancel,
        next(s, h, cancel).stage == Stage::Write && s.stage != Stage::Write ==> !cancel,
{
}

/// The directory for downloads lies in the home directory, two names below it,
/// wherever the home directory is: what is said of joining a name to a directory
/// gives its path.
pub proof fn downloads_lie_below_the_home_directory(home: Seq<char>)
    requires
        home.len() > 0,
        home.last() != '\\' && home.last() != '/' && home.last() != ':',
        !(home.len() >= 3 && home[0] == '\\' && home[1] == '\\' && home[2] == '?'),
    ensures
        in_dir(in_dir(home, "Downloads"@), "ParKur"@) == home + "\\Downloads\\ParKur"@,
{
    reveal_strlit("Downloads");
    reveal_strlit("ParKur");
    reveal_strlit("\\Downloads\\ParKur");
    let d = home + seq!['\\'] + "Downloads"@;
    names_are_joined_by_one_backslash(home, "Downloads"@);
    assert(!(d[0] == '\\' && d[1] == '\\' && d[2] == '?')) by {
        if home.len() < 3 {
            assert(d[home.len() as int] == '\\');
            assert(d[home.len() as int + 1] == 'D');
        }
    }
    assert(d.last() == 's');
    names_are_joined_by_one_backslash(d, "ParKur"@);
    assert(d + seq!['\\'] + "ParKur"@ =~= home + "\\Downloads\\ParKur"@);
}

/// A download reads the published checksums, looks for the image, asks for it,
/// writes it piece by piece to a partial file, flushes that file, computes its
/// checksum and gives it its final name, one step behind the other. An image
/// that is there already is checked before anything is asked for.
pub proof fn download_takes_its_steps_in_turn(s: State, cancel: bool)
    ensures
        s.stage == Stage::LookForDest ==> next(s, Happening::Found(true), cancel).stage
            == Stage::HashDest,
        s.stage == Stage::LookForDest && !cancel ==> next(s, Happening::Found(false), cancel).stage
            == Stage::Connect,
        s.stage == Stage::RemoveDest && !cancel ==> next(s, Happening::Tried, cancel).stage
            == Stage::Connect,
        s.stage == Stage::LookForDest && cancel ==> next(s, Happening::Found(false), cancel)
            == failing(s, cancelled()),
        s.stage == Stage::RemoveDest && cancel ==> next(s, Happening::Tried, cancel) == failing(
            s,
            cancelled(),
        ),
        s.stage == Stage::Create ==> next(s, Happening::Outcome(Ok(())), cancel).stage
            == Stage::NextChunk,
        s.stage == Stage::NextChunk ==> next(s, Happening::Chunk(None), cancel).stage
            == Stage::Flush,
        s.stage == Stage::Flush ==> next(s, Happening::Outcome(Ok(())), cancel).stage
            == Stage::HashPartial,
        s.stage == Stage::Rename ==> next(s, Happening::Outcome(Ok(())), cancel).stage
            == Stage::Finished,
        forall|n: u64|
            s.stage == Stage::Connect ==> (#[trigger] next(
                s,
                Happening::Connected(Ok(n)),
                cancel,
            )).stage == Stage::Create && next(s, Happening::Connected(Ok(n)), cancel).total == n,
        forall|n: u64|
            s.stage == Stage::NextChunk && !cancel ==> (#[trigger] next(
                s,
                Happening::Chunk(Some(Ok(n))),
                cancel,
            )).stage == Stage::Write && next(s, Happening::Chunk(Some(Ok(n))), cancel).chunk == n,
{
}

/// An error ends a download at once, with that error: one that a step reports,
/// and one of the connection under its own code with its text as the detail.
pub proof fn errors_end_a_download(
    s: State,
    e: (ErrorKind, Seq<char>),
    text: Seq<char>,
    cancel: bool,
)
    ensures
        s.stage == Stage::FetchSums || s.stage == Stage::Connect || s.stage == Stage::Create || s.stage
            == Stage::Write || s.stage == Stage::Flush || s.stage == Stage::Rename ==> next(
            s,
            Happening::Outcome(Err(e)),
            cancel,
        ).stage == Stage::Failed && next(s, Happening::Outcome(Err(e)), cancel).failure == Some(e),
        s.stage == Stage::HashDest || s.stage == Stage::HashPartial ==> next(
            s,
            Happening::Hash(Err(e)),
            cancel,
        ).stage == Stage::Failed && next(s, Happening::Hash(Err(e)), cancel).failure == Some(e),
        s.stage == Stage::Connect ==> next(s, Happening::Connected(Err(text)), cancel).stage
            == Stage::Failed && next(s, Happening::Connected(Err(text)), cancel).failure == Some(
            (ErrorKind::Network, "ERR_ISO_DOWNLOAD_FAILED"@ + "|detail="@ + text),
        ),
        s.stage == Stage::NextChunk && !cancel ==> next(
            s,
            Happening::Chunk(Some(Err(text))),
            cancel,
        ).stage == Stage::Failed && next(s, Happening::Chunk(Some(Err(text))), cancel).failure
            == Some((ErrorKind::Network, "ERR_ISO_DOWNLOAD_FAILED"@ + "|detail="@ + text)),
        s.stage == Stage::FetchSums ==> next(s, Happening::Sums(Err(text)), cancel).stage
            == Stage::Failed && next(s, Happening::Sums(Err(text)), cancel).failure == Some(
            (ErrorKind::Network, "ERR_ISO_CHECKSUM_FETCH"@ + "|detail="@ + text),
        ),
        cancelled() == (ErrorKind::Network, "ERR_ISO_DOWNLOAD_CANCELLED"@),
        mismatch(s.filename) == (
            ErrorKind::Network,
            "ERR_ISO_CHECKSUM_MISMATCH"@ + "|file="@ + s.filename,
        ),
{
    reveal_strlit("|detail=");
    reveal_strlit("detail");
    reveal_strlit("|file=");
    reveal_strlit("file");
    message_is_written_piece_by_piece("ERR_ISO_DOWNLOAD_FAILED"@, Seq::empty(), "detail"@, text);
    message_is_written_piece_by_piece("ERR_ISO_CHECKSUM_FETCH"@, Seq::empty(), "detail"@, text);
    message_is_written_piece_by_piece(
        "ERR_ISO_CHECKSUM_MISMATCH"@,
        Seq::empty(),
        "file"@,
        s.filename,
    );
    message_is_written_piece_by_piece("ERR_ISO_DOWNLOAD_CANCELLED"@, Seq::empty(), "file"@, text);
    assert(download_failed(text).1 =~= "ERR_ISO_DOWNLOAD_FAILED"@ + "|detail="@ + text);
    assert(encoded("ERR_ISO_CHECKSUM_FETCH"@, seq![("detail"@, text)])
        =~= "ERR_ISO_CHECKSUM_FETCH"@ + "|detail="@ + text);
    assert(mismatch(s.filename).1 =~= "ERR_ISO_CHECKSUM_MISMATCH"@ + "|file="@ + s.filename);
}

/// The client is told that a file is verified when its checksum is about to be
/// computed, and that the download is done, at 100 percent, exactly when it
/// becomes finished.
pub proof fn client_hears_of_the_end(s: State, h: Happening, cancel: bool)
    ensures
        ({
            let t = next(s, h, cancel);
            let told = tells(s, t);
            &&& told.len() <= 1
            &&& t.stage == Stage::Finished && s.stage != Stage::Finished <==> told.len() == 1
                && told[0].0 == "done"@
            &&& told.len() == 1 && told[0].0 == "done"@ ==> told[0].1 == Some(100u32) && told[0].4
                == s.dest
            &&& (t.stage == Stage::HashDest && s.stage != Stage::HashDest) || (t.stage
                == Stage::HashPartial && s.stage != Stage::HashPartial) <==> told.len() == 1
                && told[0].0 == "verifying"@
            &&& told.len() == 1 && told[0].0 == "verifying"@ ==> told[0].1 == (if t.stage
                == Stage::HashDest {
                Some(0u32)
            } else {
                Some(99u32)
            }) && told[0].4 == s.dest
            &&& s.stage == Stage::Flush || s.stage == Stage::Rename ==> told.len() == 0 || (
            told[0].2 * 1048576 <= s.downloaded < (told[0].2 + 1) * 1048576 && told[0].3 * 1048576
                <= s.total < (told[0].3 + 1) * 1048576)
            &&& s.stage == Stage::LookForDest || s.stage == Stage::HashDest ==> told.len() == 0 || (
            told[0].2 == 0 && told[0].3 == 0)
        }),
{
    reveal_strlit("done");
    reveal_strlit("verifying");
    reveal_strlit("downloading");
    assert("done"@.len() != "verifying"@.len());
    assert("downloading"@.len() != "done"@.len());
    assert("downloading"@.len() != "verifying"@.len());
}

/// What is seen of an event, of a download and of what the client is told is
/// what stands in it.
pub proof fn downloads_are_seen_as_they_are(
    p: DownloadProgressPayload,
    d: Download,
    t: String,
    n: u64,
    b: bool,
    e: InstallerError,
)
    ensures
        p@ == (p.phase@, p.percent, p.downloaded_mb, p.total_mb, p.path@),
        d@.stage == d.stage && d@.filename == d.filename@ && d@.dest == d.dest@ && d@.expected
            == d.expected@ && d@.total == d.total && d@.downloaded == d.downloaded && d@.last_emit
            == d.last_emit && d@.chunk == d.chunk,
        d.failure is None <==> d@.failure is None,
        d.failure matches Some(e) ==> d@.failure == Some(e@),
        Event::Sums(Ok(t))@ == Happening::Sums(Ok(t@)),
        Event::Sums(Err(t))@ == Happening::Sums(Err(t@)),
        Event::Found(b)@ == Happening::Found(b),
        Event::Hash(Ok(t))@ == Happening::Hash(Ok(t@)),
        Event::Hash(Err(e))@ == Happening::Hash(Err(e@)),
        Event::Tried@ == Happening::Tried,
        Event::Connected(Ok(n))@ == Happening::Connected(Ok(n)),
        Event::Connected(Err(t))@ == Happening::Connected(Err(t@)),
        Event::Chunk(None)@ == Happening::Chunk(None),
        Event::Chunk(Some(Ok(n)))@ == Happening::Chunk(Some(Ok(n))),
        Event::Chunk(Some(Err(t)))@ == Happening::Chunk(Some(Err(t@))),
        Event::Outcome(Ok(()))@ == Happening::Outcome(Ok(())),
        Event::Outcome(Err(e))@ == Happening::Outcome(Err(e@)),
{
}

} // verus!
