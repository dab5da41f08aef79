use parkur::download_ops::{
    download_dir, fetch_expected_sha256, find_catalog_entry, iso_catalog, published_checksum,
    Download, DownloadGate, DownloadProgressPayload, Event, FileChecksum, Stage, EMIT_BYTES,
    SHA256SUMS_URL,
};
use parkur::error::{ErrorKind, InstallerError};

fn failure<T>(r: Result<T, InstallerError>) -> (ErrorKind, String) {
    match r {
        Ok(_) => panic!("an error was expected"),
        Err(e) => (e.kind(), e.message().clone()),
    }
}

const ABC: &str = "ba7816bf8f01cfea414140de5dae2223b00361a396177a9cb410ff61f20015ad";

#[test]
fn catalogue_holds_two_editions() {
    let c = iso_catalog();
    assert_eq!(c.len(), 2);
    assert_eq!(c[0].id, "pardus-25.2-xfce");
    assert_eq!(
        c[1].url,
        "https://indir.pardus.org.tr/ISO/Pardus25/Pardus-25.2-GNOME-amd64.iso"
    );
    assert_eq!(c[1].size_hint_gb, 3);
    assert_eq!(find_catalog_entry("pardus-25.2-gnome").unwrap().desktop, "GNOME");
    assert_eq!(find_catalog_entry("pardus-25.2-xfce").unwrap().version, "25.2");
    assert_eq!(
        failure(find_catalog_entry("x")),
        (ErrorKind::InvalidInput, "ERR_ISO_UNKNOWN_ID|id=x".to_string())
    );
    assert!(SHA256SUMS_URL.ends_with("/SHA256SUMS"));
}

#[test]
fn downloads_go_to_the_home_directory() {
    assert_eq!(
        download_dir(Some("C:\\Users\\a".to_string())).unwrap(),
        "C:\\Users\\a\\Downloads\\ParKur"
    );
    for (home, want) in [
        ("C:\\Users\\", "C:\\Users\\Downloads\\ParKur"),
        ("C:/Users/", "C:/Users/Downloads\\ParKur"),
        ("C:", "C:Downloads\\ParKur"),
        ("C:\\", "C:\\Downloads\\ParKur"),
        ("", "Downloads\\ParKur"),
        ("CC:", "CC:\\Downloads\\ParKur"),
        ("\\\\?\\C:", "\\\\?\\C:\\Downloads\\ParKur"),
        ("\\\\?\\C:\\a\\\\b\\", "\\\\?\\C:\\a\\b\\Downloads\\ParKur"),
    ] {
        assert_eq!(download_dir(Some(home.to_string())).unwrap(), want);
    }
    assert_eq!(
        failure(download_dir(None)),
        (ErrorKind::Io, "ERR_ISO_DOWNLOAD_DIR".to_string())
    );
}

#[test]
fn checksum_of_known_bytes() {
    let mut c = FileChecksum::new();
    c.update(b"a");
    c.update(b"");
    c.update(b"bc");
    assert_eq!(c.finish(), ABC);
    assert_eq!(
        FileChecksum::new().finish(),
        "e3b0c44298fc1c149afbf4c8996fb92427ae41e4649b934ca495991b7852b855"
    );
}

#[test]
fn published_checksums_are_read() {
    let up = ABC.to_uppercase();
    let text = format!(
        "# {ABC} a.iso\n\n{ABC}  other.iso\nshort a.iso\n  {up} **a.iso extra\r\n{ABC} a.iso\n"
    );
    assert_eq!(published_checksum(&text, "a.iso"), Some(up));
    assert_eq!(fetch_expected_sha256("a.iso", Ok(text.clone())).unwrap(), ABC);
    assert_eq!(
        failure(fetch_expected_sha256("b.iso", Ok(text))),
        (ErrorKind::Network, "ERR_ISO_CHECKSUM_MISSING|file=b.iso".to_string())
    );
    assert_eq!(
        failure(fetch_expected_sha256("b.iso", Err("404".to_string()))),
        (ErrorKind::Network, "ERR_ISO_CHECKSUM_FETCH|detail=404".to_string())
    );
}

#[test]
fn one_download_at_a_time() {
    let mut g = DownloadGate::new();
    g.request_cancel_download();
    assert!(g.download_iso().is_ok());
    assert!(!g.cancel);
    assert_eq!(
        failure(g.download_iso()),
        (ErrorKind::InvalidInput, "ERR_ISO_DOWNLOAD_BUSY".to_string())
    );
    g.request_cancel_download();
    assert!(g.cancel && g.busy);
    g.end();
    assert!(g.download_iso().is_ok());
}

fn sums() -> Event {
    Event::Sums(Ok(format!("{ABC} a.iso")))
}

fn begin() -> Download {
    let (d, p) = Download::download_iso_inner("a.iso".to_string(), "C:\\a.iso".to_string());
    assert_eq!(shown(&p), vec!["preparing Some(0) 0/0 C:\\a.iso"]);
    d
}

fn shown(ps: &[DownloadProgressPayload]) -> Vec<String> {
    ps.iter()
        .map(|p| {
            format!("{} {:?} {}/{} {}", p.phase, p.percent, p.downloaded_mb, p.total_mb, p.path)
        })
        .collect()
}

fn ok() -> Event {
    Event::Outcome(Ok(()))
}

fn broken() -> InstallerError {
    InstallerError::Io("broken".to_string())
}

/// A download that waits for pieces.
fn running(total: u64) -> Download {
    let mut d = begin();
    for e in [sums(), Event::Found(false), Event::Connected(Ok(total)), ok()] {
        assert!(d.step(e, false).is_empty());
    }
    assert_eq!(d.stage, Stage::NextChunk);
    d
}

fn ended(d: Download) -> Result<String, InstallerError> {
    d.outcome().expect("the download is over")
}

#[test]
fn download_runs_to_its_end() {
    let total = 2 * EMIT_BYTES;
    let mut d = running(total);
    let mut log = Vec::new();
    for _ in 0..4 {
        log.extend(shown(&d.step(Event::Chunk(Some(Ok(EMIT_BYTES / 2))), false)));
        log.extend(shown(&d.step(ok(), false)));
    }
    for e in [Event::Chunk(None), ok(), Event::Hash(Ok(ABC.to_uppercase())), ok()] {
        log.extend(shown(&d.step(e, false)));
    }
    assert_eq!(
        log,
        vec![
            "downloading None 8/16 C:\\a.iso",
            "downloading None 16/16 C:\\a.iso",
            "verifying Some(99) 16/16 C:\\a.iso",
            "done Some(100) 16/16 C:\\a.iso",
        ]
    );
    assert_eq!(ended(d).unwrap(), "C:\\a.iso");
}

#[test]
fn last_piece_is_always_told() {
    let mut d = running(5);
    d.step(Event::Chunk(Some(Ok(5))), false);
    assert_eq!(shown(&d.step(ok(), false)), vec!["downloading None 0/0 C:\\a.iso"]);
    assert_eq!(d.last_emit, 5);
    let mut d = running(0);
    d.step(Event::Chunk(Some(Ok(5))), false);
    assert!(d.step(ok(), false).is_empty());
}

#[test]
fn image_that_is_there_is_kept_if_it_matches() {
    let mut d = begin();
    d.step(sums(), false);
    assert_eq!(shown(&d.step(Event::Found(true), false)), vec!["verifying Some(0) 0/0 C:\\a.iso"]);
    assert_eq!(
        shown(&d.step(Event::Hash(Ok(ABC.to_string())), false)),
        vec!["done Some(100) 0/0 C:\\a.iso"]
    );
    assert_eq!(ended(d).unwrap(), "C:\\a.iso");
    let mut d = begin();
    for e in [sums(), Event::Found(true), Event::Hash(Ok("00".to_string()))] {
        d.step(e, false);
    }
    assert_eq!(d.stage, Stage::RemoveDest);
    d.step(Event::Tried, false);
    assert_eq!(d.stage, Stage::Connect);
}

#[test]
fn download_can_be_cancelled() {
    let cancelled = (ErrorKind::Network, "ERR_ISO_DOWNLOAD_CANCELLED".to_string());
    let mut d = begin();
    d.step(sums(), true);
    d.step(Event::Found(false), true);
    assert_eq!(failure(ended(d)), cancelled);
    let mut d = running(9);
    d.step(Event::Chunk(Some(Ok(4))), true);
    assert_eq!(d.stage, Stage::DropPartial);
    d.step(Event::Tried, true);
    assert_eq!(failure(ended(d)), cancelled);
    let mut d = running(9);
    d.step(Event::Chunk(None), true);
    assert_eq!(d.stage, Stage::Flush);
}

#[test]
fn wrong_checksum_drops_the_file() {
    let mut d = running(0);
    for e in [Event::Chunk(None), ok(), Event::Hash(Ok("00".to_string()))] {
        d.step(e, false);
    }
    assert_eq!(d.stage, Stage::DropPartial);
    d.step(Event::Tried, false);
    assert_eq!(
        failure(ended(d)),
        (ErrorKind::Network, "ERR_ISO_CHECKSUM_MISMATCH|file=a.iso".to_string())
    );
}

#[test]
fn downloads_fail_with_their_errors() {
    let failed = (ErrorKind::Network, "ERR_ISO_DOWNLOAD_FAILED|detail=reset".to_string());
    let mut d = begin();
    d.step(Event::Sums(Err("dns".to_string())), false);
    assert_eq!(failure(ended(d)).1, "ERR_ISO_CHECKSUM_FETCH|detail=dns");
    let mut d = begin();
    d.step(sums(), false);
    d.step(Event::Found(false), false);
    d.step(Event::Connected(Err("reset".to_string())), false);
    assert_eq!(failure(ended(d)), failed);
    let mut d = running(1);
    d.step(Event::Chunk(Some(Err("reset".to_string()))), false);
    assert_eq!(failure(ended(d)), failed);
    let mut d = running(1);
    d.step(Event::Chunk(Some(Ok(1))), false);
    d.step(Event::Outcome(Err(broken())), false);
    assert_eq!(failure(ended(d)).1, "broken");
    let mut d = running(1);
    d.step(Event::Chunk(None), false);
    d.step(ok(), false);
    d.step(Event::Hash(Err(broken())), false);
    assert_eq!(failure(ended(d)).1, "broken");
}

#[test]
fn other_events_change_nothing() {
    let mut d = begin();
    d.step(Event::Tried, true);
    assert_eq!(d.stage, Stage::FetchSums);
    assert!(d.outcome().is_none());
    let mut d = begin();
    d.step(Event::Outcome(Err(broken())), false);
    assert_eq!(d.stage, Stage::Failed);
    assert!(d.step(sums(), false).is_empty());
    assert_eq!(failure(ended(d)).1, "broken");
}
