use curlio::download::{filled_width, Download, DownloadStep, StreamEvent, BAR_WIDTH, CHUNK_SIZE};
use curlio::error::{IoError, IoStage};

fn bar(filled: usize) -> String {
    format!("{}{}", "#".repeat(filled), " ".repeat(50 - filled))
}

#[test]
fn constants() {
    assert_eq!(CHUNK_SIZE, 8192);
    assert_eq!(BAR_WIDTH, 50);
}

#[test]
fn counter_is_monotone_and_ends_at_total() {
    let chunks = [8192usize, 8192, 8192, 100, 1, 8192, 3211];
    let total: u64 = chunks.iter().map(|c| *c as u64).sum();
    let mut download = Download::begin(Some(total));
    assert_eq!(download.banner(), format!("Starting download of {} bytes...", total));
    let mut last = 0u64;
    for chunk in chunks {
        match download.step(StreamEvent::Read(chunk)) {
            DownloadStep::Write { len, progress } => {
                assert_eq!(len, chunk);
                assert!(progress.is_some());
            }
            other => panic!("unexpected step {:?}", other),
        }
        assert!(download.downloaded >= last);
        assert_eq!(download.downloaded, last + chunk as u64);
        last = download.downloaded;
    }
    assert_eq!(download.step(StreamEvent::Read(0)), DownloadStep::Finished);
    assert_eq!(download.downloaded, total);
    assert_eq!(
        download.progress(),
        Some(format!("\rProgress: [{}] 100.00% ({}/{})", bar(50), total, total))
    );
    assert_eq!(Download::completion_message(), "\nDownload completed successfully");
}

#[test]
fn progress_line_is_exact() {
    let mut download = Download::begin(Some(8192));
    match download.step(StreamEvent::Read(4096)) {
        DownloadStep::Write { len, progress } => {
            assert_eq!(len, 4096);
            assert_eq!(
                progress,
                Some(format!("\rProgress: [{}] 50.00% (4096/8192)", bar(25)))
            );
        }
        _ => panic!("a write was expected"),
    }
    let third = Download { total: Some(3), downloaded: 1 };
    assert_eq!(third.progress(), Some(format!("\rProgress: [{}] 33.33% (1/3)", bar(16))));
    let two_thirds = Download { total: Some(3), downloaded: 2 };
    assert_eq!(two_thirds.progress(), Some(format!("\rProgress: [{}] 66.66% (2/3)", bar(33))));
    let small = Download { total: Some(1000), downloaded: 7 };
    assert_eq!(small.progress(), Some(format!("\rProgress: [{}] 0.70% (7/1000)", bar(0))));
    let start = Download { total: Some(1000), downloaded: 0 };
    assert_eq!(start.progress(), Some(format!("\rProgress: [{}] 0.00% (0/1000)", bar(0))));
    let tiny = Download { total: Some(10000), downloaded: 905 };
    assert_eq!(tiny.progress(), Some(format!("\rProgress: [{}] 9.05% (905/10000)", bar(4))));
}

#[test]
fn bar_never_overflows() {
    assert_eq!(filled_width(0, 10), 0);
    assert_eq!(filled_width(1, 50), 1);
    assert_eq!(filled_width(49, 50), 49);
    assert_eq!(filled_width(99, 100), 49);
    assert_eq!(filled_width(10, 10), 50);
    assert_eq!(filled_width(11, 10), 50);
    assert_eq!(filled_width(u64::MAX, 1), 50);
    assert_eq!(filled_width(u64::MAX, u64::MAX), 50);
    assert_eq!(filled_width(u64::MAX - 1, u64::MAX), 49);
    let over = Download { total: Some(10), downloaded: 25 };
    assert_eq!(over.progress(), Some(format!("\rProgress: [{}] 250.00% (25/10)", bar(50))));
    let huge = Download { total: Some(1), downloaded: u64::MAX };
    assert_eq!(
        huge.progress(),
        Some(format!(
            "\rProgress: [{}] 1844674407370955161500.00% (18446744073709551615/1)",
            bar(50)
        ))
    );
}

#[test]
fn unknown_size_shows_no_bar() {
    for total in [None, Some(0)] {
        let mut download = Download::begin(total);
        assert_eq!(download.banner(), "Starting download of 0 bytes...");
        assert_eq!(download.progress(), None);
        match download.step(StreamEvent::Read(10)) {
            DownloadStep::Write { len, progress } => {
                assert_eq!(len, 10);
                assert_eq!(progress, None);
            }
            _ => panic!("a write was expected"),
        }
        assert_eq!(download.downloaded, 10);
    }
}

#[test]
fn failures_abort_and_keep_the_counter() {
    let mut download = Download::begin(Some(100));
    download.step(StreamEvent::Read(40));
    match download.step(StreamEvent::ReadFailed("connection reset".to_string())) {
        DownloadStep::Aborted(e) => {
            assert_eq!(e, IoError { stage: IoStage::Read, detail: "connection reset".to_string() });
            assert_eq!(e.message(), "Error reading response: connection reset");
        }
        _ => panic!("an abort was expected"),
    }
    assert_eq!(download.downloaded, 40);
    match download.step(StreamEvent::WriteFailed("disk full".to_string())) {
        DownloadStep::Aborted(e) => {
            assert_eq!(e, IoError { stage: IoStage::Write, detail: "disk full".to_string() });
            assert_eq!(e.message(), "Error writing to file: disk full");
        }
        _ => panic!("an abort was expected"),
    }
    assert_eq!(download.downloaded, 40);
    let create = IoError { stage: IoStage::Create, detail: "denied".to_string() };
    assert_eq!(create.message(), "Error creating file: denied");
    assert_eq!(create.download_message(), "Download failed: denied");
}
