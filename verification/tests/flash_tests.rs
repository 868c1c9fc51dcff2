use arcader_imager::flash::{
    is_http_url, local_path, not_a_file_error, partitions_in, partitions_to_unmount, run, source_open_error, whole_disk_path,
    FlashAction, FlashEvent, FlashRun, READ_CHUNK,
};
use arcader_imager::platform::Platform;
use arcader_imager::sector::{SectorBuffer, SECTOR};

#[test]
fn sources() {
    assert!(is_http_url("http://x/os.iso"));
    assert!(is_http_url("https://x/os.iso"));
    assert!(!is_http_url("file:///tmp/os.iso"));
    assert!(!is_http_url("HTTPS://x"));
    assert_eq!(local_path("file:///tmp/os.iso"), "/tmp/os.iso");
    assert_eq!(local_path("/tmp/os.iso"), "/tmp/os.iso");
    assert_eq!(not_a_file_error("/tmp"), "not a file: /tmp");
    assert_eq!(
        source_open_error("/x.iso", false, Platform::Linux, "No such file or directory (os error 2)"),
        "cannot open image /x.iso: No such file or directory (os error 2)"
    );
    assert_eq!(
        source_open_error("/x.iso", true, Platform::Linux, "Permission denied (os error 13)"),
        "cannot open image /x.iso: Permission denied (os error 13)"
    );
    assert_eq!(
        source_open_error("/Users/a/Desktop/x.iso", true, Platform::MacOs, "ignored"),
        "Cannot read the image at /Users/a/Desktop/x.iso: permission denied. macOS may be blocking access to a protected folder - move the image to a plain location (for example your home folder or /tmp) and try again."
    );
}

#[test]
fn unmount_targets() {
    let out = b"/dev/sdb\n/dev/sdb1\n  /dev/sdb2  \n\n";
    assert_eq!(partitions_to_unmount(out, "/dev/sdb"), vec!["/dev/sdb1".to_string(), "/dev/sdb2".to_string()]);
    assert!(partitions_to_unmount(b"", "/dev/sdb").is_empty());
    assert_eq!(whole_disk_path("/dev/rdisk4"), "/dev/disk4");
    assert_eq!(whole_disk_path("/dev/disk4"), "/dev/disk4");
}

#[test]
fn sector_buffer_writes_whole_sectors() {
    let mut b = SectorBuffer::new();
    assert!(b.write(&[1u8; 100]).is_empty());
    let out = b.write(&vec![2u8; SECTOR * 2]);
    assert_eq!(out.len(), SECTOR * 2);
    assert_eq!(&out[..100], &[1u8; 100][..]);
    let tail = b.finish();
    assert_eq!(tail.len(), SECTOR);
    assert_eq!(&tail[..100], &[2u8; 100][..]);
    assert!(tail[100..].iter().all(|&x| x == 0));
    let empty = SectorBuffer::new();
    assert!(empty.finish().is_empty());
}

/// Drives a run against an image in memory and a device in memory.
struct Sim {
    chunks: Vec<Vec<u8>>,
    device: Vec<u8>,
    corrupt: bool,
    cancel_at_chunk: Option<usize>,
    reports: Vec<(String, u64, u64)>,
    max_read: usize,
}

impl Sim {
    fn go(&mut self, source: &str, verify: bool) -> Result<(), String> {
        let (mut r, mut action): (FlashRun, FlashAction) = run(source.to_string(), "/dev/sim".to_string(), verify);
        let mut next_chunk = 0usize;
        let mut read_pos = 0usize;
        loop {
            let mut cancelled = false;
            let event = match action {
                FlashAction::Report { phase, done, total, .. } => {
                    self.reports.push((phase, done, total));
                    FlashEvent::Proceed
                }
                FlashAction::Unmount { .. } => FlashEvent::Proceed,
                FlashAction::OpenSource { .. } => FlashEvent::SourceOpened { total: 0 },
                FlashAction::OpenDevice { .. } => FlashEvent::DeviceOpened,
                FlashAction::NextChunk => {
                    if next_chunk < self.chunks.len() {
                        cancelled = self.cancel_at_chunk == Some(next_chunk);
                        next_chunk += 1;
                        FlashEvent::Chunk { data: self.chunks[next_chunk - 1].clone() }
                    } else {
                        FlashEvent::EndOfImage
                    }
                }
                FlashAction::Write { data } => {
                    assert_eq!(data.len() % SECTOR, 0);
                    self.device.extend_from_slice(&data);
                    FlashEvent::Written
                }
                FlashAction::Finish { data } => {
                    self.device.extend_from_slice(&data);
                    if self.corrupt {
                        self.device[0] ^= 0xff;
                    }
                    FlashEvent::Finished
                }
                FlashAction::OpenDeviceRead { .. } => FlashEvent::DeviceOpened,
                FlashAction::Read { len } => {
                    assert!(len <= READ_CHUNK);
                    let n = len.min(self.max_read).min(self.device.len() - read_pos);
                    let data = self.device[read_pos..read_pos + n].to_vec();
                    read_pos += n;
                    FlashEvent::ReadDone { data }
                }
                FlashAction::Done { result } => return result,
            };
            assert!(r.expects(&event));
            action = r.step(event, cancelled, true);
        }
    }
}

fn sim(chunks: Vec<Vec<u8>>) -> Sim {
    Sim { chunks, device: Vec::new(), corrupt: false, cancel_at_chunk: None, reports: Vec::new(), max_read: usize::MAX }
}

#[test]
fn a_run_writes_the_padded_image_and_checks_it() {
    let image: Vec<u8> = (0..10000u32).map(|i| (i % 251) as u8).collect();
    let mut s = sim(vec![image[..3000].to_vec(), image[3000..7000].to_vec(), image[7000..].to_vec()]);
    s.max_read = 1000;
    assert_eq!(s.go("/tmp/os.img", true), Ok(()));
    assert_eq!(s.device.len(), 3 * SECTOR);
    assert_eq!(&s.device[..10000], &image[..]);
    assert!(s.device[10000..].iter().all(|&b| b == 0));
    assert_eq!(s.reports.first(), Some(&("prepare".to_string(), 0, 0)));
    assert!(s.reports.contains(&("write".to_string(), 10000, 10000)));
    assert!(s.reports.contains(&("finalize".to_string(), 10000, 10000)));
    assert_eq!(s.reports.last(), Some(&("verify".to_string(), 10000, 10000)));
    assert!(s.reports.iter().all(|(_, done, total)| done <= total));
}

#[test]
fn a_download_reports_the_download_phase() {
    let mut s = sim(vec![vec![7u8; 10]]);
    assert_eq!(s.go("https://example.org/os.iso", false), Ok(()));
    assert!(s.reports.contains(&("download".to_string(), 10, 10)));
    assert_eq!(s.device.len(), SECTOR);
}

#[test]
fn a_corrupted_device_fails_the_check() {
    let mut s = sim(vec![vec![5u8; 5000]]);
    s.corrupt = true;
    assert_eq!(
        s.go("/tmp/os.img", true),
        Err("Verification failed - the data on the device does not match the downloaded image.".to_string())
    );
    let mut s = sim(vec![vec![5u8; 5000]]);
    s.corrupt = true;
    assert_eq!(s.go("/tmp/os.img", false), Ok(()));
}

#[test]
fn a_cancelled_run_stops() {
    let mut s = sim(vec![vec![1u8; 5000], vec![2u8; 5000]]);
    s.cancel_at_chunk = Some(1);
    assert_eq!(s.go("/tmp/os.img", true), Err("Cancelled".to_string()));
    assert_eq!(s.device.len(), SECTOR);
}

#[test]
fn failures_carry_their_messages() {
    let (mut r, _) = run("/tmp/os.img".to_string(), "/dev/sdz".to_string(), false);
    assert!(matches!(r.step(FlashEvent::Proceed, false, false), FlashAction::Unmount { .. }));
    assert!(matches!(r.step(FlashEvent::Proceed, false, false), FlashAction::OpenSource { network: false, .. }));
    assert!(!r.expects(&FlashEvent::Proceed));
    assert!(matches!(r.step(FlashEvent::SourceOpened { total: 99 }, false, false), FlashAction::Report { done: 0, total: 99, .. }));
    assert!(matches!(r.step(FlashEvent::Proceed, false, false), FlashAction::OpenDevice { .. }));
    match r.step(FlashEvent::DeviceFailed { error: "Permission denied".to_string() }, false, false) {
        FlashAction::Done { result } => assert_eq!(result, Err("cannot open /dev/sdz: Permission denied".to_string())),
        _ => panic!("expected the end"),
    }
    assert!(!r.expects(&FlashEvent::Proceed));
}

#[test]
fn chunk_and_write_failures() {
    let start = || {
        let (mut r, _) = run("/tmp/os.img".to_string(), "/dev/sdz".to_string(), true);
        r.step(FlashEvent::Proceed, false, false);
        r.step(FlashEvent::Proceed, false, false);
        r.step(FlashEvent::SourceOpened { total: 0 }, false, false);
        r.step(FlashEvent::Proceed, false, false);
        r.step(FlashEvent::DeviceOpened, false, false);
        r
    };
    let mut r = start();
    match r.step(FlashEvent::ChunkFailed { message: "image read error: EIO".to_string() }, false, false) {
        FlashAction::Done { result } => assert_eq!(result, Err("image read error: EIO".to_string())),
        _ => panic!(),
    }
    let mut r = start();
    match r.step(FlashEvent::ChunkFailed { message: "x".to_string() }, true, false) {
        FlashAction::Done { result } => assert_eq!(result, Err("Cancelled".to_string())),
        _ => panic!(),
    }
    let mut r = start();
    assert!(matches!(r.step(FlashEvent::Chunk { data: vec![0u8; SECTOR] }, false, false), FlashAction::Write { .. }));
    match r.step(FlashEvent::WriteFailed { error: "No space left on device".to_string() }, false, false) {
        FlashAction::Done { result } => assert_eq!(result, Err("write error: No space left on device".to_string())),
        _ => panic!(),
    }
    let mut r = start();
    assert!(matches!(r.step(FlashEvent::EndOfImage, false, false), FlashAction::Report { .. }));
    assert!(matches!(r.step(FlashEvent::Proceed, false, false), FlashAction::Finish { .. }));
    match r.step(FlashEvent::FinishFailed { error: "EIO".to_string() }, false, false) {
        FlashAction::Done { result } => assert_eq!(result, Err("finalize error: EIO".to_string())),
        _ => panic!(),
    }
    let mut r = start();
    r.step(FlashEvent::EndOfImage, false, false);
    r.step(FlashEvent::Proceed, false, false);
    match r.step(FlashEvent::Finished, true, false) {
        FlashAction::Done { result } => assert_eq!(result, Err("Cancelled".to_string())),
        _ => panic!(),
    }
    let mut r = start();
    r.step(FlashEvent::Chunk { data: vec![1u8; 10] }, false, false);
    r.step(FlashEvent::EndOfImage, false, false);
    r.step(FlashEvent::Proceed, false, false);
    assert!(matches!(r.step(FlashEvent::Finished, false, false), FlashAction::OpenDeviceRead { .. }));
    match r.step(FlashEvent::DeviceFailed { error: "busy".to_string() }, false, false) {
        FlashAction::Done { result } => assert_eq!(result, Err("cannot reopen /dev/sdz to verify: busy".to_string())),
        _ => panic!(),
    }
    let mut r = start();
    r.step(FlashEvent::Chunk { data: vec![1u8; 10] }, false, false);
    r.step(FlashEvent::EndOfImage, false, false);
    r.step(FlashEvent::Proceed, false, false);
    r.step(FlashEvent::Finished, false, false);
    assert!(matches!(r.step(FlashEvent::DeviceOpened, false, false), FlashAction::Read { len: 4096 }));
    match r.step(FlashEvent::ReadFailed { error: "EIO".to_string() }, false, false) {
        FlashAction::Done { result } => assert_eq!(result, Err("verify read error: EIO".to_string())),
        _ => panic!(),
    }
}

#[test]
fn a_short_device_fails_the_check() {
    let (mut r, _) = run("/tmp/os.img".to_string(), "/dev/sdz".to_string(), true);
    r.step(FlashEvent::Proceed, false, false);
    r.step(FlashEvent::Proceed, false, false);
    r.step(FlashEvent::SourceOpened { total: 0 }, false, false);
    r.step(FlashEvent::Proceed, false, false);
    r.step(FlashEvent::DeviceOpened, false, false);
    r.step(FlashEvent::Chunk { data: vec![9u8; 10] }, false, false);
    r.step(FlashEvent::EndOfImage, false, false);
    r.step(FlashEvent::Proceed, false, false);
    r.step(FlashEvent::Finished, false, false);
    r.step(FlashEvent::DeviceOpened, false, false);
    match r.step(FlashEvent::ReadDone { data: Vec::new() }, false, false) {
        FlashAction::Done { result } => assert!(result.unwrap_err().starts_with("Verification failed")),
        _ => panic!(),
    }
}

#[test]
fn partitions_from_listing_text() {
    let listing = "/dev/sdc\n  /dev/sdc1  \n\n/dev/sdc2\r\n";
    assert_eq!(partitions_in(listing, "/dev/sdc"), vec!["/dev/sdc1".to_string(), "/dev/sdc2".to_string()]);
    assert!(partitions_in("/dev/sdc\n", "/dev/sdc").is_empty());
}
