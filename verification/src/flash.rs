//! Writing an image to a device and reading it back to verify it.
//!
//! The outside work (downloading, reading the image file, writing and
//! reading the device, the clock and the cancel file) is done by the caller;
//! [`FlashRun`] makes every decision: what to do next, which bytes to write,
//! what to report and how the run ends.
use vstd::prelude::*;

use crate::digest::{sha256_absorb, sha256_absorbed, sha256_digest, sha256_finish, sha256_start, Sha256State};
use crate::platform::Platform;
use crate::sector::{pad_len, zeros, SectorBuffer, SECTOR};
use crate::text::{
    chars_of, concat, has_prefix, lines, lines_seq, lossy_utf8, replace_all, replace_seq, same,
    starts_with, string_of, trim, trim_seq, utf8_lossy, views,
};
use crate::worker::string_views;

verus! {

/// Whether `source` names an image to download rather than a local file.
pub open spec fn is_http_url_spec(source: Seq<char>) -> bool {
    has_prefix(source, "http://"@) || has_prefix(source, "https://"@)
}

pub fn is_http_url(source: &str) -> (r: bool)
    ensures
        r == is_http_url_spec(source@),
{
    let s = chars_of(source);
    starts_with(&s, &chars_of("http://")) || starts_with(&s, &chars_of("https://"))
}

/// The local path of a file source: a leading `file://` is dropped.
pub open spec fn local_path_spec(source: Seq<char>) -> Seq<char> {
    if has_prefix(source, "file://"@) {
        source.skip("file://"@.len() as int)
    } else {
        source
    }
}

pub fn local_path(source: &str) -> (res: String)
    ensures
        res@ == local_path_spec(source@),
{
    let s = chars_of(source);
    let p = chars_of("file://");
    if starts_with(&s, &p) {
        let mut rest: Vec<char> = Vec::new();
        let mut i = p.len();
        while i < s.len()
            invariant
                p.len() <= i <= s.len(),
                rest@ == s@.subrange(p.len() as int, i as int),
            decreases s.len() - i,
        {
            rest.push(s[i]);
            i = i + 1;
            assert(rest@ =~= s@.subrange(p.len() as int, i as int));
        }
        assert(rest@ =~= s@.skip(p.len() as int));
        string_of(&rest)
    } else {
        string_of(&s)
    }
}

/// The message for a local image that cannot be opened. On macOS a refused
/// permission gets an explanation of the folder protection there.
pub open spec fn source_open_error_spec(
    path: Seq<char>,
    permission_denied: bool,
    platform: Platform,
    error: Seq<char>,
) -> Seq<char> {
    if platform == Platform::MacOs && permission_denied {
        "Cannot read the image at "@ + path
            + ": permission denied. macOS may be blocking access to a protected folder - move the image to a plain location (for example your home folder or /tmp) and try again."@
    } else {
        "cannot open image "@ + path + ": "@ + error
    }
}

pub fn source_open_error(path: &str, permission_denied: bool, platform: Platform, error: &str) -> (res:
    String)
    ensures
        res@ == source_open_error_spec(path@, permission_denied, platform, error@),
{
    let p = chars_of(path);
    if platform == Platform::MacOs && permission_denied {
        string_of(
            &concat(
                &concat(&chars_of("Cannot read the image at "), &p),
                &chars_of(
                    ": permission denied. macOS may be blocking access to a protected folder - move the image to a plain location (for example your home folder or /tmp) and try again.",
                ),
            ),
        )
    } else {
        string_of(
            &concat(
                &concat(&concat(&chars_of("cannot open image "), &p), &chars_of(": ")),
                &chars_of(error),
            ),
        )
    }
}

/// The message for a local source that is not a regular file.
pub fn not_a_file_error(path: &str) -> (res: String)
    ensures
        res@ == "not a file: "@ + path@,
{
    string_of(&concat(&chars_of("not a file: "), &chars_of(path)))
}

/// The partitions to unmount before writing `device`, from the lines that
/// `lsblk -ln -o PATH DEVICE` printed: each line trimmed, except empty ones
/// and the device itself.
pub open spec fn partitions_spec(ls: Seq<Seq<char>>, device: Seq<char>) -> Seq<Seq<char>>
    decreases ls.len(),
{
    if ls.len() == 0 {
        Seq::empty()
    } else {
        let rest = partitions_spec(ls.drop_last(), device);
        let p = trim_seq(ls.last());
        if p.len() == 0 || p == device {
            rest
        } else {
            rest.push(p)
        }
    }
}

/// The partitions to unmount before writing `device`, from the text that
/// `lsblk -ln -o PATH DEVICE` printed.
pub fn partitions_in(listing: &str, device: &str) -> (res: Vec<String>)
    ensures
        string_views(res@) == partitions_spec(lines_seq(listing@), device@),
{
    let ls = lines(&chars_of(listing));
    let dev = chars_of(device);
    let ghost lv = views(ls@);
    let mut res: Vec<String> = Vec::new();
    let mut i: usize = 0;
    while i < ls.len()
        invariant
            i <= ls.len(),
            lv == views(ls@),
            lv.len() == ls@.len(),
            dev@ == device@,
            string_views(res@) == partitions_spec(lv.take(i as int), device@),
        decreases ls.len() - i,
    {
        let p = trim(&ls[i]);
        let ghost before = res@;
        proof {
            assert(lv.take(i + 1).drop_last() =~= lv.take(i as int));
            assert(lv.take(i + 1).last() == ls@[i as int]@);
        }
        if !(p.len() == 0 || same(&p, &dev)) {
            res.push(string_of(&p));
            assert(string_views(res@) =~= string_views(before).push(p@));
        }
        i = i + 1;
    }
    assert(lv.take(i as int) =~= lv);
    res
}

/// The partitions to unmount before writing `device`, from the bytes that
/// `lsblk -ln -o PATH DEVICE` printed.
pub fn partitions_to_unmount(lsblk_stdout: &[u8], device: &str) -> (res: Vec<String>)
    ensures
        string_views(res@) == partitions_spec(lines_seq(lossy_utf8(lsblk_stdout@)), device@),
{
    let text = utf8_lossy(lsblk_stdout);
    partitions_in(text.as_str(), device)
}

/// The whole-disk path for `diskutil unmountDisk`: the raw device name
/// `/dev/rdiskN` becomes `/dev/diskN`.
pub fn whole_disk_path(device: &str) -> (res: String)
    ensures
        res@ == replace_seq(device@, "/dev/rdisk"@, "/dev/disk"@),
{
    proof {
        reveal_strlit("/dev/rdisk");
    }
    string_of(&replace_all(&chars_of(device), &chars_of("/dev/rdisk"), &chars_of("/dev/disk")))
}

/// How much is read back from the device at most at once.
pub const READ_CHUNK: usize = 4 * 1024 * 1024;

/// How many bytes to ask of the device next while verifying: what is left of
/// the image, rounded up to whole sectors, at most [`READ_CHUNK`].
pub open spec fn read_len_spec(image_size: u64, read_total: u64) -> usize {
    let remaining = (image_size - read_total) as usize;
    let sectors = remaining / SECTOR + if remaining % SECTOR == 0 {
        0usize
    } else {
        1usize
    };
    let rounded = if sectors > usize::MAX / SECTOR {
        usize::MAX
    } else {
        (sectors * SECTOR) as usize
    };
    if rounded < READ_CHUNK {
        rounded
    } else {
        READ_CHUNK
    }
}

fn read_len(image_size: u64, read_total: u64) -> (r: usize)
    requires
        read_total <= image_size,
    ensures
        r == read_len_spec(image_size, read_total),
{
    let remaining = (image_size - read_total) as usize;
    let sectors = remaining / SECTOR + if remaining % SECTOR == 0 {
        0usize
    } else {
        1usize
    };
    let rounded = if sectors > usize::MAX / SECTOR {
        usize::MAX
    } else {
        sectors * SECTOR
    };
    if rounded < READ_CHUNK {
        rounded
    } else {
        READ_CHUNK
    }
}

fn bytes_equal(a: &[u8], b: &[u8]) -> (r: bool)
    ensures
        r == (a@ == b@),
{
    if a.len() != b.len() {
        return false;
    }
    let mut i: usize = 0;
    while i < a.len()
        invariant
            a.len() == b.len(),
            i <= a.len(),
            forall|j: int| 0 <= j < i ==> a@[j] == b@[j],
        decreases a.len() - i,
    {
        if a[i] != b[i] {
            return false;
        }
        i = i + 1;
    }
    assert(a@ =~= b@);
    true
}

/// Where a run stands: which piece of outside work it waits for.
#[derive(PartialEq, Eq, Structural, Clone, Copy, Debug)]
pub enum Stage {
    /// The first report was handed out.
    Prepared,
    /// The device's partitions are being unmounted.
    Unmounting,
    /// The image source is being opened.
    OpeningSource,
    /// The report that writing starts was handed out.
    SourceReported,
    /// The device is being opened for writing.
    OpeningDevice,
    /// The next piece of the image is awaited.
    Streaming,
    /// Whole sectors are being written.
    Writing,
    /// A report of the progress of writing was handed out.
    ChunkReported,
    /// The report that writing ends was handed out.
    Finalizing,
    /// The last sector is being written and the device flushed.
    Flushing,
    /// The device is being opened for reading back.
    OpeningRead,
    /// A piece of the device is being read back.
    Reading,
    /// A report of the progress of verifying was handed out.
    ReadReported,
    /// The report that verification passed was handed out.
    Verified,
    /// The run has ended.
    Over,
}

/// What the caller reports back after doing what it was asked.
pub enum FlashEvent {
    /// The report, unmount or flush asked for was done.
    Proceed,
    /// The image is open; `total` is its announced size (0 when unknown).
    SourceOpened { total: u64 },
    /// The image could not be opened.
    SourceFailed { message: String },
    /// The device is open.
    DeviceOpened,
    /// The device could not be opened.
    DeviceFailed { error: String },
    /// The next piece of the image.
    Chunk { data: Vec<u8> },
    /// Reading the next piece of the image failed.
    ChunkFailed { message: String },
    /// The image has no more bytes.
    EndOfImage,
    /// The bytes were written.
    Written,
    /// Writing failed.
    WriteFailed { error: String },
    /// The last bytes were written and the device flushed.
    Finished,
    /// Writing the last bytes or flushing failed.
    FinishFailed { error: String },
    /// The bytes read back from the device (none at its end).
    ReadDone { data: Vec<u8> },
    /// Reading the device failed.
    ReadFailed { error: String },
}

/// What the run asks the caller to do next.
pub enum FlashAction {
    /// Report progress: `done` of `total` bytes in `phase`; `timed` marks
    /// the reports made because one was due by the clock, which carry a
    /// transfer rate.
    Report { phase: String, done: u64, total: u64, timed: bool },
    /// Unmount the partitions of `device`.
    Unmount { device: String },
    /// Open the image: download `location` when `network`, else read the
    /// local file it names.
    OpenSource { network: bool, location: String },
    /// Open `device` for writing.
    OpenDevice { device: String },
    /// Deliver the next piece of the image.
    NextChunk,
    /// Write `data` to the device.
    Write { data: Vec<u8> },
    /// Write `data` to the device, then flush it and sync it.
    Finish { data: Vec<u8> },
    /// Open `device` for reading.
    OpenDeviceRead { device: String },
    /// Read at most `len` bytes from the device.
    Read { len: usize },
    /// The run has ended with `result`.
    Done { result: Result<(), String> },
}

/// `action` reports `done` of `total` bytes in `phase`, as a timed report
/// or not.
pub open spec fn reports(action: FlashAction, phase: Seq<char>, done: u64, total: u64, timed: bool) -> bool {
    action matches FlashAction::Report { phase: p, done: d, total: t, timed: m } && p@ == phase && d == done && m == timed
        && t == total
}

/// `action` ends the run with the error `message`.
pub open spec fn fails_with(action: FlashAction, message: Seq<char>) -> bool {
    action matches FlashAction::Done { result: Err(m) } && m@ == message
}

/// `action` ends the run successfully.
pub open spec fn succeeds(action: FlashAction) -> bool {
    action matches FlashAction::Done { result: Ok(()) }
}

/// The phase in which the image is written.
pub open spec fn write_phase(network: bool) -> Seq<char> {
    if network {
        "download"@
    } else {
        "write"@
    }
}

pub open spec fn max_u64(a: u64, b: u64) -> u64 {
    if a < b {
        b
    } else {
        a
    }
}

/// The message of a run that was cancelled.
pub open spec fn cancelled_msg() -> Seq<char> {
    "Cancelled"@
}

/// The message of a verification that found other bytes on the device.
pub open spec fn mismatch_msg() -> Seq<char> {
    "Verification failed - the data on the device does not match the downloaded image."@
}

/// One run of writing an image to a device.
pub struct FlashRun {
    stage: Stage,
    source: String,
    device: String,
    verify: bool,
    network: bool,
    total: u64,
    written: u64,
    chunk_len: u64,
    buffer: SectorBuffer,
    hasher: Sha256State,
    digest: Vec<u8>,
    image_size: u64,
    read_total: u64,
    accepted: Ghost<Seq<u8>>,
    emitted: Ghost<Seq<u8>>,
    read_back: Ghost<Seq<u8>>,
}

impl FlashRun {
    pub closed spec fn stage(&self) -> Stage {
        self.stage
    }

    pub closed spec fn source(&self) -> Seq<char> {
        self.source@
    }

    pub closed spec fn device(&self) -> Seq<char> {
        self.device@
    }

    pub closed spec fn verify(&self) -> bool {
        self.verify
    }

    pub closed spec fn network(&self) -> bool {
        self.network
    }

    /// The announced size of the image.
    pub closed spec fn total(&self) -> u64 {
        self.total
    }

    /// How many bytes of the image have been written out.
    pub closed spec fn written(&self) -> u64 {
        self.written
    }

    /// All bytes of the image received so far.
    pub closed spec fn accepted(&self) -> Seq<u8> {
        self.accepted@
    }

    /// All bytes handed out to be written to the device so far.
    pub closed spec fn emitted(&self) -> Seq<u8> {
        self.emitted@
    }

    /// The digest of the image, once it has been written.
    pub closed spec fn digest(&self) -> Seq<u8> {
        self.digest@
    }

    /// The bytes read back from the device and verified so far.
    pub closed spec fn read_back(&self) -> Seq<u8> {
        self.read_back@
    }

    pub closed spec fn read_total(&self) -> u64 {
        self.read_total
    }

    /// The number of image bytes that are verified.
    pub closed spec fn image_size(&self) -> u64 {
        self.image_size
    }

    /// The bytes received but not yet handed out to be written.
    pub closed spec fn held(&self) -> Seq<u8> {
        self.buffer@
    }

    pub closed spec fn wf(&self) -> bool {
        &&& self.buffer.wf()
        &&& self.emitted@.len() % (SECTOR as nat) == 0
        &&& self.accepted@.len() <= u64::MAX
        &&& match self.stage {
            Stage::Prepared | Stage::Unmounting | Stage::OpeningSource | Stage::SourceReported
            | Stage::OpeningDevice => {
                &&& self.accepted@ == Seq::<u8>::empty()
                &&& self.emitted@ == Seq::<u8>::empty()
                &&& self.buffer@ == Seq::<u8>::empty()
                &&& self.written == 0
                &&& sha256_absorbed(self.hasher) == self.accepted@
            },
            Stage::Streaming | Stage::Writing | Stage::ChunkReported | Stage::Finalizing => {
                &&& self.accepted@ == self.emitted@ + self.buffer@
                &&& sha256_absorbed(self.hasher) == self.accepted@
                &&& if self.stage == Stage::Writing {
                    self.written + self.chunk_len == self.accepted@.len()
                } else {
                    self.written == self.accepted@.len()
                }
            },
            Stage::Flushing => {
                &&& self.emitted@ == self.accepted@ + zeros(pad_len(self.accepted@.len()))
                &&& sha256_absorbed(self.hasher) == self.accepted@
                &&& self.written == self.accepted@.len()
            },
            Stage::OpeningRead | Stage::Reading | Stage::ReadReported => {
                &&& self.verify
                &&& self.emitted@ == self.accepted@ + zeros(pad_len(self.accepted@.len()))
                &&& self.written == self.accepted@.len()
                &&& self.digest@ == sha256_digest(self.accepted@)
                &&& self.image_size == self.written
                &&& sha256_absorbed(self.hasher) == self.read_back@
                &&& self.read_total == self.read_back@.len()
                &&& self.read_total <= self.image_size
            },
            Stage::Verified => {
                &&& self.verify
                &&& self.emitted@ == self.accepted@ + zeros(pad_len(self.accepted@.len()))
                &&& self.written == self.accepted@.len()
                &&& self.digest@ == sha256_digest(self.accepted@)
                &&& self.image_size == self.written
            },
            Stage::Over => true,
        }
    }

    /// Whether `event` is an answer to what the run last asked for (and,
    /// for a piece of the image, whether the byte count still fits).
    pub open spec fn accepts(&self, event: FlashEvent) -> bool {
        match self.stage() {
            Stage::Prepared | Stage::Unmounting | Stage::SourceReported | Stage::ChunkReported
            | Stage::Finalizing | Stage::ReadReported | Stage::Verified => event is Proceed,
            Stage::OpeningSource => event is SourceOpened || event is SourceFailed,
            Stage::OpeningDevice | Stage::OpeningRead => event is DeviceOpened
                || event is DeviceFailed,
            Stage::Streaming => match event {
                FlashEvent::Chunk { data } => self.written() + data@.len() <= u64::MAX,
                FlashEvent::ChunkFailed { .. } => true,
                FlashEvent::EndOfImage => true,
                _ => false,
            },
            Stage::Writing => event is Written || event is WriteFailed,
            Stage::Flushing => event is Finished || event is FinishFailed,
            Stage::Reading => event is ReadDone || event is ReadFailed,
            Stage::Over => false,
        }
    }

    pub fn expects(&self, event: &FlashEvent) -> (r: bool)
        ensures
            r == self.accepts(*event),
    {
        match self.stage {
            Stage::Prepared | Stage::Unmounting | Stage::SourceReported | Stage::ChunkReported
            | Stage::Finalizing | Stage::ReadReported | Stage::Verified => match event {
                FlashEvent::Proceed => true,
                _ => false,
            },
            Stage::OpeningSource => match event {
                FlashEvent::SourceOpened { .. } | FlashEvent::SourceFailed { .. } => true,
                _ => false,
            },
            Stage::OpeningDevice | Stage::OpeningRead => match event {
                FlashEvent::DeviceOpened | FlashEvent::DeviceFailed { .. } => true,
                _ => false,
            },
            Stage::Streaming => match event {
                FlashEvent::Chunk { data } => data.len() as u64 <= u64::MAX - self.written,
                FlashEvent::ChunkFailed { .. } | FlashEvent::EndOfImage => true,
                _ => false,
            },
            Stage::Writing => match event {
                FlashEvent::Written | FlashEvent::WriteFailed { .. } => true,
                _ => false,
            },
            Stage::Flushing => match event {
                FlashEvent::Finished | FlashEvent::FinishFailed { .. } => true,
                _ => false,
            },
            Stage::Reading => match event {
                FlashEvent::ReadDone { .. } | FlashEvent::ReadFailed { .. } => true,
                _ => false,
            },
            Stage::Over => false,
        }
    }
}

/// After a piece of the image is written: its bytes count as written, and
/// the progress is reported when a report is due, else the next piece is
/// asked for.
pub open spec fn after_chunk(pre: FlashRun, written: u64, due: bool, post: FlashRun, action: FlashAction) -> bool {
    &&& post.written() == written
    &&& if due {
        reports(action, write_phase(pre.network()), written, max_u64(pre.total(), written), true)
            && post.stage() == Stage::ChunkReported
    } else {
        action is NextChunk && post.stage() == Stage::Streaming
    }
}

/// The end of the read-back: it passes when the bytes read back have the
/// image's digest.
pub open spec fn compare_post(pre: FlashRun, read_back: Seq<u8>, post: FlashRun, action: FlashAction) -> bool {
    if sha256_digest(read_back) == pre.digest() {
        reports(action, "verify"@, pre.image_size(), pre.image_size(), false) && post.stage()
            == Stage::Verified
    } else {
        fails_with(action, mismatch_msg()) && post.stage() == Stage::Over
    }
}

/// The top of the read-back loop: read more while bytes of the image remain
/// unchecked and the run is not cancelled.
pub open spec fn verify_next(
    pre: FlashRun,
    read_total: u64,
    read_back: Seq<u8>,
    cancelled: bool,
    post: FlashRun,
    action: FlashAction,
) -> bool {
    if read_total < pre.image_size() {
        if cancelled {
            fails_with(action, cancelled_msg()) && post.stage() == Stage::Over
        } else {
            &&& action matches FlashAction::Read { len }
            &&& len == read_len_spec(pre.image_size(), read_total)
            &&& post.stage() == Stage::Reading
        }
    } else {
        compare_post(pre, read_back, post, action)
    }
}

/// What one step of a run does, given the caller's answer `event`, whether
/// the cancel file was present (`cancelled`) and whether a progress report
/// is due by the clock (`due`).
pub open spec fn step_post(
    pre: FlashRun,
    event: FlashEvent,
    cancelled: bool,
    due: bool,
    post: FlashRun,
    action: FlashAction,
) -> bool {
    &&& post.source() == pre.source()
    &&& post.device() == pre.device()
    &&& post.verify() == pre.verify()
    &&& post.network() == pre.network()
    &&& pre.stage() != Stage::OpeningSource ==> post.total() == pre.total()
    &&& !(pre.stage() == Stage::Streaming && event is Chunk) ==> post.accepted() == pre.accepted()
    &&& match pre.stage() {
        Stage::Prepared => {
            &&& action matches FlashAction::Unmount { device }
            &&& device@ == pre.device()
            &&& post.stage() == Stage::Unmounting
        },
        Stage::Unmounting => {
            &&& action matches FlashAction::OpenSource { network, location }
            &&& network == pre.network()
            &&& location@ == pre.source()
            &&& post.stage() == Stage::OpeningSource
        },
        Stage::OpeningSource => match event {
            FlashEvent::SourceOpened { total } => {
                &&& reports(action, write_phase(pre.network()), 0, total, false)
                &&& post.total() == total
                &&& post.stage() == Stage::SourceReported
            },
            FlashEvent::SourceFailed { message } => fails_with(action, message@) && post.stage()
                == Stage::Over,
            _ => false,
        },
        Stage::SourceReported => {
            &&& action matches FlashAction::OpenDevice { device }
            &&& device@ == pre.device()
            &&& post.stage() == Stage::OpeningDevice
        },
        Stage::OpeningDevice => match event {
            FlashEvent::DeviceOpened => action is NextChunk && post.stage() == Stage::Streaming
                && post.accepted() == Seq::<u8>::empty(),
            FlashEvent::DeviceFailed { error } => fails_with(
                action,
                "cannot open "@ + pre.device() + ": "@ + error@,
            ) && post.stage() == Stage::Over,
            _ => false,
        },
        Stage::Streaming => match event {
            FlashEvent::Chunk { data } => if cancelled {
                fails_with(action, cancelled_msg()) && post.stage() == Stage::Over
            } else {
                let flush = (pre.held() + data@).take(
                    crate::sector::whole_sectors((pre.held() + data@).len()) as int,
                );
                &&& post.accepted() == pre.accepted() + data@
                &&& post.emitted() == pre.emitted() + flush
                &&& if flush.len() > 0 {
                    &&& action matches FlashAction::Write { data: w }
                    &&& w@ == flush
                    &&& post.stage() == Stage::Writing
                    &&& post.written() == pre.written()
                } else {
                    after_chunk(pre, (pre.written() + data@.len()) as u64, due, post, action)
                }
            },
            FlashEvent::ChunkFailed { message } => fails_with(
                action,
                if cancelled {
                    cancelled_msg()
                } else {
                    message@
                },
            ) && post.stage() == Stage::Over,
            FlashEvent::EndOfImage => {
                &&& reports(action, "finalize"@, pre.written(), max_u64(pre.total(), pre.written()), false)
                &&& post.stage() == Stage::Finalizing
                &&& post.accepted() == pre.accepted()
                &&& post.emitted() == pre.emitted()
                &&& post.written() == pre.written()
            },
            _ => false,
        },
        Stage::Writing => match event {
            FlashEvent::Written => {
                &&& post.accepted() == pre.accepted()
                &&& post.emitted() == pre.emitted()
                &&& after_chunk(pre, pre.accepted().len() as u64, due, post, action)
            },
            FlashEvent::WriteFailed { error } => fails_with(action, "write error: "@ + error@)
                && post.stage() == Stage::Over,
            _ => false,
        },
        Stage::ChunkReported => {
            &&& action is NextChunk
            &&& post.stage() == Stage::Streaming
            &&& post.accepted() == pre.accepted()
            &&& post.emitted() == pre.emitted()
            &&& post.written() == pre.written()
        },
        Stage::Finalizing => {
            &&& action matches FlashAction::Finish { data }
            &&& data@ == pre.held() + zeros(pad_len(pre.held().len()))
            &&& post.stage() == Stage::Flushing
            &&& post.accepted() == pre.accepted()
            &&& post.emitted() == pre.emitted() + data@
            &&& post.written() == pre.written()
        },
        Stage::Flushing => match event {
            FlashEvent::Finished => {
                &&& post.digest() == sha256_digest(pre.accepted())
                &&& post.image_size() == pre.written()
                &&& post.accepted() == pre.accepted()
                &&& post.emitted() == pre.emitted()
                &&& if pre.verify() {
                    if cancelled {
                        fails_with(action, cancelled_msg()) && post.stage() == Stage::Over
                    } else {
                        &&& action matches FlashAction::OpenDeviceRead { device }
                        &&& device@ == pre.device()
                        &&& post.stage() == Stage::OpeningRead
                        &&& post.read_back() == Seq::<u8>::empty()
                        &&& post.read_total() == 0
                    }
                } else {
                    succeeds(action) && post.stage() == Stage::Over
                }
            },
            FlashEvent::FinishFailed { error } => fails_with(action, "finalize error: "@ + error@)
                && post.stage() == Stage::Over,
            _ => false,
        },
        Stage::OpeningRead => match event {
            FlashEvent::DeviceOpened => {
                &&& post.read_back() == pre.read_back()
                &&& post.read_total() == pre.read_total()
                &&& verify_next(pre, pre.read_total(), pre.read_back(), cancelled, post, action)
            },
            FlashEvent::DeviceFailed { error } => fails_with(
                action,
                "cannot reopen "@ + pre.device() + " to verify: "@ + error@,
            ) && post.stage() == Stage::Over,
            _ => false,
        },
        Stage::Reading => match event {
            FlashEvent::ReadDone { data } => if data@.len() == 0 {
                compare_post(pre, pre.read_back(), post, action) && post.read_back()
                    == pre.read_back()
            } else {
                let left = pre.image_size() - pre.read_total();
                let take = if data@.len() < left {
                    data@.len() as int
                } else {
                    left
                };
                &&& post.read_back() == pre.read_back() + data@.take(take)
                &&& post.read_total() == pre.read_total() + take
                &&& if due {
                    reports(action, "verify"@, post.read_total(), pre.image_size(), true)
                        && post.stage() == Stage::ReadReported
                } else {
                    verify_next(pre, post.read_total(), post.read_back(), cancelled, post, action)
                }
            },
            FlashEvent::ReadFailed { error } => fails_with(action, "verify read error: "@ + error@)
                && post.stage() == Stage::Over,
            _ => false,
        },
        Stage::ReadReported => {
            &&& post.read_back() == pre.read_back()
            &&& post.read_total() == pre.read_total()
            &&& verify_next(pre, pre.read_total(), pre.read_back(), cancelled, post, action)
        },
        Stage::Verified => succeeds(action) && post.stage() == Stage::Over,
        Stage::Over => false,
    }
    &&& post.stage() != Stage::Over ==> post.wf()
    &&& (pre.stage() == Stage::OpeningRead || pre.stage() == Stage::Reading || pre.stage()
        == Stage::ReadReported) ==> post.image_size() == pre.image_size() && post.digest()
        == pre.digest()
}

/// Starts a run that writes the image at `source` (a URL or a local
/// file) to `device`, verifying it afterwards when `verify`; the first
/// action reports the preparation.
pub fn run(source: String, device: String, verify: bool) -> (res: (FlashRun, FlashAction))
    ensures
        res.0.wf(),
        res.0.stage() == Stage::Prepared,
        res.0.source() == source@,
        res.0.device() == device@,
        res.0.verify() == verify,
        res.0.network() == is_http_url_spec(source@),
        res.0.total() == 0,
        res.0.written() == 0,
        res.0.accepted() == Seq::<u8>::empty(),
        res.0.emitted() == Seq::<u8>::empty(),
        res.0.image_size() == 0,
        reports(res.1, "prepare"@, 0, 0, false),
{
    let network = is_http_url(source.as_str());
    let run = FlashRun {
        stage: Stage::Prepared,
        source,
        device,
        verify,
        network,
        total: 0,
        written: 0,
        chunk_len: 0,
        buffer: SectorBuffer::new(),
        hasher: sha256_start(),
        digest: Vec::new(),
        image_size: 0,
        read_total: 0,
        accepted: Ghost(Seq::empty()),
        emitted: Ghost(Seq::empty()),
        read_back: Ghost(Seq::empty()),
    };
    (run, FlashAction::Report { phase: String::from_str("prepare"), done: 0, total: 0, timed: false })
}

/// What a run's counters hold between steps: every byte received counts as
/// written, except while a piece is being written (then no more than the
/// bytes received); once the image is flushed and until it is verified,
/// the bytes read back are checked against exactly the bytes written,
/// which are the whole image.
pub proof fn lemma_run_counters(r: FlashRun)
    requires
        r.wf(),
    ensures
        r.stage() != Stage::Writing && r.stage() != Stage::Over ==> r.written() == r.accepted().len(),
        r.stage() == Stage::Writing ==> r.written() <= r.accepted().len(),
        (r.stage() == Stage::OpeningRead || r.stage() == Stage::Reading || r.stage() == Stage::ReadReported
            || r.stage() == Stage::Verified) ==> r.image_size() == r.written() && r.written()
            == r.accepted().len(),
        (r.stage() == Stage::OpeningRead || r.stage() == Stage::Reading || r.stage() == Stage::ReadReported)
            ==> r.read_total() == r.read_back().len() && r.read_total() <= r.image_size(),
{
}

fn message_of(a: &str, b: &[char], c: &str, d: &[char]) -> (res: String)
    ensures
        res@ == a@ + b@ + c@ + d@,
{
    string_of(&concat(&concat(&concat(&chars_of(a), b), &chars_of(c)), d))
}

impl FlashRun {
    fn phase_name(&self) -> (r: String)
        ensures
            r@ == write_phase(self.network),
    {
        if self.network {
            String::from_str("download")
        } else {
            String::from_str("write")
        }
    }

    fn fail(&mut self, message: String) -> (action: FlashAction)
        ensures
            fails_with(action, message@),
            *final(self) == (FlashRun { stage: Stage::Over, ..*old(self) }),
    {
        self.stage = Stage::Over;
        FlashAction::Done { result: Err(message) }
    }

    fn after_chunk_exec(&mut self, due: bool) -> (action: FlashAction)
        requires
            old(self).stage == Stage::Writing,
            old(self).wf(),
        ensures
            after_chunk(*old(self), (old(self).written + old(self).chunk_len) as u64, due, *final(self), action),
            final(self).wf(),
            final(self).accepted() == old(self).accepted(),
            final(self).emitted() == old(self).emitted(),
            final(self).source() == old(self).source(),
            final(self).device() == old(self).device(),
            final(self).verify() == old(self).verify(),
            final(self).network() == old(self).network(),
            final(self).total() == old(self).total(),
    {
        self.written = self.written + self.chunk_len;
        self.chunk_len = 0;
        if due {
            let written = self.written;
            let total = if self.total < written {
                written
            } else {
                self.total
            };
            self.stage = Stage::ChunkReported;
            FlashAction::Report { phase: self.phase_name(), done: written, total, timed: true }
        } else {
            self.stage = Stage::Streaming;
            FlashAction::NextChunk
        }
    }

    fn verify_next_exec(&mut self, cancelled: bool) -> (action: FlashAction)
        requires
            old(self).stage == Stage::OpeningRead || old(self).stage == Stage::Reading || old(self).stage == Stage::ReadReported,
            old(self).wf(),
        ensures
            verify_next(*old(self), old(self).read_total, old(self).read_back@, cancelled, *final(self), action),
            final(self).stage() != Stage::Over ==> final(self).wf(),
            final(self).read_back() == old(self).read_back(),
            final(self).accepted() == old(self).accepted(),
            final(self).read_total() == old(self).read_total(),
            final(self).image_size() == old(self).image_size(),
            final(self).digest() == old(self).digest(),
            final(self).source() == old(self).source(),
            final(self).device() == old(self).device(),
            final(self).verify() == old(self).verify(),
            final(self).network() == old(self).network(),
            final(self).total() == old(self).total(),
    {
        if self.read_total < self.image_size {
            if cancelled {
                self.fail(String::from_str("Cancelled"))
            } else {
                let len = read_len(self.image_size, self.read_total);
                self.stage = Stage::Reading;
                FlashAction::Read { len }
            }
        } else {
            self.compare_exec()
        }
    }

    fn compare_exec(&mut self) -> (action: FlashAction)
        requires
            old(self).stage == Stage::OpeningRead || old(self).stage == Stage::Reading || old(self).stage == Stage::ReadReported,
            old(self).wf(),
        ensures
            compare_post(*old(self), old(self).read_back@, *final(self), action),
            final(self).stage() != Stage::Over ==> final(self).wf(),
            final(self).read_back() == old(self).read_back(),
            final(self).accepted() == old(self).accepted(),
            final(self).read_total() == old(self).read_total(),
            final(self).image_size() == old(self).image_size(),
            final(self).digest() == old(self).digest(),
            final(self).source() == old(self).source(),
            final(self).device() == old(self).device(),
            final(self).verify() == old(self).verify(),
            final(self).network() == old(self).network(),
            final(self).total() == old(self).total(),
    {
        let mut h = sha256_start();
        std::mem::swap(&mut h, &mut self.hasher);
        let read_digest = sha256_finish(h);
        if bytes_equal(&read_digest, &self.digest) {
            let size = self.image_size;
            self.stage = Stage::Verified;
            FlashAction::Report { phase: String::from_str("verify"), done: size, total: size, timed: false }
        } else {
            self.fail(
                String::from_str(
                    "Verification failed - the data on the device does not match the downloaded image.",
                ),
            )
        }
    }

    /// Takes the caller's answer to the last action and gives the next one.
    pub fn step(&mut self, event: FlashEvent, cancelled: bool, due: bool) -> (action: FlashAction)
        requires
            old(self).wf(),
            old(self).accepts(event),
        ensures
            step_post(*old(self), event, cancelled, due, *final(self), action),
    {
        match self.stage {
            Stage::Prepared => self.on_prepared(event, cancelled, due),
            Stage::Unmounting => self.on_unmounting(event, cancelled, due),
            Stage::OpeningSource => self.on_opening_source(event, cancelled, due),
            Stage::SourceReported => self.on_source_reported(event, cancelled, due),
            Stage::OpeningDevice => self.on_opening_device(event, cancelled, due),
            Stage::Streaming => self.on_streaming(event, cancelled, due),
            Stage::Writing => self.on_writing(event, cancelled, due),
            Stage::ChunkReported => self.on_chunk_reported(event, cancelled, due),
            Stage::Finalizing => self.on_finalizing(event, cancelled, due),
            Stage::Flushing => self.on_flushing(event, cancelled, due),
            Stage::OpeningRead => self.on_opening_read(event, cancelled, due),
            Stage::Reading => self.on_reading(event, cancelled, due),
            Stage::ReadReported => self.on_read_reported(event, cancelled, due),
            Stage::Verified => self.on_verified(event, cancelled, due),
            Stage::Over => {
                proof {
                    assert(false);
                }
                FlashAction::NextChunk
            },
        }
    }

    fn on_prepared(&mut self, event: FlashEvent, cancelled: bool, due: bool) -> (action: FlashAction)
        requires
            old(self).wf(),
            old(self).accepts(event),
            old(self).stage == Stage::Prepared,
        ensures
            step_post(*old(self), event, cancelled, due, *final(self), action),
    {
        self.stage = Stage::Unmounting;
        FlashAction::Unmount { device: self.device.clone() }
    }

    fn on_unmounting(&mut self, event: FlashEvent, cancelled: bool, due: bool) -> (action: FlashAction)
        requires
            old(self).wf(),
            old(self).accepts(event),
            old(self).stage == Stage::Unmounting,
        ensures
            step_post(*old(self), event, cancelled, due, *final(self), action),
    {
        self.stage = Stage::OpeningSource;
        FlashAction::OpenSource { network: self.network, location: self.source.clone() }
    }

    fn on_opening_source(&mut self, event: FlashEvent, cancelled: bool, due: bool) -> (action: FlashAction)
        requires
            old(self).wf(),
            old(self).accepts(event),
            old(self).stage == Stage::OpeningSource,
        ensures
            step_post(*old(self), event, cancelled, due, *final(self), action),
    {
        match event {
            FlashEvent::SourceOpened { total } => {
                self.total = total;
                self.stage = Stage::SourceReported;
                FlashAction::Report { phase: self.phase_name(), done: 0, total, timed: false }
            },
            FlashEvent::SourceFailed { message } => self.fail(message),
            _ => {
                proof {
                    assert(false);
                }
                FlashAction::NextChunk
            },
        }
    }

    fn on_source_reported(&mut self, event: FlashEvent, cancelled: bool, due: bool) -> (action: FlashAction)
        requires
            old(self).wf(),
            old(self).accepts(event),
            old(self).stage == Stage::SourceReported,
        ensures
            step_post(*old(self), event, cancelled, due, *final(self), action),
    {
        self.stage = Stage::OpeningDevice;
        FlashAction::OpenDevice { device: self.device.clone() }
    }

    fn on_opening_device(&mut self, event: FlashEvent, cancelled: bool, due: bool) -> (action: FlashAction)
        requires
            old(self).wf(),
            old(self).accepts(event),
            old(self).stage == Stage::OpeningDevice,
        ensures
            step_post(*old(self), event, cancelled, due, *final(self), action),
    {
        match event {
            FlashEvent::DeviceOpened => {
                self.stage = Stage::Streaming;
                FlashAction::NextChunk
            },
            FlashEvent::DeviceFailed { error } => {
                let m = message_of("cannot open ", &chars_of(self.device.as_str()), ": ", &chars_of(error.as_str()));
                self.fail(m)
            },
            _ => {
                proof {
                    assert(false);
                }
                FlashAction::NextChunk
            },
        }
    }

    fn on_streaming(&mut self, event: FlashEvent, cancelled: bool, due: bool) -> (action: FlashAction)
        requires
            old(self).wf(),
            old(self).accepts(event),
            old(self).stage == Stage::Streaming,
        ensures
            step_post(*old(self), event, cancelled, due, *final(self), action),
    {
        match event {
            FlashEvent::Chunk { data } => {
                if cancelled {
                    self.fail(String::from_str("Cancelled"))
                } else {
                    let flush = self.buffer.write(data.as_slice());
                    sha256_absorb(&mut self.hasher, data.as_slice());
                    self.chunk_len = data.len() as u64;
                    proof {
                        self.accepted@ = self.accepted@ + data@;
                        self.emitted@ = self.emitted@ + flush@;
                        assert(self.accepted@ =~= self.emitted@ + self.buffer@);
                        assert(self.emitted@.len() % (SECTOR as nat) == 0) by {
                            vstd::arithmetic::div_mod::lemma_mod_adds(
                                old(self).emitted@.len() as int,
                                flush@.len() as int,
                                SECTOR as int,
                            );
                        }
                    }
                    self.stage = Stage::Writing;
                    if flush.len() > 0 {
                        FlashAction::Write { data: flush }
                    } else {
                        self.after_chunk_exec(due)
                    }
                }
            },
            FlashEvent::ChunkFailed { message } => {
                if cancelled {
                    self.fail(String::from_str("Cancelled"))
                } else {
                    self.fail(message)
                }
            },
            FlashEvent::EndOfImage => {
                let written = self.written;
                let total = if self.total < written {
                    written
                } else {
                    self.total
                };
                self.stage = Stage::Finalizing;
                FlashAction::Report { phase: String::from_str("finalize"), done: written, total, timed: false }
            },
            _ => {
                proof {
                    assert(false);
                }
                FlashAction::NextChunk
            },
        }
    }

    fn on_writing(&mut self, event: FlashEvent, cancelled: bool, due: bool) -> (action: FlashAction)
        requires
            old(self).wf(),
            old(self).accepts(event),
            old(self).stage == Stage::Writing,
        ensures
            step_post(*old(self), event, cancelled, due, *final(self), action),
    {
        match event {
            FlashEvent::Written => self.after_chunk_exec(due),
            FlashEvent::WriteFailed { error } => {
                let m = string_of(&concat(&chars_of("write error: "), &chars_of(error.as_str())));
                self.fail(m)
            },
            _ => {
                proof {
                    assert(false);
                }
                FlashAction::NextChunk
            },
        }
    }

    fn on_chunk_reported(&mut self, event: FlashEvent, cancelled: bool, due: bool) -> (action: FlashAction)
        requires
            old(self).wf(),
            old(self).accepts(event),
            old(self).stage == Stage::ChunkReported,
        ensures
            step_post(*old(self), event, cancelled, due, *final(self), action),
    {
        self.stage = Stage::Streaming;
        FlashAction::NextChunk
    }

    fn on_finalizing(&mut self, event: FlashEvent, cancelled: bool, due: bool) -> (action: FlashAction)
        requires
            old(self).wf(),
            old(self).accepts(event),
            old(self).stage == Stage::Finalizing,
        ensures
            step_post(*old(self), event, cancelled, due, *final(self), action),
    {
        let mut b = SectorBuffer::new();
        std::mem::swap(&mut b, &mut self.buffer);
        let tail = b.finish();
        proof {
            self.emitted@ = self.emitted@ + tail@;
            assert(self.emitted@ =~= self.accepted@ + zeros(pad_len(self.accepted@.len())));
            assert(self.emitted@.len() % (SECTOR as nat) == 0) by {
                vstd::arithmetic::div_mod::lemma_mod_adds(
                    old(self).emitted@.len() as int,
                    tail@.len() as int,
                    SECTOR as int,
                );
            }
        }
        self.stage = Stage::Flushing;
        FlashAction::Finish { data: tail }
    }

    fn on_flushing(&mut self, event: FlashEvent, cancelled: bool, due: bool) -> (action: FlashAction)
        requires
            old(self).wf(),
            old(self).accepts(event),
            old(self).stage == Stage::Flushing,
        ensures
            step_post(*old(self), event, cancelled, due, *final(self), action),
    {
        match event {
            FlashEvent::Finished => {
                let mut h = sha256_start();
                std::mem::swap(&mut h, &mut self.hasher);
                self.digest = sha256_finish(h);
                self.image_size = self.written;
                self.read_total = 0;
                proof {
                    self.read_back@ = Seq::empty();
                }
                if self.verify {
                    if cancelled {
                        self.fail(String::from_str("Cancelled"))
                    } else {
                        self.stage = Stage::OpeningRead;
                        FlashAction::OpenDeviceRead { device: self.device.clone() }
                    }
                } else {
                    self.stage = Stage::Over;
                    FlashAction::Done { result: Ok(()) }
                }
            },
            FlashEvent::FinishFailed { error } => {
                let m = string_of(&concat(&chars_of("finalize error: "), &chars_of(error.as_str())));
                self.fail(m)
            },
            _ => {
                proof {
                    assert(false);
                }
                FlashAction::NextChunk
            },
        }
    }

    fn on_opening_read(&mut self, event: FlashEvent, cancelled: bool, due: bool) -> (action: FlashAction)
        requires
            old(self).wf(),
            old(self).accepts(event),
            old(self).stage == Stage::OpeningRead,
        ensures
            step_post(*old(self), event, cancelled, due, *final(self), action),
    {
        match event {
            FlashEvent::DeviceOpened => self.verify_next_exec(cancelled),
            FlashEvent::DeviceFailed { error } => {
                let m = message_of("cannot reopen ", &chars_of(self.device.as_str()), " to verify: ", &chars_of(error.as_str()));
                self.fail(m)
            },
            _ => {
                proof {
                    assert(false);
                }
                FlashAction::NextChunk
            },
        }
    }

    fn on_reading(&mut self, event: FlashEvent, cancelled: bool, due: bool) -> (action: FlashAction)
        requires
            old(self).wf(),
            old(self).accepts(event),
            old(self).stage == Stage::Reading,
        ensures
            step_post(*old(self), event, cancelled, due, *final(self), action),
    {
        match event {
            FlashEvent::ReadDone { data } => {
                if data.len() == 0 {
                    self.compare_exec()
                } else {
                    let left = self.image_size - self.read_total;
                    let take: usize = if (data.len() as u64) < left {
                        data.len()
                    } else {
                        left as usize
                    };
                    let part = crate::sector::prefix(&data, take);
                    sha256_absorb(&mut self.hasher, part.as_slice());
                    self.read_total = self.read_total + take as u64;
                    proof {
                        self.read_back@ = self.read_back@ + data@.take(take as int);
                    }
                    if due {
                        let done = self.read_total;
                        let size = self.image_size;
                        self.stage = Stage::ReadReported;
                        FlashAction::Report { phase: String::from_str("verify"), done, total: size, timed: true }
                    } else {
                        self.verify_next_exec(cancelled)
                    }
                }
            },
            FlashEvent::ReadFailed { error } => {
                let m = string_of(&concat(&chars_of("verify read error: "), &chars_of(error.as_str())));
                self.fail(m)
            },
            _ => {
                proof {
                    assert(false);
                }
                FlashAction::NextChunk
            },
        }
    }

    fn on_read_reported(&mut self, event: FlashEvent, cancelled: bool, due: bool) -> (action: FlashAction)
        requires
            old(self).wf(),
            old(self).accepts(event),
            old(self).stage == Stage::ReadReported,
        ensures
            step_post(*old(self), event, cancelled, due, *final(self), action),
    {
        self.verify_next_exec(cancelled)
    }

    fn on_verified(&mut self, event: FlashEvent, cancelled: bool, due: bool) -> (action: FlashAction)
        requires
            old(self).wf(),
            old(self).accepts(event),
            old(self).stage == Stage::Verified,
        ensures
            step_post(*old(self), event, cancelled, due, *final(self), action),
    {
        self.stage = Stage::Over;
        FlashAction::Done { result: Ok(()) }
    }
}

/// What the device is given is the image itself: while the image streams
/// in, the bytes handed out to be written are whole sectors and, followed
/// by the bytes held back, make up exactly the image received so far; from
/// the final write on, they are the image followed by the zeros that fill
/// its last sector.
pub proof fn lemma_device_receives_image(run: FlashRun)
    requires
        run.wf(),
    ensures
        run.emitted().len() % (SECTOR as nat) == 0,
        (run.stage() == Stage::Streaming || run.stage() == Stage::Writing || run.stage()
            == Stage::ChunkReported || run.stage() == Stage::Finalizing) ==> run.emitted()
            + run.held() == run.accepted() && run.held().len() < SECTOR,
        (run.stage() == Stage::Flushing || run.stage() == Stage::OpeningRead || run.stage()
            == Stage::Reading || run.stage() == Stage::ReadReported || run.stage()
            == Stage::Verified) ==> run.emitted() == run.accepted() + zeros(
            pad_len(run.accepted().len()),
        ),
{
}

/// Every progress report counts at most its total.
pub proof fn lemma_reports_within_total(
    pre: FlashRun,
    event: FlashEvent,
    cancelled: bool,
    due: bool,
    post: FlashRun,
    action: FlashAction,
)
    requires
        pre.wf(),
        pre.accepts(event),
        step_post(pre, event, cancelled, due, post, action),
    ensures
        action matches FlashAction::Report { done, total, .. } ==> done <= total,
{
}

/// Verification passes only when what was read back from the device has the
/// digest of the image that was written: when a step ends the run
/// successfully after verifying, the bytes read back hash like the image.
pub proof fn lemma_checked_run_matches(
    pre: FlashRun,
    event: FlashEvent,
    cancelled: bool,
    due: bool,
    post: FlashRun,
    action: FlashAction,
)
    requires
        pre.wf(),
        pre.accepts(event),
        step_post(pre, event, cancelled, due, post, action),
        post.stage() == Stage::Verified,
    ensures
        sha256_digest(post.read_back()) == sha256_digest(post.accepted()),
{
}

/// How much the read-back asks for at once: never more than the read
/// buffer of [`READ_CHUNK`] bytes, always whole sectors, and (where what is
/// left of the image is a machine-sized count) at least one byte: all that
/// is left, rounded up to whole sectors, or a full buffer.
proof fn lemma_read_len_bounds(image_size: u64, read_total: u64)
    requires
        read_total < image_size,
    ensures
        read_len_spec(image_size, read_total) <= READ_CHUNK,
        read_len_spec(image_size, read_total) % SECTOR == 0,
        image_size - read_total <= usize::MAX ==> {
            let len = read_len_spec(image_size, read_total);
            &&& len > 0
            &&& len == READ_CHUNK || (image_size - read_total <= len < image_size - read_total + SECTOR)
        },
{
    let remaining = (image_size - read_total) as usize;
    let sectors = remaining / SECTOR + if remaining % SECTOR == 0 {
        0usize
    } else {
        1usize
    };
    if image_size - read_total <= usize::MAX {
        assert(remaining == image_size - read_total);
    }
    if sectors <= usize::MAX / SECTOR {
        assert(sectors * SECTOR <= usize::MAX) by (nonlinear_arith)
            requires
                sectors <= usize::MAX / SECTOR,
                SECTOR == 4096,
        ;
        assert(remaining <= sectors * SECTOR < remaining + SECTOR);
    }
    assert(READ_CHUNK % SECTOR == 0);
}

/// Every read the read-back asks of the device fits its read buffer: a
/// [`FlashAction::Read`] asks for at most [`READ_CHUNK`] bytes, in whole
/// sectors, only while bytes of the image are left unchecked, and (where
/// what is left is a machine-sized count) for at least all that is left or
/// a full buffer, so never for nothing.
pub proof fn lemma_reads_fit_buffer(
    pre: FlashRun,
    event: FlashEvent,
    cancelled: bool,
    due: bool,
    post: FlashRun,
    action: FlashAction,
)
    requires
        pre.wf(),
        pre.accepts(event),
        step_post(pre, event, cancelled, due, post, action),
    ensures
        action matches FlashAction::Read { len } ==> {
            &&& len <= READ_CHUNK
            &&& len % SECTOR == 0
            &&& post.read_total() < post.image_size()
            &&& post.image_size() - post.read_total() <= usize::MAX ==> len > 0 && (len == READ_CHUNK
                || post.image_size() - post.read_total() <= len)
        },
{
    if action is Read {
        lemma_read_len_bounds(post.image_size(), post.read_total());
    }
}

} // verus!
