//! Streaming a response body to a file: the byte counter and the progress
//! indicator. The caller reads and writes; after every read it reports what
//! happened and is told what to do next.

use vstd::prelude::*;
use vstd::arithmetic::div_mod::lemma_div_multiples_vanish;
use crate::error::{IoError, IoStage};
use crate::text::{decimal, digit_char, push_decimal};

verus! {

/// The size of the buffer to read the body with.
pub const CHUNK_SIZE: usize = 8192;

/// The number of characters between the brackets of the progress bar.
pub const BAR_WIDTH: u64 = 50;

/// How many characters of the bar are filled: the whole part of
/// `50 * downloaded / total`, and never more than the bar holds.
pub open spec fn bar_filled(downloaded: nat, total: nat) -> nat
    recommends
        total > 0,
{
    if 50 * downloaded / total >= 50 {
        50
    } else {
        50 * downloaded / total
    }
}

/// The share that is downloaded, in hundredths of a percent, rounded down.
pub open spec fn percent_hundredths(downloaded: nat, total: nat) -> nat
    recommends
        total > 0,
{
    10000 * downloaded / total
}

/// `n` copies of `c`.
pub open spec fn repeated(c: char, n: nat) -> Seq<char> {
    Seq::new(n, |i: int| c)
}

/// The bar: `filled` marks, then blanks up to the width of the bar.
pub open spec fn bar_text(filled: nat) -> Seq<char>
    recommends
        filled <= 50,
{
    repeated('#', filled) + repeated(' ', (50 - filled) as nat)
}

/// A percentage with two decimals, from hundredths of a percent.
pub open spec fn percent_text(hundredths: nat) -> Seq<char> {
    decimal(hundredths / 100) + seq!['.', digit_char(hundredths % 100 / 10), digit_char(
        hundredths % 10,
    )]
}

/// The progress indicator. It starts with a carriage return, so that it
/// overwrites the line written before it.
pub open spec fn progress_text(downloaded: nat, total: nat) -> Seq<char>
    recommends
        total > 0,
{
    "\rProgress: ["@ + bar_text(bar_filled(downloaded, total)) + "] "@ + percent_text(
        percent_hundredths(downloaded, total),
    ) + "% ("@ + decimal(downloaded) + "/"@ + decimal(total) + ")"@
}

/// The line that announces the download; an unknown size is written as 0.
pub open spec fn banner_text(total: Option<u64>) -> Seq<char> {
    "Starting download of "@ + decimal(
        match total {
            Some(t) => t as nat,
            None => 0,
        },
    ) + " bytes..."@
}

/// What the caller saw when it tried to read or write.
#[derive(Clone, Debug, PartialEq, Eq)]
pub enum StreamEvent {
    /// A read returned this many bytes; zero is the end of the stream.
    Read(usize),
    /// A read failed.
    ReadFailed(String),
    /// Writing the last chunk to the file failed.
    WriteFailed(String),
}

/// What the caller does next.
#[derive(Clone, Debug, PartialEq, Eq)]
pub enum DownloadStep {
    /// Write the `len` bytes just read to the file, then show `progress`
    /// (if any) and read again.
    Write { len: usize, progress: Option<String> },
    /// The stream has ended: the file is complete.
    Finished,
    /// Stop. What was written so far stays in the file.
    Aborted(IoError),
}

/// The state of one download: the size the response declared, if any, and
/// the bytes received so far.
#[derive(Clone, Copy, Debug, PartialEq, Eq, Structural)]
pub struct Download {
    pub total: Option<u64>,
    pub downloaded: u64,
}

/// The sum of the sizes of `chunks`.
pub open spec fn received(chunks: Seq<usize>) -> nat
    decreases chunks.len(),
{
    if chunks.len() == 0 {
        0
    } else {
        received(chunks.drop_last()) + chunks.last() as nat
    }
}

impl Download {
    /// Whether a progress bar is shown: only for a declared, non-zero size.
    pub open spec fn shows_bar(self) -> bool {
        self.total matches Some(t) && t > 0
    }

    /// The state after `len` more bytes.
    pub open spec fn advanced(self, len: usize) -> Download {
        Download { total: self.total, downloaded: (self.downloaded + len) as u64 }
    }

    /// The state after the chunks of `chunks`, one after another.
    pub open spec fn after(self, chunks: Seq<usize>) -> Download
        decreases chunks.len(),
    {
        if chunks.len() == 0 {
            self
        } else {
            self.after(chunks.drop_last()).advanced(chunks.last())
        }
    }

    /// The indicator to show in state `self`, if any.
    pub open spec fn indicator(self) -> Option<Seq<char>> {
        match self.total {
            Some(t) if t > 0 => Some(progress_text(self.downloaded as nat, t as nat)),
            _ => None,
        }
    }

    /// The state before the first read.
    pub open spec fn begun(content_length: Option<u64>) -> Download {
        Download { total: content_length, downloaded: 0 }
    }

    /// A download of a body whose declared size is `content_length`.
    pub fn begin(content_length: Option<u64>) -> (d: Download)
        ensures
            d == Download::begun(content_length),
    {
        Download { total: content_length, downloaded: 0 }
    }

    /// The line to print before the first read.
    pub fn banner(&self) -> (s: String)
        ensures
            s@ == banner_text(self.total),
    {
        let size: u64 = match self.total {
            Some(t) => t,
            None => 0,
        };
        let mut s = "Starting download of ".to_owned();
        push_decimal(&mut s, size as u128);
        s.append(" bytes...");
        s
    }

    /// The line to print once the download has finished.
    pub fn completion_message() -> (s: String)
        ensures
            s@ == "\nDownload completed successfully"@,
    {
        "\nDownload completed successfully".to_owned()
    }

    /// The progress indicator for the current state; `None` where the
    /// response declared no size.
    pub fn progress(&self) -> (line: Option<String>)
        ensures
            line is Some <==> self.shows_bar(),
            line matches Some(s) ==> self.indicator() == Some(s@),
    {
        match self.total {
            Some(total) if total > 0 => {
                let filled = filled_width(self.downloaded, total);
                let hundredths: u128 = 10000u128 * (self.downloaded as u128) / (total as u128);
                let mut s = "\rProgress: [".to_owned();
                push_repeated(&mut s, '#', filled);
                push_repeated(&mut s, ' ', BAR_WIDTH - filled);
                s.append("] ");
                push_percent(&mut s, hundredths);
                s.append("% (");
                push_decimal(&mut s, self.downloaded as u128);
                s.append("/");
                push_decimal(&mut s, total as u128);
                s.append(")");
                assert(s@ =~= progress_text(self.downloaded as nat, total as nat));
                Some(s)
            },
            _ => None,
        }
    }

    /// Takes in what the caller saw and says what to do next. A read of
    /// `len > 0` bytes adds `len` to the counter and asks for the chunk to be
    /// written; a read of nothing ends the download; a failure aborts it and
    /// leaves the counter as it is.
    pub fn step(&mut self, event: StreamEvent) -> (next: DownloadStep)
        requires
            event matches StreamEvent::Read(len) ==> old(self).downloaded + len <= u64::MAX,
        ensures
            match event {
                StreamEvent::Read(len) => if len == 0 {
                    &&& next is Finished
                    &&& *final(self) == *old(self)
                } else {
                    &&& *final(self) == old(self).advanced(len)
                    &&& final(self).downloaded == old(self).downloaded + len
                    &&& next matches DownloadStep::Write { len: n, progress }
                    &&& n == len
                    &&& progress is Some <==> final(self).shows_bar()
                    &&& progress matches Some(s) ==> final(self).indicator() == Some(s@)
                },
                StreamEvent::ReadFailed(detail) => {
                    &&& *final(self) == *old(self)
                    &&& next matches DownloadStep::Aborted(e)
                    &&& e.stage == IoStage::Read
                    &&& e.detail@ == detail@
                },
                StreamEvent::WriteFailed(detail) => {
                    &&& *final(self) == *old(self)
                    &&& next matches DownloadStep::Aborted(e)
                    &&& e.stage == IoStage::Write
                    &&& e.detail@ == detail@
                },
            },
    {
        match event {
            StreamEvent::Read(len) => {
                if len == 0 {
                    DownloadStep::Finished
                } else {
                    self.downloaded = self.downloaded + len as u64;
                    let progress = self.progress();
                    DownloadStep::Write { len, progress }
                }
            },
            StreamEvent::ReadFailed(detail) => DownloadStep::Aborted(
                IoError { stage: IoStage::Read, detail },
            ),
            StreamEvent::WriteFailed(detail) => DownloadStep::Aborted(
                IoError { stage: IoStage::Write, detail },
            ),
        }
    }
}

/// The filled part of the bar for `downloaded` of `total` bytes.
pub fn filled_width(downloaded: u64, total: u64) -> (filled: u64)
    requires
        total > 0,
    ensures
        filled == bar_filled(downloaded as nat, total as nat),
        filled <= BAR_WIDTH,
{
    let scaled: u128 = 50u128 * (downloaded as u128) / (total as u128);
    if scaled >= 50 {
        50
    } else {
        scaled as u64
    }
}

fn push_repeated(out: &mut String, c: char, n: u64)
    ensures
        final(out)@ == old(out)@ + repeated(c, n as nat),
{
    let mut i: u64 = 0;
    while i < n
        invariant
            i <= n,
            out@ == old(out)@ + repeated(c, i as nat),
        decreases n - i,
    {
        out.push(c);
        i += 1;
        assert(out@ =~= old(out)@ + repeated(c, i as nat));
    }
}

fn push_percent(out: &mut String, hundredths: u128)
    ensures
        final(out)@ == old(out)@ + percent_text(hundredths as nat),
{
    push_decimal(out, hundredths / 100);
    out.push('.');
    let ghost mid = out@;
    push_decimal(out, hundredths % 100 / 10);
    push_decimal(out, hundredths % 10);
    proof {
        let a = (hundredths % 100 / 10) as nat;
        let b = (hundredths % 10) as nat;
        assert(decimal(a) =~= seq![digit_char(a)]);
        assert(decimal(b) =~= seq![digit_char(b)]);
        assert(out@ =~= old(out)@ + percent_text(hundredths as nat));
    }
}

/// The counter never goes down: after more chunks it is at least what it
/// was after fewer, as long as the sum of all chunks fits the counter.
pub proof fn lemma_counter_monotone(start: Download, chunks: Seq<usize>, i: int, j: int)
    requires
        0 <= i <= j <= chunks.len(),
        start.downloaded + received(chunks) <= u64::MAX,
    ensures
        start.after(chunks.take(i)).downloaded <= start.after(chunks.take(j)).downloaded,
        start.after(chunks.take(j)).downloaded == start.downloaded + received(chunks.take(j)),
        received(chunks.take(j)) <= received(chunks),
{
    lemma_counter_is_sum(start, chunks, i);
    lemma_counter_is_sum(start, chunks, j);
    lemma_received_grows(chunks, i, j);
}

/// A longer part of the stream holds at least as many bytes.
pub proof fn lemma_received_grows(chunks: Seq<usize>, i: int, j: int)
    requires
        0 <= i <= j <= chunks.len(),
    ensures
        received(chunks.take(i)) <= received(chunks.take(j)),
    decreases j - i,
{
    if i < j {
        lemma_received_grows(chunks, i, j - 1);
        assert(chunks.take(j).drop_last() =~= chunks.take(j - 1));
    }
}

/// After the first `k` chunks the counter holds what it started with plus
/// their sizes.
pub proof fn lemma_counter_is_sum(start: Download, chunks: Seq<usize>, k: int)
    requires
        0 <= k <= chunks.len(),
        start.downloaded + received(chunks) <= u64::MAX,
    ensures
        start.after(chunks.take(k)).downloaded == start.downloaded + received(chunks.take(k)),
        start.after(chunks.take(k)).total == start.total,
        received(chunks.take(k)) <= received(chunks),
    decreases k,
{
    lemma_received_grows(chunks, k, chunks.len() as int);
    assert(chunks.take(chunks.len() as int) =~= chunks);
    if k > 0 {
        lemma_counter_is_sum(start, chunks, k - 1);
        assert(chunks.take(k).drop_last() =~= chunks.take(k - 1));
    }
}

/// A body of declared size `total` that arrives whole, in any chunks, leaves
/// the counter at exactly `total`, the bar full and the percentage at 100.
pub proof fn lemma_clean_stream_ends_at_total(total: u64, chunks: Seq<usize>)
    requires
        total > 0,
        received(chunks) == total,
    ensures
        Download::begun(Some(total)).after(chunks).downloaded == total,
        bar_filled(total as nat, total as nat) == 50,
        percent_hundredths(total as nat, total as nat) == 10000,
{
    let start = Download::begun(Some(total));
    lemma_counter_is_sum(start, chunks, chunks.len() as int);
    assert(chunks.take(chunks.len() as int) =~= chunks);
    lemma_div_multiples_vanish(50, total as int);
    lemma_div_multiples_vanish(10000, total as int);
    assert(50 * (total as nat) == 50 * (total as int));
    assert(10000 * (total as nat) == 10000 * (total as int));
}

} // verus!
