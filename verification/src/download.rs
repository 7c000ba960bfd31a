//! Fetching whisper models at runtime: which file to ask for, where it is
//! written while it arrives, and whether what arrived is complete.
//!
//! Shipping a 141 MB model inside the installer would make every update a
//! 141 MB download, so the app fetches it on first run instead.

use vstd::prelude::*;
use crate::catalog::{model_for, spec_for};
use crate::paths::{file_name, path_file_name, path_with_file_name, with_file_name};
use crate::text::{chars_of, push_char};

verus! {

/// 64 KiB is large enough that the syscall overhead disappears and small
/// enough that progress still updates smoothly.
pub const CHUNK: usize = 65536;

/// Why a download was refused or failed.
#[derive(Debug)]
pub enum DownloadError {
    /// The file is not in the catalogue.
    UnknownModel(String),
    /// The server closed early: `received` bytes of the announced `total`.
    Incomplete { received: u64, total: u64 },
    /// The request did not reach the model server.
    Unreachable(String),
    /// Reading the response failed part-way.
    Interrupted(String),
    /// Writing the partial file failed.
    WriteFailed(String),
    /// A file-system step failed (creating the directory or the file,
    /// flushing, renaming).
    Io(String),
}

/// Where models are fetched from.
pub open spec fn base_url() -> Seq<char> {
    "https://huggingface.co/ggerganov/whisper.cpp/resolve/main"@
}

/// The address of a model file on the server.
pub open spec fn url_of(file: Seq<char>) -> Seq<char> {
    base_url() + "/"@ + file
}

/// The address to fetch `file` from, or `UnknownModel` when the catalogue
/// does not list it.
pub fn model_url(file: &str) -> (url: Result<String, DownloadError>)
    ensures
        match url {
            Ok(u) => model_for(file@) is Some && u@ == url_of(file@),
            Err(e) => model_for(file@) is None && (e matches DownloadError::UnknownModel(f)
                && f@ == file@),
        },
{
    if spec_for(file).is_none() {
        return Err(DownloadError::UnknownModel(String::from_str(file)));
    }
    let mut url = String::from_str("https://huggingface.co/ggerganov/whisper.cpp/resolve/main");
    url.append("/");
    url.append(file);
    Ok(url)
}


/// The name of the file a download is written to while it arrives: the
/// model's own file name (or "model" when the destination has none) with
/// ".partial" appended, so that the extension is kept rather than replaced.
pub open spec fn partial_name(name: Option<Seq<char>>) -> Seq<char> {
    match name {
        Some(n) => n + ".partial"@,
        None => "model"@ + ".partial"@,
    }
}

/// The sibling of `dest` that a download is written to. Renaming it to
/// `dest` only once the download is complete means a truncated model file
/// never sits where whisper.cpp would load it.
pub fn partial_path(dest: &str) -> (partial: String)
    ensures
        partial@ == path_with_file_name(dest@, partial_name(path_file_name(dest@))),
{
    let mut name = match file_name(dest) {
        Some(n) => n,
        None => String::from_str("model"),
    };
    name.append(".partial");
    with_file_name(dest, name.as_str())
}

// ------------------------------------------------------ content length

/// `c` is one of the ASCII digits.
pub open spec fn is_digit(c: char) -> bool {
    0x30 <= (c as u32) <= 0x39
}

/// The value of a digit.
pub open spec fn digit_value(c: char) -> int {
    (c as u32) as int - 0x30
}

/// The number that the decimal digits `d` write.
pub open spec fn decimal_value(d: Seq<char>) -> int
    decreases d.len(),
{
    if d.len() == 0 {
        0
    } else {
        decimal_value(d.drop_last()) * 10 + digit_value(d.last())
    }
}

/// Every character of `d` is a digit.
pub open spec fn all_digits(d: Seq<char>) -> bool {
    forall|i: int| 0 <= i < d.len() ==> is_digit(#[trigger] d[i])
}

/// What `str::parse::<u64>` gives for `s`: an optional `+` followed by at
/// least one digit and nothing else, whose value fits in 64 bits.
pub open spec fn parsed_u64(s: Seq<char>) -> Option<u64> {
    let d = if s.len() > 0 && s[0] == '+' {
        s.drop_first()
    } else {
        s
    };
    if d.len() > 0 && all_digits(d) && decimal_value(d) <= u64::MAX {
        Some(decimal_value(d) as u64)
    } else {
        None
    }
}

/// The size a response announces: the value of its `content-length`
/// header, or 0 when it has none or the header is not a number.
pub open spec fn announced_length(header: Option<Seq<char>>) -> u64 {
    match header {
        Some(h) => match parsed_u64(h) {
            Some(n) => n,
            None => 0,
        },
        None => 0,
    }
}

proof fn lemma_decimal_value_grows(d: Seq<char>, k: int)
    requires
        0 <= k <= d.len(),
        all_digits(d),
    ensures
        0 <= decimal_value(d.take(k)) <= decimal_value(d),
    decreases d.len() - k,
{
    if k < d.len() {
        lemma_decimal_value_grows(d, k + 1);
        let p = d.take(k + 1);
        assert(p.drop_last() =~= d.take(k));
        assert(p.last() == d[k]);
        assert(is_digit(d[k]));
        lemma_decimal_value_nonneg(d.take(k));
    } else {
        assert(d.take(k) =~= d);
        lemma_decimal_value_nonneg(d);
    }
}

proof fn lemma_decimal_value_nonneg(d: Seq<char>)
    requires
        all_digits(d),
    ensures
        decimal_value(d) >= 0,
    decreases d.len(),
{
    if d.len() > 0 {
        let p = d.drop_last();
        assert(all_digits(p)) by {
            assert forall|i: int| 0 <= i < p.len() implies is_digit(#[trigger] p[i]) by {
                assert(p[i] == d[i]);
            }
        }
        lemma_decimal_value_nonneg(p);
        assert(is_digit(d[d.len() - 1]));
    }
}

/// Reads a decimal number the way `str::parse::<u64>` does.
pub fn parse_u64(s: &str) -> (n: Option<u64>)
    ensures
        n == parsed_u64(s@),
{
    let chars = chars_of(s);
    let start: usize = if chars.len() > 0 && chars[0] == '+' { 1 } else { 0 };
    let ghost d = if s@.len() > 0 && s@[0] == '+' { s@.drop_first() } else { s@ };
    assert(d =~= chars@.skip(start as int));
    assert(parsed_u64(s@) == if d.len() > 0 && all_digits(d) && decimal_value(d) <= u64::MAX {
        Some(decimal_value(d) as u64)
    } else {
        None::<u64>
    });
    if start >= chars.len() {
        return None;
    }
    let mut value: u64 = 0;
    let mut i: usize = start;
    while i < chars.len()
        invariant
            start <= i <= chars.len(),
            d == chars@.skip(start as int),
            d.len() > 0,
            parsed_u64(s@) == if d.len() > 0 && all_digits(d) && decimal_value(d) <= u64::MAX {
                Some(decimal_value(d) as u64)
            } else {
                None::<u64>
            },
            all_digits(d.take(i - start)),
            value == decimal_value(d.take(i - start)),
        decreases chars.len() - i,
    {
        let c = chars[i];
        let ghost k = (i - start) as int;
        assert(d[k] == c);
        let code = c as u32;
        if !(0x30 <= code && code <= 0x39) {
            assert(!all_digits(d)) by {
                assert(!is_digit(d[k]));
            }
            return None;
        }
        let digit = (code - 0x30) as u64;
        let ghost next = d.take(k + 1);
        assert(next.drop_last() =~= d.take(k));
        assert(next.last() == c);
        assert(all_digits(next)) by {
            assert forall|j: int| 0 <= j < next.len() implies is_digit(#[trigger] next[j]) by {
                if j < k {
                    assert(next[j] == d.take(k)[j]);
                }
            }
        }
        if value > (u64::MAX - digit) / 10 {
            proof {
                assert(next == d.take(k + 1));
                assert(decimal_value(next) > u64::MAX) by (nonlinear_arith)
                    requires
                        decimal_value(next) == value * 10 + digit,
                        value > (u64::MAX - digit) / 10,
                        0 <= digit <= 9,
                ;
                let rest_ok = all_digits(d);
                if rest_ok {
                    lemma_decimal_value_grows(d, k + 1);
                }
            }
            return None;
        }
        assert(value * 10 + digit <= u64::MAX) by (nonlinear_arith)
            requires
                value <= (u64::MAX - digit) / 10,
                0 <= digit <= 9,
        ;
        value = value * 10 + digit;
        i = i + 1;
    }
    assert(d.take(d.len() as int) =~= d);
    Some(value)
}

/// The size a response announces, from its `content-length` header: 0 when
/// the header is missing or not a number.
pub fn announced_size(header: Option<&str>) -> (total: u64)
    ensures
        total == announced_length(
            match header {
                Some(h) => Some(h@),
                None => None,
            },
        ),
{
    match header {
        Some(h) => match parse_u64(h) {
            Some(n) => n,
            None => 0,
        },
        None => 0,
    }
}


// ------------------------------------------------------------- progress

/// The whole percentage of `total` that `received` bytes make, kept to a
/// byte the way `as u8` keeps it; 0 while the total is unknown.
pub open spec fn percent_of(received: u64, total: u64) -> u8 {
    if total > 0 {
        (((received * 100) / (total as int)) % 256) as u8
    } else {
        0
    }
}

/// How far a download has got, in percent of the announced size.
pub fn progress_percent(received: u64, total: u64) -> (percent: u8)
    requires
        received <= u64::MAX / 100,
    ensures
        percent == percent_of(received, total),
{
    if total > 0 {
        let whole = (received * 100) / total;
        (whole % 256) as u8
    } else {
        0
    }
}

/// The percentage of a download that has not overrun its announced size is
/// the floor of `received * 100 / total`: between 0 and 100, never smaller
/// for more bytes, 50 at half the size and 100 at the full size.
pub proof fn lemma_percent_is_floor(received: u64, more: u64, total: u64)
    requires
        0 < total,
        received <= more <= total,
    ensures
        percent_of(received, total) as int == (received as int * 100) / (total as int),
        percent_of(received, total) <= 100,
        percent_of(received, total) <= percent_of(more, total),
        2 * (received as int) == total as int ==> percent_of(received, total) == 50,
        received == total ==> percent_of(received, total) == 100,
{
    let t = total as int;
    let a = received as int * 100;
    let b = more as int * 100;
    assert(0 <= a / t <= 100) by (nonlinear_arith)
        requires
            0 <= a <= t * 100,
            t > 0,
    ;
    assert(0 <= b / t <= 100) by (nonlinear_arith)
        requires
            0 <= b <= t * 100,
            t > 0,
    ;
    assert(a / t <= b / t) by (nonlinear_arith)
        requires
            0 <= a <= b,
            t > 0,
    ;
    if 2 * (received as int) == t {
        assert(a / t == 50) by (nonlinear_arith)
            requires
                a == 50 * t,
                t > 0,
        ;
    }
    if received == total {
        assert(a / t == 100) by (nonlinear_arith)
            requires
                a == 100 * t,
                t > 0,
        ;
    }
}

/// A download that announced its size is accepted exactly when that many
/// bytes arrived, no more and no fewer; one that announced none is accepted
/// whatever arrived.
pub proof fn lemma_complete_means_exact(received: u64, total: u64)
    ensures
        total > 0 ==> (download_complete(received, total) <==> received == total),
        total == 0 ==> download_complete(received, total),
{
}

/// What a reporter that last reported `last` reports for `percent`.
pub open spec fn progress_report(last: u8, percent: u8) -> Option<u8> {
    if percent == last {
        None
    } else {
        Some(percent)
    }
}

/// One report per percent: a percentage is reported when it differs from
/// the last one, and a second chunk that leaves it unchanged reports
/// nothing.
pub proof fn lemma_one_report_per_percent(last: u8, r1: u64, r2: u64, total: u64)
    requires
        percent_of(r1, total) == percent_of(r2, total),
    ensures
        progress_report(last, percent_of(r1, total)) is Some <==> percent_of(r1, total) != last,
        progress_report(percent_of(r1, total), percent_of(r2, total)) is None,
{
}

/// Decides which progress updates are worth sending: emitting on every
/// 64 KiB chunk would be thousands of events for no visible benefit, one per
/// percent is plenty for a progress bar.
pub struct ProgressReporter {
    last_percent: u8,
}

impl ProgressReporter {
    /// The percentage most recently reported (255 before the first report).
    pub closed spec fn last(&self) -> u8 {
        self.last_percent
    }

    /// A reporter that has reported nothing yet.
    pub fn new() -> (r: ProgressReporter)
        ensures
            r.last() == u8::MAX,
    {
        ProgressReporter { last_percent: u8::MAX }
    }

    /// The percentage to report after `received` of `total` bytes, or `None`
    /// when it is the one reported last.
    pub fn update(&mut self, received: u64, total: u64) -> (report: Option<u8>)
        requires
            received <= u64::MAX / 100,
        ensures
            final(self).last() == percent_of(received, total),
            report == progress_report(old(self).last(), percent_of(received, total)),
    {
        let percent = progress_percent(received, total);
        if percent != self.last_percent {
            self.last_percent = percent;
            Some(percent)
        } else {
            None
        }
    }
}

/// The byte count of a download in progress, against the size the server
/// announced (0 when it announced none).
pub struct DownloadTally {
    received: u64,
    total: u64,
}

impl DownloadTally {
    /// Bytes received so far.
    pub closed spec fn received_bytes(&self) -> u64 {
        self.received
    }

    /// The announced size.
    pub closed spec fn total_bytes(&self) -> u64 {
        self.total
    }

    /// Nothing received yet, `total` announced.
    pub fn new(total: u64) -> (t: DownloadTally)
        ensures
            t.received_bytes() == 0,
            t.total_bytes() == total,
    {
        DownloadTally { received: 0, total }
    }

    /// Counts a chunk of `n` bytes and returns the new `(received, total)`
    /// to report.
    pub fn add(&mut self, n: u64) -> (progress: (u64, u64))
        requires
            old(self).received_bytes() + n <= u64::MAX,
        ensures
            final(self).received_bytes() == old(self).received_bytes() + n,
            final(self).total_bytes() == old(self).total_bytes(),
            progress == (final(self).received_bytes(), final(self).total_bytes()),
    {
        self.received = self.received + n;
        (self.received, self.total)
    }

    /// Bytes received so far.
    pub fn received(&self) -> (r: u64)
        ensures
            r == self.received_bytes(),
    {
        self.received
    }

    /// Whether the download may be kept: a server that closes early leaves a
    /// plausible-looking short file, so when a size was announced the count
    /// must match it exactly.
    pub fn finish(&self) -> (verdict: Result<(), DownloadError>)
        ensures
            verdict is Ok <==> download_complete(self.received_bytes(), self.total_bytes()),
            verdict matches Err(e) ==> e == (DownloadError::Incomplete {
                received: self.received_bytes(),
                total: self.total_bytes(),
            }),
    {
        if self.total > 0 && self.received != self.total {
            Err(DownloadError::Incomplete { received: self.received, total: self.total })
        } else {
            Ok(())
        }
    }
}


// ------------------------------------------------------------- messages

/// The decimal digit for `d` (0 to 9).
pub open spec fn digit_char(d: nat) -> char {
    seq!['0', '1', '2', '3', '4', '5', '6', '7', '8', '9'][d as int]
}

/// The decimal text of `n`, as `u64`'s `Display` writes it.
pub open spec fn decimal_of(n: nat) -> Seq<char>
    decreases n,
{
    if n < 10 {
        seq![digit_char(n)]
    } else {
        decimal_of(n / 10) + seq![digit_char(n % 10)]
    }
}

/// The decimal digit for `d`.
fn digit_char_of(d: u64) -> (c: char)
    requires
        d < 10,
    ensures
        c == digit_char(d as nat),
{
    let c = if d == 0 {
        '0'
    } else if d == 1 {
        '1'
    } else if d == 2 {
        '2'
    } else if d == 3 {
        '3'
    } else if d == 4 {
        '4'
    } else if d == 5 {
        '5'
    } else if d == 6 {
        '6'
    } else if d == 7 {
        '7'
    } else if d == 8 {
        '8'
    } else {
        '9'
    };
    c
}

/// Appends the decimal text of `n` to `s`.
fn push_decimal(s: &mut String, n: u64)
    ensures
        final(s)@ == old(s)@ + decimal_of(n as nat),
    decreases n,
{
    if n >= 10 {
        push_decimal(s, n / 10);
    }
    let c = digit_char_of(n % 10);
    push_char(s, c);
    proof {
        if n >= 10 {
            assert(old(s)@ + decimal_of((n / 10) as nat) + seq![c] =~= old(s)@ + decimal_of(
                n as nat,
            ));
        } else {
            assert(old(s)@ + seq![c] =~= old(s)@ + decimal_of(n as nat));
        }
    }
}

proof fn lemma_digit_char(d: nat)
    requires
        d < 10,
    ensures
        is_digit(digit_char(d)),
        digit_value(digit_char(d)) == d,
        digit_char(d) != '+',
{
}

proof fn lemma_decimal_of_digits(n: nat)
    ensures
        decimal_of(n).len() > 0,
        all_digits(decimal_of(n)),
        decimal_of(n)[0] != '+',
        decimal_value(decimal_of(n)) == n,
    decreases n,
{
    let t = decimal_of(n);
    lemma_digit_char(n % 10);
    if n < 10 {
        assert(t.drop_last() =~= Seq::<char>::empty());
        assert(t.last() == digit_char(n));
        assert(n % 10 == n);
        assert(decimal_value(t.drop_last()) == 0);
        assert(decimal_value(t) == decimal_value(t.drop_last()) * 10 + digit_value(t.last()));
        assert(is_digit(t[0]));
    } else {
        lemma_decimal_of_digits(n / 10);
        let h = decimal_of(n / 10);
        assert(t.drop_last() =~= h);
        assert(t.last() == digit_char(n % 10));
        assert(decimal_value(t) == decimal_value(h) * 10 + digit_value(t.last()));
        assert(n == (n / 10) * 10 + n % 10);
        assert(t[0] == h[0]);
        assert forall|i: int| 0 <= i < t.len() implies is_digit(#[trigger] t[i]) by {
            if i < h.len() {
                assert(t[i] == h[i]);
            }
        }
    }
}

/// Reading back what was written: the decimal text of a number parses to
/// that number.
pub proof fn lemma_decimal_round_trip(n: u64)
    ensures
        parsed_u64(decimal_of(n as nat)) == Some(n),
{
    lemma_decimal_of_digits(n as nat);
}

/// The message a download error shows.
pub open spec fn error_message(e: DownloadError) -> Seq<char> {
    match e {
        DownloadError::UnknownModel(file) => "unknown model: "@ + file@,
        DownloadError::Incomplete { received, total } => "download incomplete: got "@ + decimal_of(
            received as nat,
        ) + " of "@ + decimal_of(total as nat) + " bytes"@,
        DownloadError::Unreachable(reason) => "could not reach Hugging Face: "@ + reason@,
        DownloadError::Interrupted(reason) => "download interrupted: "@ + reason@,
        DownloadError::WriteFailed(reason) => "could not write model: "@ + reason@,
        DownloadError::Io(reason) => reason@,
    }
}

impl DownloadError {
    /// What the user is told.
    pub fn message(&self) -> (msg: String)
        ensures
            msg@ == error_message(*self),
    {
        match self {
            DownloadError::UnknownModel(file) => {
                let mut msg = String::from_str("unknown model: ");
                msg.append(file.as_str());
                msg
            },
            DownloadError::Incomplete { received, total } => {
                let mut msg = String::from_str("download incomplete: got ");
                push_decimal(&mut msg, *received);
                msg.append(" of ");
                push_decimal(&mut msg, *total);
                msg.append(" bytes");
                msg
            },
            DownloadError::Unreachable(reason) => {
                let mut msg = String::from_str("could not reach Hugging Face: ");
                msg.append(reason.as_str());
                msg
            },
            DownloadError::Interrupted(reason) => {
                let mut msg = String::from_str("download interrupted: ");
                msg.append(reason.as_str());
                msg
            },
            DownloadError::WriteFailed(reason) => {
                let mut msg = String::from_str("could not write model: ");
                msg.append(reason.as_str());
                msg
            },
            DownloadError::Io(reason) => reason.clone(),
        }
    }
}

// ----------------------------------------------------------- the transfer

/// The next thing a download does.
#[derive(Debug)]
pub enum FetchAction {
    /// Write the `n` bytes just read to the partial file.
    Write(usize),
    /// Report `(received, total)` and read the next chunk.
    Progress(u64, u64),
    /// The response has ended: flush the partial file.
    Flush,
    /// Move the partial file to the destination: the download is complete.
    Rename,
    /// Give up with `error`; first remove the partial file when
    /// `remove_partial`.
    Fail { error: DownloadError, remove_partial: bool },
}

/// A download whose response is being copied into the partial file. The
/// partial file is renamed to the destination only once the response has
/// ended, the file is flushed and the byte count is complete: a truncated
/// model file is worse than a missing one, because whisper.cpp fails on it
/// with an error that says nothing about the download.
pub struct FetchJob {
    tally: DownloadTally,
}

impl FetchJob {
    /// Bytes received so far.
    pub closed spec fn received_bytes(&self) -> u64 {
        self.tally.received_bytes()
    }

    /// The announced size (0 when none was announced).
    pub closed spec fn total_bytes(&self) -> u64 {
        self.tally.total_bytes()
    }

    /// A download of a response announcing `total` bytes.
    pub fn new(total: u64) -> (job: FetchJob)
        ensures
            job.received_bytes() == 0,
            job.total_bytes() == total,
    {
        FetchJob { tally: DownloadTally::new(total) }
    }

    /// Bytes received so far.
    pub fn received(&self) -> (r: u64)
        ensures
            r == self.received_bytes(),
    {
        self.tally.received()
    }

    /// A read of the response gave `result`: the number of bytes read (0 at
    /// the end of the response) or the reason it failed.
    pub fn read(&self, result: Result<usize, String>) -> (action: FetchAction)
        ensures
            match result {
                Ok(n) => if n == 0 {
                    action is Flush
                } else {
                    action == FetchAction::Write(n)
                },
                Err(reason) => action matches FetchAction::Fail { error, remove_partial }
                    && remove_partial && error == DownloadError::Interrupted(reason),
            },
    {
        match result {
            Ok(0) => FetchAction::Flush,
            Ok(n) => FetchAction::Write(n),
            Err(reason) => FetchAction::Fail {
                error: DownloadError::Interrupted(reason),
                remove_partial: true,
            },
        }
    }

    /// Writing `n` bytes to the partial file gave `result`.
    pub fn written(&mut self, n: usize, result: Result<(), String>) -> (action: FetchAction)
        requires
            old(self).received_bytes() + n <= u64::MAX,
        ensures
            final(self).total_bytes() == old(self).total_bytes(),
            match result {
                Ok(()) => final(self).received_bytes() == old(self).received_bytes() + n
                    && action == FetchAction::Progress(
                    final(self).received_bytes(),
                    final(self).total_bytes(),
                ),
                Err(reason) => final(self).received_bytes() == old(self).received_bytes() && (
                action matches FetchAction::Fail { error, remove_partial } && remove_partial
                    && error == DownloadError::WriteFailed(reason)),
            },
    {
        match result {
            Ok(()) => {
                let (received, total) = self.tally.add(n as u64);
                FetchAction::Progress(received, total)
            },
            Err(reason) => FetchAction::Fail {
                error: DownloadError::WriteFailed(reason),
                remove_partial: true,
            },
        }
    }

    /// Flushing the partial file gave `result`. A failed flush is reported
    /// as it is; otherwise the file is renamed when the byte count matches
    /// the announced size (or none was announced) and removed when it does
    /// not.
    pub fn flushed(&self, result: Result<(), String>) -> (action: FetchAction)
        ensures
            action is Rename <==> (result is Ok && download_complete(
                self.received_bytes(),
                self.total_bytes(),
            )),
            match result {
                Err(reason) => action matches FetchAction::Fail { error, remove_partial }
                    && !remove_partial && error == DownloadError::Io(reason),
                Ok(()) => download_complete(self.received_bytes(), self.total_bytes()) || (
                action matches FetchAction::Fail { error, remove_partial } && remove_partial
                    && error == (DownloadError::Incomplete {
                    received: self.received_bytes(),
                    total: self.total_bytes(),
                })),
            },
    {
        match result {
            Err(reason) => FetchAction::Fail { error: DownloadError::Io(reason), remove_partial: false },
            Ok(()) => match self.tally.finish() {
                Ok(()) => FetchAction::Rename,
                Err(error) => FetchAction::Fail { error, remove_partial: true },
            },
        }
    }
}

/// `received` bytes complete a download that announced `total`.
pub open spec fn download_complete(received: u64, total: u64) -> bool {
    total == 0 || received == total
}

} // verus!
