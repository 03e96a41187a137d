//! Supervision of a long-running capture process.
//!
//! A stream capture keeps one external recording process alive
//! indefinitely: it starts the process, polls it, and restarts it when it
//! exits or fails, waiting longer once failures accumulate.  The decisions
//! of that loop live here as an explicit state machine; the driver spawns,
//! polls and sleeps, and reports each outcome back.

use vstd::prelude::*;
use vstd::string::*;
use crate::text::u64_to_string;

verus! {

/// Number of consecutive failures after which the long backoff is used.
pub const FAILURE_THRESHOLD: u32 = 3;

/// Seconds waited between polls and after an isolated failure.
pub const SHORT_WAIT_SECS: u64 = 1;

/// Seconds waited once failures have accumulated.
pub const LONG_WAIT_SECS: u64 = 10;

/// Where the supervised capture process stands.
#[derive(Debug, Clone, Copy, PartialEq, Eq, Structural)]
pub enum SupervisorState {
    /// No process; ready to start one.
    Idle,
    /// A start has been issued; its outcome is not known yet.
    Starting,
    /// The process is alive.
    Running,
    /// The process is gone; a backoff pause comes next.
    Stopped,
    /// Waiting before the next start.
    Backoff,
}

/// What a poll of the child process found.
#[derive(Debug, Clone, Copy, PartialEq, Eq, Structural)]
pub enum PollOutcome {
    /// Still alive.
    StillRunning,
    /// Exited; the flag carries whether its exit status was success.
    Exited(bool),
    /// The poll itself failed.
    PollFailed,
}

/// The capture supervisor: the state of the supervised process and the run
/// of consecutive failures seen.
#[derive(Debug, Clone, Copy, PartialEq, Eq, Structural)]
pub struct Supervisor {
    pub state: SupervisorState,
    pub consecutive_failures: u32,
}

/// `n + 1`, stopping at the largest representable count.
pub open spec fn spec_bump(n: u32) -> u32 {
    if n < u32::MAX { (n + 1) as u32 } else { n }
}

/// The backoff pause for a given failure run: long once the run reaches
/// the threshold, short below it.
pub open spec fn spec_backoff_secs(failures: u32) -> u64 {
    if failures >= FAILURE_THRESHOLD { LONG_WAIT_SECS } else { SHORT_WAIT_SECS }
}

impl Supervisor {
    /// A supervisor that has not started anything yet.
    pub fn new() -> (r: Supervisor)
        ensures
            r.state == SupervisorState::Idle,
            r.consecutive_failures == 0,
    {
        Supervisor { state: SupervisorState::Idle, consecutive_failures: 0 }
    }

    /// The pause before the next start attempt: it escalates exactly when
    /// the failure run has reached the threshold.
    pub fn backoff_secs(&self) -> (r: u64)
        ensures
            r == spec_backoff_secs(self.consecutive_failures),
    {
        if self.consecutive_failures >= FAILURE_THRESHOLD {
            LONG_WAIT_SECS
        } else {
            SHORT_WAIT_SECS
        }
    }

    /// Issue a start of the capture process.
    pub fn begin_start(&mut self)
        requires
            old(self).state == SupervisorState::Idle,
        ensures
            final(self).state == SupervisorState::Starting,
            final(self).consecutive_failures == old(self).consecutive_failures,
    {
        self.state = SupervisorState::Starting;
    }

    /// Record the outcome of the start: success runs the process and ends
    /// the failure run; failure sends the supervisor into backoff and
    /// lengthens the run.
    pub fn on_start(&mut self, ok: bool)
        requires
            old(self).state == SupervisorState::Starting,
        ensures
            ok ==> final(self).state == SupervisorState::Running
                && final(self).consecutive_failures == 0,
            !ok ==> final(self).state == SupervisorState::Backoff
                && final(self).consecutive_failures == spec_bump(
                old(self).consecutive_failures,
            ),
    {
        if ok {
            self.state = SupervisorState::Running;
            self.consecutive_failures = 0;
        } else {
            self.state = SupervisorState::Backoff;
            if self.consecutive_failures < u32::MAX {
                self.consecutive_failures = self.consecutive_failures + 1;
            }
        }
    }

    /// Record a poll of the running process: while it stays alive the
    /// failure run resets; a failed exit or a failed poll lengthens it; a
    /// clean exit leaves it as it is.  Any exit stops the process.
    pub fn on_poll(&mut self, outcome: PollOutcome)
        requires
            old(self).state == SupervisorState::Running,
        ensures
            outcome == PollOutcome::StillRunning ==> final(self).state
                == SupervisorState::Running && final(self).consecutive_failures == 0,
            outcome == PollOutcome::Exited(true) ==> final(self).state
                == SupervisorState::Stopped && final(self).consecutive_failures == old(
                self,
            ).consecutive_failures,
            outcome == PollOutcome::Exited(false) ==> final(self).state
                == SupervisorState::Stopped && final(self).consecutive_failures == spec_bump(
                old(self).consecutive_failures,
            ),
            outcome == PollOutcome::PollFailed ==> final(self).state
                == SupervisorState::Stopped && final(self).consecutive_failures == spec_bump(
                old(self).consecutive_failures,
            ),
    {
        match outcome {
            PollOutcome::StillRunning => {
                self.consecutive_failures = 0;
            },
            PollOutcome::Exited(success) => {
                self.state = SupervisorState::Stopped;
                if !success {
                    if self.consecutive_failures < u32::MAX {
                        self.consecutive_failures = self.consecutive_failures + 1;
                    }
                }
            },
            PollOutcome::PollFailed => {
                self.state = SupervisorState::Stopped;
                if self.consecutive_failures < u32::MAX {
                    self.consecutive_failures = self.consecutive_failures + 1;
                }
            },
        }
    }

    /// Enter the backoff pause after a stop.  Returns how long to wait.
    pub fn begin_backoff(&mut self) -> (secs: u64)
        requires
            old(self).state == SupervisorState::Stopped,
        ensures
            final(self).state == SupervisorState::Backoff,
            final(self).consecutive_failures == old(self).consecutive_failures,
            secs == spec_backoff_secs(old(self).consecutive_failures),
    {
        self.state = SupervisorState::Backoff;
        self.backoff_secs()
    }

    /// The backoff pause is over; ready to start again.
    pub fn on_backoff_elapsed(&mut self)
        requires
            old(self).state == SupervisorState::Backoff,
        ensures
            final(self).state == SupervisorState::Idle,
            final(self).consecutive_failures == old(self).consecutive_failures,
    {
        self.state = SupervisorState::Idle;
    }
}

/// Backoff escalation: the pause is the long one exactly when the failure
/// run has reached the threshold, and any successful start or live poll
/// resets the run, bringing the pause back to the short one.
pub proof fn lemma_backoff_escalation(failures: u32)
    ensures
        spec_backoff_secs(failures) == LONG_WAIT_SECS <==> failures >= FAILURE_THRESHOLD,
        spec_backoff_secs(failures) == SHORT_WAIT_SECS <==> failures < FAILURE_THRESHOLD,
        spec_backoff_secs(0) == SHORT_WAIT_SECS,
{
}

/// A URL turned into a directory-name-safe tag: the `://` of the scheme
/// and every further `/` or `:` become underscores.
pub open spec fn sanitize_url(s: Seq<char>) -> Seq<char>
    decreases s.len(),
{
    if s.len() == 0 {
        Seq::empty()
    } else if s.len() >= 3 && s[0] == ':' && s[1] == '/' && s[2] == '/' {
        seq!['_'] + sanitize_url(s.skip(3))
    } else if s[0] == ':' || s[0] == '/' {
        seq!['_'] + sanitize_url(s.skip(1))
    } else {
        seq![s[0]] + sanitize_url(s.skip(1))
    }
}

/// The per-camera output directory name: `camera_<sanitized url>`.
pub open spec fn spec_camera_dir_name(url: Seq<char>) -> Seq<char> {
    "camera_"@ + sanitize_url(url)
}

/// Build the per-camera output directory name for a stream URL.
pub fn camera_dir_name(url: &str) -> (r: String)
    ensures
        r@ == spec_camera_dir_name(url@),
{
    let len = url.unicode_len();
    let mut s = String::new();
    s.append("camera_");
    let mut i: usize = 0;
    proof {
        assert(url@.skip(0) =~= url@);
    }
    while i < len
        invariant
            len == url@.len(),
            0 <= i <= len,
            s@ + sanitize_url(url@.skip(i as int)) == "camera_"@ + sanitize_url(url@),
        decreases len - i,
    {
        let ghost pre = s@;
        if len - i >= 3 && url.get_char(i) == ':' && url.get_char(i + 1) == '/'
            && url.get_char(i + 2) == '/' {
            s.append("_");
            proof {
                reveal_strlit("_");
                assert(url@.skip(i as int).skip(3) =~= url@.skip(i + 3));
                assert(sanitize_url(url@.skip(i as int)) =~= seq!['_'] + sanitize_url(
                    url@.skip(i + 3),
                ));
                assert(s@ + sanitize_url(url@.skip(i + 3)) =~= pre + sanitize_url(
                    url@.skip(i as int),
                ));
            }
            i = i + 3;
        } else {
            let c = url.get_char(i);
            if c == ':' || c == '/' {
                s.append("_");
                proof {
                    reveal_strlit("_");
                }
            } else {
                let piece = url.substring_char(i, i + 1);
                s.append(piece);
            }
            proof {
                assert(url@.skip(i as int).skip(1) =~= url@.skip(i + 1));
                if c == ':' || c == '/' {
                    assert(sanitize_url(url@.skip(i as int)) =~= seq!['_'] + sanitize_url(
                        url@.skip(i + 1),
                    ));
                } else {
                    assert(url@.skip(i as int)[0] == c);
                    assert(sanitize_url(url@.skip(i as int)) =~= seq![c] + sanitize_url(
                        url@.skip(i + 1),
                    ));
                }
                assert(s@ + sanitize_url(url@.skip(i + 1)) =~= pre + sanitize_url(
                    url@.skip(i as int),
                ));
            }
            i = i + 1;
        }
    }
    proof {
        assert(url@.skip(len as int).len() == 0);
        assert(s@ + Seq::<char>::empty() =~= s@);
        assert(s@ =~= spec_camera_dir_name(url@));
    }
    s
}

/// The name of one recorded segment file: `segment_<timestamp>.mp4`.
pub open spec fn spec_segment_file_name(timestamp: Seq<char>) -> Seq<char> {
    "segment_"@ + timestamp + ".mp4"@
}

/// Build a segment file name from a formatted timestamp.
pub fn segment_file_name(timestamp: &str) -> (r: String)
    ensures
        r@ == spec_segment_file_name(timestamp@),
{
    let mut s = String::new();
    s.append("segment_");
    s.append(timestamp);
    s.append(".mp4");
    proof {
        assert(s@ =~= spec_segment_file_name(timestamp@));
    }
    s
}

/// The argument list of the segmented recording invocation: copy the
/// stream without re-encoding into rotating MP4 segments of the given
/// duration, reconnecting when the stream drops.
pub open spec fn spec_record_args(
    url: Seq<char>,
    segment_secs: nat,
    output_pattern: Seq<char>,
) -> Seq<Seq<char>> {
    seq![
        "-y"@,
        "-loglevel"@,
        "error"@,
        "-rtsp_transport"@,
        "tcp"@,
        "-use_wallclock_as_timestamps"@,
        "1"@,
        "-i"@,
        url,
        "-c:v"@,
        "copy"@,
        "-an"@,
        "-f"@,
        "segment"@,
        "-segment_time"@,
        crate::text::dec_digits(segment_secs),
        "-segment_format"@,
        "mp4"@,
        "-reset_timestamps"@,
        "1"@,
        "-segment_format_options"@,
        "movflags=+faststart+frag_keyframe+empty_moov+default_base_moof"@,
        "-segment_time_delta"@,
        "0.05"@,
        "-strftime"@,
        "1"@,
        "-reconnect_at_eof"@,
        "1"@,
        "-reconnect_streamed"@,
        "1"@,
        "-reconnect_delay_max"@,
        "120"@,
        output_pattern,
    ]
}

/// Arguments for recording one stream into rotating segments.
pub fn record_args(url: &str, segment_secs: u64, output_pattern: &str) -> (r: Vec<String>)
    ensures
        crate::registry::path_views(r@) == spec_record_args(
            url@,
            segment_secs as nat,
            output_pattern@,
        ),
{
    let mut args: Vec<String> = Vec::new();
    args.push(String::from_str("-y"));
    args.push(String::from_str("-loglevel"));
    args.push(String::from_str("error"));
    args.push(String::from_str("-rtsp_transport"));
    args.push(String::from_str("tcp"));
    args.push(String::from_str("-use_wallclock_as_timestamps"));
    args.push(String::from_str("1"));
    args.push(String::from_str("-i"));
    args.push(String::from_str(url));
    args.push(String::from_str("-c:v"));
    args.push(String::from_str("copy"));
    args.push(String::from_str("-an"));
    args.push(String::from_str("-f"));
    args.push(String::from_str("segment"));
    args.push(String::from_str("-segment_time"));
    args.push(u64_to_string(segment_secs));
    args.push(String::from_str("-segment_format"));
    args.push(String::from_str("mp4"));
    args.push(String::from_str("-reset_timestamps"));
    args.push(String::from_str("1"));
    args.push(String::from_str("-segment_format_options"));
    args.push(String::from_str(
        "movflags=+faststart+frag_keyframe+empty_moov+default_base_moof",
    ));
    args.push(String::from_str("-segment_time_delta"));
    args.push(String::from_str("0.05"));
    args.push(String::from_str("-strftime"));
    args.push(String::from_str("1"));
    args.push(String::from_str("-reconnect_at_eof"));
    args.push(String::from_str("1"));
    args.push(String::from_str("-reconnect_streamed"));
    args.push(String::from_str("1"));
    args.push(String::from_str("-reconnect_delay_max"));
    args.push(String::from_str("120"));
    args.push(String::from_str(output_pattern));
    proof {
        assert(crate::registry::path_views(args@) =~= spec_record_args(
            url@,
            segment_secs as nat,
            output_pattern@,
        ));
    }
    args
}

} // verus!
