//! The pipeline that creates a clip, and the rules of its two-stage form.

use crate::digest::{hex_digit, hex_digit_str};
use crate::fx::origin::MediaOrigin;
use crate::fx::store::IoError;
use crate::source::Source;
use vstd::prelude::*;
use vstd::string::StringExecFns;

verus! {

/// An acquisition pipeline: it turns the identity of a clip into the stream of the clip's bytes.
pub trait Creator {
    /// The stream of a clip's bytes. A failure during the run shows as a failed read.
    type Output: Source;

    /// Why a pipeline could not be started.
    type Error;

    /// What starting the pipeline for `origin` may do to a pipeline that is `self` before it:
    /// leave it as `after` and answer `res`. A kind of pipeline that knows what it does says so
    /// here; of any other kind nothing is said.
    open spec fn create_allows(
        &self,
        after: &Self,
        origin: &MediaOrigin,
        res: Result<Self::Output, Self::Error>,
    ) -> bool {
        true
    }

    /// What taking back `output` may do to a pipeline that is `self` before it: leave it as
    /// `after`. Of a kind of pipeline that does not say it here nothing is said.
    open spec fn finish_allows(&self, after: &Self, output: Self::Output) -> bool {
        true
    }

    /// Starts the pipeline for `origin`.
    fn create(&mut self, origin: &MediaOrigin) -> (res: Result<Self::Output, Self::Error>)
        ensures
            old(self).create_allows(final(self), origin, res),
    ;

    /// Takes back a stream that its reader is done with, read to its end or given up early,
    /// and releases what the pipeline still holds for it.
    fn finish(&mut self, output: Self::Output)
        ensures
            old(self).finish_allows(final(self), output),
    ;
}

/// Why the two-stage pipeline could not be started.
#[derive(Debug)]
pub enum YoutubeDLCreateError {
    /// The fetch stage could not be launched.
    YoutubeDL(IoError),
    /// The cut stage could not be launched.
    FFmepg(IoError),
}

/// The stage to launch next.
#[derive(Clone, Copy, Debug, PartialEq, Eq, Structural)]
pub enum LaunchStep {
    /// The fetch stage, which writes the whole media to its standard output.
    Fetch,
    /// The cut stage, which reads the fetch stage's output and writes the clip to its own.
    Cut,
}

/// How the start of a pipeline goes on after a launch.
#[derive(Debug)]
pub enum LaunchNext {
    /// Launch this stage next.
    Do(LaunchStep),
    /// The start is over, with this result. After `Ok` both stages run and the clip is read
    /// from the cut stage's standard output.
    Done(Result<(), YoutubeDLCreateError>),
}

/// The decimal digits of `n`, the highest first.
pub open spec fn decimal_digits(n: nat) -> Seq<char>
    decreases n,
{
    if n < 10 {
        seq![hex_digit(n as int)]
    } else {
        decimal_digits(n / 10).push(hex_digit((n % 10) as int))
    }
}

/// The characters for `digits`, taken from the back to the front.
spec fn backwards(digits: Seq<u8>) -> Seq<char> {
    Seq::new(digits.len(), |i: int| hex_digit(digits[digits.len() - 1 - i] as int))
}

/// Writes `n` in decimal.
pub fn decimal(n: u64) -> (text: String)
    ensures
        text@ == decimal_digits(n as nat),
{
    let mut digits: Vec<u8> = Vec::new();
    let mut rest = n;
    assert(decimal_digits(rest as nat) + backwards(digits@) =~= decimal_digits(n as nat));
    while rest >= 10
        invariant
            decimal_digits(n as nat) == decimal_digits(rest as nat) + backwards(digits@),
            forall|i: int| 0 <= i < digits@.len() ==> #[trigger] digits@[i] < 10,
        decreases rest,
    {
        let ghost before = digits@;
        digits.push((rest % 10) as u8);
        assert(decimal_digits(rest as nat) + backwards(before) =~= decimal_digits(
            (rest / 10) as nat,
        ) + backwards(digits@));
        rest = rest / 10;
    }
    let ghost before = digits@;
    digits.push(rest as u8);
    assert(decimal_digits(rest as nat) + backwards(before) =~= backwards(digits@));
    let mut text = String::new();
    let mut i = digits.len();
    while i > 0
        invariant
            i <= digits@.len(),
            forall|j: int| 0 <= j < digits@.len() ==> #[trigger] digits@[j] < 10,
            text@ == backwards(digits@).take(digits@.len() - i),
        decreases i,
    {
        i -= 1;
        let ghost so_far = text@;
        text.append(hex_digit_str(digits[i]));
        assert(text@ =~= backwards(digits@).take(digits@.len() - i));
    }
    assert(backwards(digits@).take(digits@.len() as int) =~= backwards(digits@));
    text
}

/// The two-stage pipeline: a fetch stage that downloads the media, and a cut stage that takes
/// the wanted window out of it and converts it. This type decides; launching is the caller's.
#[derive(Clone, Copy, Debug)]
pub struct YoutubeDLCreator;

impl YoutubeDLCreator {
    /// The arguments of the fetch stage.
    pub open spec fn spec_fetch_args(origin: &MediaOrigin) -> Seq<Seq<char>> {
        seq![origin.url@, "-o"@, "-"@, "--audio-format"@, "best"@]
    }

    /// The arguments of the cut stage.
    pub open spec fn spec_cut_args(origin: &MediaOrigin) -> Seq<Seq<char>> {
        seq![
            "-ss"@,
            decimal_digits(origin.start as nat),
            "-t"@,
            decimal_digits(origin.length as nat),
            "-i"@,
            "-"@,
            "-f"@,
            "mp3"@,
            "-"@,
        ]
    }

    /// The program of the fetch stage.
    pub fn fetch_program() -> (program: &'static str)
        ensures
            program@ == "youtube-dl"@,
    {
        "youtube-dl"
    }

    /// The program of the cut stage.
    pub fn cut_program() -> (program: &'static str)
        ensures
            program@ == "ffmpeg"@,
    {
        "ffmpeg"
    }

    /// The arguments with which the fetch stage is launched: it fetches the media at the
    /// origin's locator and writes it to its standard output.
    pub fn fetch_args(origin: &MediaOrigin) -> (args: Vec<String>)
        ensures
            args@.map_values(|arg: String| arg@) == Self::spec_fetch_args(origin),
    {
        let mut args: Vec<String> = Vec::new();
        args.push(origin.url.clone());
        args.push(String::from_str("-o"));
        args.push(String::from_str("-"));
        args.push(String::from_str("--audio-format"));
        args.push(String::from_str("best"));
        assert(args@.map_values(|arg: String| arg@) =~= Self::spec_fetch_args(origin));
        args
    }

    /// The arguments with which the cut stage is launched: it reads the media from its standard
    /// input, keeps `length` seconds from second `start` on, and writes them as MP3 to its
    /// standard output.
    pub fn cut_args(origin: &MediaOrigin) -> (args: Vec<String>)
        ensures
            args@.map_values(|arg: String| arg@) == Self::spec_cut_args(origin),
    {
        let mut args: Vec<String> = Vec::new();
        args.push(String::from_str("-ss"));
        args.push(decimal(origin.start));
        args.push(String::from_str("-t"));
        args.push(decimal(origin.length));
        args.push(String::from_str("-i"));
        args.push(String::from_str("-"));
        args.push(String::from_str("-f"));
        args.push(String::from_str("mp3"));
        args.push(String::from_str("-"));
        assert(args@.map_values(|arg: String| arg@) =~= Self::spec_cut_args(origin));
        args
    }

    /// Whether a run went well, told from how its stages ended: every stage must have ended on
    /// its own with the status 0. The error is the place of the first stage that did not.
    pub fn run_outcome(statuses: &[Option<i32>]) -> (res: Result<(), usize>)
        ensures
            match res {
                Ok(_) => forall|i: int|
                    0 <= i < statuses@.len() ==> #[trigger] statuses@[i] == Some(0i32),
                Err(failed) => {
                    &&& failed < statuses@.len()
                    &&& statuses@[failed as int] != Some(0i32)
                    &&& forall|i: int| 0 <= i < failed ==> #[trigger] statuses@[i] == Some(0i32)
                },
            },
    {
        let mut i: usize = 0;
        while i < statuses.len()
            invariant
                i <= statuses@.len(),
                forall|j: int| 0 <= j < i ==> #[trigger] statuses@[j] == Some(0i32),
            decreases statuses@.len() - i,
        {
            match statuses[i] {
                Some(0) => {},
                _ => {
                    return Err(i);
                },
            }
            i += 1;
        }
        Ok(())
    }

    /// The first stage to launch.
    pub fn create() -> (step: LaunchStep)
        ensures
            step == LaunchStep::Fetch,
    {
        LaunchStep::Fetch
    }

    /// How the start goes on after the launch of `step` had the outcome `launched`: after the
    /// fetch stage comes the cut stage, and a stage that cannot be launched ends the start with
    /// the error of that stage.
    pub fn create_next(step: LaunchStep, launched: Result<(), IoError>) -> (next: LaunchNext)
        ensures
            next == match (step, launched) {
                (LaunchStep::Fetch, Ok(_)) => LaunchNext::Do(LaunchStep::Cut),
                (LaunchStep::Fetch, Err(err)) => LaunchNext::Done(
                    Err(YoutubeDLCreateError::YoutubeDL(err)),
                ),
                (LaunchStep::Cut, Ok(_)) => LaunchNext::Done(Ok(())),
                (LaunchStep::Cut, Err(err)) => LaunchNext::Done(
                    Err(YoutubeDLCreateError::FFmepg(err)),
                ),
            },
    {
        match step {
            LaunchStep::Fetch => match launched {
                Ok(_) => LaunchNext::Do(LaunchStep::Cut),
                Err(err) => LaunchNext::Done(Err(YoutubeDLCreateError::YoutubeDL(err))),
            },
            LaunchStep::Cut => match launched {
                Ok(_) => LaunchNext::Done(Ok(())),
                Err(err) => LaunchNext::Done(Err(YoutubeDLCreateError::FFmepg(err))),
            },
        }
    }
}

} // verus!
