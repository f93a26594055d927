//! What a finished utterance turns into: a job file name, the transcoder's
//! argument list, and the message that relays the transcript.
use vstd::prelude::*;
use vstd::string::StringExecFns;
use crate::session::Utterance;

verus! {

/// Sample rate, in Hz, of the PCM that the transport delivers.
pub const INPUT_SAMPLE_RATE: u32 = 48000;

/// Channels of the PCM that the transport delivers.
pub const INPUT_CHANNELS: u32 = 2;

/// Name of the transcoder program.
pub const TRANSCODER: &'static str = "ffmpeg";

/// The character of decimal digit `d`.
pub open spec fn digit_char(d: nat) -> char {
    if d == 0 {
        '0'
    } else if d == 1 {
        '1'
    } else if d == 2 {
        '2'
    } else if d == 3 {
        '3'
    } else if d == 4 {
        '4'
    } else if d == 5 {
        '5'
    } else if d == 6 {
        '6'
    } else if d == 7 {
        '7'
    } else if d == 8 {
        '8'
    } else {
        '9'
    }
}

/// `n` written in decimal, without leading zeros.
pub open spec fn decimal(n: nat) -> Seq<char>
    decreases n,
{
    if n < 10 {
        seq![digit_char(n)]
    } else {
        decimal(n / 10).push(digit_char(n % 10))
    }
}

/// The one-character string of decimal digit `d`.
fn digit_str(d: u8) -> (r: &'static str)
    requires
        d < 10,
    ensures
        r@ == seq![digit_char(d as nat)],
{
    if d == 0 {
        proof {
            reveal_strlit("0");
            assert("0"@ =~= seq!['0']);
        }
        "0"
    } else if d == 1 {
        proof {
            reveal_strlit("1");
            assert("1"@ =~= seq!['1']);
        }
        "1"
    } else if d == 2 {
        proof {
            reveal_strlit("2");
            assert("2"@ =~= seq!['2']);
        }
        "2"
    } else if d == 3 {
        proof {
            reveal_strlit("3");
            assert("3"@ =~= seq!['3']);
        }
        "3"
    } else if d == 4 {
        proof {
            reveal_strlit("4");
            assert("4"@ =~= seq!['4']);
        }
        "4"
    } else if d == 5 {
        proof {
            reveal_strlit("5");
            assert("5"@ =~= seq!['5']);
        }
        "5"
    } else if d == 6 {
        proof {
            reveal_strlit("6");
            assert("6"@ =~= seq!['6']);
        }
        "6"
    } else if d == 7 {
        proof {
            reveal_strlit("7");
            assert("7"@ =~= seq!['7']);
        }
        "7"
    } else if d == 8 {
        proof {
            reveal_strlit("8");
            assert("8"@ =~= seq!['8']);
        }
        "8"
    } else {
        proof {
            reveal_strlit("9");
            assert("9"@ =~= seq!['9']);
        }
        "9"
    }
}

/// `n` written in decimal.
pub(crate) fn decimal_string(n: u128) -> (r: String)
    ensures
        r@ == decimal(n as nat),
    decreases n,
{
    if n < 10 {
        digit_str(n as u8).to_owned()
    } else {
        let mut s = decimal_string(n / 10);
        let d = digit_str((n % 10) as u8);
        s.append(d);
        assert(s@ =~= decimal((n / 10) as nat).push(digit_char((n % 10) as nat)));
        s
    }
}

/// The file a job writes: its identifier in decimal, then `.wav`.
pub open spec fn job_file_spec(id: u128) -> Seq<char> {
    decimal(id as nat) + ".wav"@
}

/// The path of the file that the job with identifier `id` produces.
pub fn job_file_name(id: u128) -> (r: String)
    ensures
        r@ == job_file_spec(id),
{
    let mut name = decimal_string(id);
    name.append(".wav");
    proof {
        reveal_strlit(".wav");
    }
    name
}

/// The transcoder's arguments: signed 16-bit little-endian PCM at 48 kHz in two
/// channels on standard input, one channel out, written to `path`.
pub open spec fn transcoder_args_spec(path: Seq<char>) -> Seq<Seq<char>> {
    seq![
        "-f"@,
        "s16le"@,
        "-ar"@,
        "48000"@,
        "-ac"@,
        "2"@,
        "-i"@,
        "-"@,
        "-ac"@,
        "1"@,
        path,
    ]
}

/// The argument list that turns the raw samples of a job into the file `path`.
pub fn transcoder_args(path: &str) -> (r: Vec<String>)
    ensures
        r@.map_values(|a: String| a@) == transcoder_args_spec(path@),
{
    let mut r: Vec<String> = Vec::new();
    r.push("-f".to_owned());
    r.push("s16le".to_owned());
    r.push("-ar".to_owned());
    r.push("48000".to_owned());
    r.push("-ac".to_owned());
    r.push("2".to_owned());
    r.push("-i".to_owned());
    r.push("-".to_owned());
    r.push("-ac".to_owned());
    r.push("1".to_owned());
    r.push(path.to_owned());
    assert(r@.map_values(|a: String| a@) =~= transcoder_args_spec(path@));
    r
}

/// The bytes that carry `samples` into the transcoder: each sample as signed
/// 16-bit little-endian.
pub open spec fn pcm_bytes_spec(samples: Seq<i16>) -> Seq<u8>
    decreases samples.len(),
{
    if samples.len() == 0 {
        Seq::empty()
    } else {
        let last = samples.last();
        let u = last as u16;
        pcm_bytes_spec(samples.drop_last()).push((u & 0xff) as u8).push((u >> 8u16) as u8)
    }
}

/// Encodes `samples` as the transcoder reads them on its input.
pub fn pcm_bytes(samples: &[i16]) -> (r: Vec<u8>)
    requires
        samples@.len() * 2 <= usize::MAX,
    ensures
        r@ == pcm_bytes_spec(samples@),
{
    let mut out: Vec<u8> = Vec::with_capacity(samples.len() * 2);
    let mut i: usize = 0;
    while i < samples.len()
        invariant
            i <= samples@.len(),
            out@ == pcm_bytes_spec(samples@.subrange(0, i as int)),
        decreases samples@.len() - i,
    {
        let u = samples[i] as u16;
        out.push((u & 0xff) as u8);
        out.push((u >> 8u16) as u8);
        proof {
            let next = samples@.subrange(0, i + 1);
            assert(next.drop_last() =~= samples@.subrange(0, i as int));
            assert(next.last() == samples@[i as int]);
        }
        i = i + 1;
    }
    assert(samples@.subrange(0, samples@.len() as int) =~= samples@);
    out
}

/// Everything the transcoder needs for one utterance.
pub struct TranscodeJob {
    pub speaker: u64,
    /// The file that the transcoder writes and transcription reads.
    pub file_path: String,
    pub args: Vec<String>,
    /// What is written to the transcoder's standard input.
    pub input: Vec<u8>,
}

/// The job for `utterance`, under the identifier `id`.
pub fn prepare_job(utterance: &Utterance, id: u128) -> (r: TranscodeJob)
    requires
        utterance.samples@.len() * 2 <= usize::MAX,
    ensures
        r.speaker == utterance.speaker,
        r.file_path@ == job_file_spec(id),
        r.args@.map_values(|a: String| a@) == transcoder_args_spec(job_file_spec(id)),
        r.input@ == pcm_bytes_spec(utterance.samples@),
{
    let file_path = job_file_name(id);
    let args = transcoder_args(file_path.as_str());
    let input = pcm_bytes(utterance.samples.as_slice());
    TranscodeJob { speaker: utterance.speaker, file_path, args, input }
}

} // verus!
