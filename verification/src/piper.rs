//! Piper: free, offline, neural local voice. The engine binary and voice
//! model are fetched on first use (see `download`); synthesis runs the piper
//! executable, which writes a WAV file that the player then plays.

use vstd::prelude::*;
use crate::local::{arg_views, from_utf8_lossy, utf8_lossy};
use crate::platform::Os;
use crate::text::{concat_str, to_string, trim, trimmed};

verus! {

/// The arguments that make piper read text from standard input and write
/// speech with `model` to `out`, slowed by `length_scale`.
pub open spec fn piper_args_spec(model: Seq<char>, out: Seq<char>, length_scale: Seq<char>) -> Seq<Seq<char>> {
    seq!["--model"@, model, "--output_file"@, out, "--length_scale"@, length_scale]
}

/// Build the piper arguments.
pub fn piper_args(model: &str, out: &str, length_scale: &str) -> (r: Vec<String>)
    ensures
        arg_views(r@) == piper_args_spec(model@, out@, length_scale@),
{
    let r = vec![
        to_string("--model"),
        to_string(model),
        to_string("--output_file"),
        to_string(out),
        to_string("--length_scale"),
        to_string(length_scale),
    ];
    proof {
        assert(arg_views(r@) =~= piper_args_spec(model@, out@, length_scale@));
    }
    r
}

/// The environment variable through which the dynamic loader finds the
/// onnxruntime library shipped next to the piper binary, if the platform
/// needs one.
pub fn library_path_variable(os: Os) -> (r: Option<&'static str>)
    ensures
        r == (match os {
            Os::Windows => None,
            Os::Macos => Some("DYLD_LIBRARY_PATH"),
            _ => Some("LD_LIBRARY_PATH"),
        }),
{
    match os {
        Os::Windows => None,
        Os::Macos => Some("DYLD_LIBRARY_PATH"),
        _ => Some("LD_LIBRARY_PATH"),
    }
}

/// The outcome of a finished piper run: success passes; a failure reports
/// what piper printed on standard error, without surrounding white space.
pub fn piper_exit(success: bool, stderr: &[u8]) -> (r: Result<(), String>)
    ensures
        success ==> r is Ok,
        !success ==> (r matches Err(e) && e@ == "Piper error: "@ + trimmed(utf8_lossy(stderr@))),
{
    if success {
        Ok(())
    } else {
        let err = from_utf8_lossy(stderr);
        Err(concat_str("Piper error: ", trim(err.as_str())))
    }
}

/// The audio piper wrote; a run that wrote nothing is an error.
pub fn piper_audio(bytes: Vec<u8>) -> (r: Result<Vec<u8>, String>)
    ensures
        bytes@.len() > 0 ==> r == Ok::<Vec<u8>, String>(bytes),
        bytes@.len() == 0 ==> (r matches Err(e) && e@ == "Piper produced no audio."@),
{
    if bytes.len() == 0 {
        Err(to_string("Piper produced no audio."))
    } else {
        Ok(bytes)
    }
}

} // verus!
