//! The daemon's per-connection work: decode one request line, dispatch it
//! against the shared state, and encode the response line. The socket
//! handling, threads and timers around this live outside the core.

use vstd::prelude::*;

verus! {

use vstd::string::StringExecFns;

use crate::codec;
use crate::codec::{spec_decode_command, spec_enc_response};
use crate::config::Config;
use crate::dispatch::{dispatch_rel, handle_command, CommandOutcome};
use crate::ipc::{opt_audio_model, DaemonCommand, DaemonResponse, RespModel};
use crate::models::PlaybackState;

/// The long-lived background process hosting the core.
pub struct Daemon {
    pub config: Config,
}

impl Daemon {
    pub fn new(config: Config) -> (r: Result<Daemon, String>)
        ensures
            r matches Ok(d) && d.config == config,
    {
        Ok(Daemon { config })
    }
}

/// What one connection produced: the dispatched outcome and the encoded
/// response line to send back (without its terminating newline).
pub struct HandledRequest {
    pub outcome: CommandOutcome,
    pub response_line: String,
}

/// Serves one request line against the shared state. A well-formed line is
/// dispatched per [`dispatch_rel`]; a malformed one changes nothing and is
/// answered with an error. Either way exactly one encoded response comes
/// back, and the state invariant is preserved.
pub fn handle_request_line(state: &mut PlaybackState, line: &str) -> (r: HandledRequest)
    requires
        old(state).wf(),
    ensures
        final(state).wf(),
        match spec_decode_command(line@) {
            Some(c) => dispatch_rel(
                old(state)@,
                c,
                final(state)@,
                r.outcome.response@,
                opt_audio_model(r.outcome.effect),
                r.outcome.shutdown,
            ),
            None => {
                &&& final(state)@ == old(state)@
                &&& r.outcome.effect is None
                &&& !r.outcome.shutdown
                &&& r.outcome.response@ == RespModel::Error("Malformed request"@)
            },
        },
        r.response_line@ == spec_enc_response(r.outcome.response@),
{
    match codec::decode_command(line) {
        Some(cmd) => {
            let outcome = handle_command(state, cmd);
            let response_line = codec::encode_response(&outcome.response);
            HandledRequest { outcome, response_line }
        },
        None => {
            let response = DaemonResponse::Error(String::from_str("Malformed request"));
            let response_line = codec::encode_response(&response);
            HandledRequest {
                outcome: CommandOutcome { response, effect: None, shutdown: false },
                response_line,
            }
        },
    }
}

} // verus!
