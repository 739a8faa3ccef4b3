//! The inference-server lifecycle: spawn, readiness probing, switching
//! and teardown, as a state machine whose actions the shell performs.
//!
//! One serving attempt walks stopped, starting, probing, ready — or
//! fails; readiness is true only between a successful probe and the next
//! teardown or switch, and always implies a running process spawned with
//! the current model path.

use vstd::prelude::*;

verus! {

use crate::model::ModelSwitchPayload;
use crate::text::{concat_str, dec_str, u64_to_string};

/// The fixed loopback port the inference server listens on.
pub const SERVER_PORT: u16 = 8080;

/// The generation budget handed to the server.
pub const MAX_TOKENS: u32 = 8192;

/// How long, in milliseconds, the readiness probe sleeps between polls.
pub const PROBE_INTERVAL_MILLIS: u64 = 500;

/// Where one model-serving attempt stands.
#[derive(PartialEq, Eq, Structural, Clone, Copy, Debug)]
pub enum LifecyclePhase {
    Stopped,
    Starting,
    Probing,
    Ready,
    Failed,
}

/// The lifecycle state: the phase, the readiness flag the chat path
/// reads, whether a subprocess handle is held, and which model the
/// current attempt targets.
pub struct Lifecycle {
    pub phase: LifecyclePhase,
    pub ready: bool,
    pub process_running: bool,
    pub model_path: String,
    pub mmproj_path: Option<String>,
    pub current_model_id: Option<String>,
}

impl Lifecycle {
    /// Readiness is the Ready phase, and it implies a live process.
    pub open spec fn wf(self) -> bool {
        &&& self.ready <==> self.phase is Ready
        &&& self.ready ==> self.process_running
    }

    /// A manager with no process and no model.
    pub fn new() -> (r: Self)
        ensures
            r.wf(),
            r.phase is Stopped,
            !r.ready,
            !r.process_running,
            r.model_path@ == Seq::<char>::empty(),
            r.mmproj_path is None,
            r.current_model_id is None,
    {
        Lifecycle {
            phase: LifecyclePhase::Stopped,
            ready: false,
            process_running: false,
            model_path: String::new(),
            mmproj_path: None,
            current_model_id: None,
        }
    }

    /// Whether the server is ready for chat requests.
    pub fn model_status(&self) -> (r: bool)
        ensures
            r == self.ready,
    {
        self.ready
    }

    /// The state after a stop: not ready, no process, the model paths and
    /// id left as they were.
    pub open spec fn spec_stopped(self) -> Lifecycle {
        Lifecycle {
            phase: LifecyclePhase::Stopped,
            ready: false,
            process_running: false,
            ..self
        }
    }

    /// Stops the server: asks the shell to kill the process exactly when
    /// one is running, and marks the manager stopped and not ready.
    pub fn stop(&mut self) -> (kill: bool)
        ensures
            final(self).wf(),
            *final(self) == old(self).spec_stopped(),
            kill == old(self).process_running,
    {
        let kill = self.process_running;
        self.process_running = false;
        self.ready = false;
        self.phase = LifecyclePhase::Stopped;
        kill
    }
}

/// Stopping is idempotent: a second stop starts from a state with no
/// running process, so it changes nothing and asks for no kill.
pub proof fn lemma_stop_idempotent(s: Lifecycle)
    ensures
        s.spec_stopped().spec_stopped() == s.spec_stopped(),
        !s.spec_stopped().process_running,
{
}

/// The argument list one server launch uses: the model path, the fixed
/// loopback host and port, the context and prediction budgets, and the
/// vision projector when there is one.
pub open spec fn spec_spawn_args(
    model_path: Seq<char>,
    mmproj_path: Option<Seq<char>>,
    port: nat,
    ctx_size: nat,
    n_predict: nat,
) -> Seq<Seq<char>> {
    seq![
        "-m"@,
        model_path,
        "--host"@,
        "127.0.0.1"@,
        "--port"@,
        dec_str(port),
        "--ctx-size"@,
        dec_str(ctx_size),
        "--n-predict"@,
        dec_str(n_predict),
    ] + match mmproj_path {
        Some(p) => seq!["--mmproj"@, p],
        None => Seq::<Seq<char>>::empty(),
    }
}

/// What starting or switching a model asks of the shell: whether an old
/// process must be killed first, the argument list of the new server, and
/// the switching events to emit, in order.
pub struct SwitchStart {
    pub kill_needed: bool,
    pub spawn_args: Vec<String>,
    pub events: Vec<ModelSwitchPayload>,
}

/// One switching event.
pub open spec fn is_switch_event(
    p: ModelSwitchPayload,
    model_id: Seq<char>,
    status: Seq<char>,
    error: Option<Seq<char>>,
) -> bool {
    &&& p.model_id@ == model_id
    &&& p.status@ == status
    &&& match (p.error, error) {
        (Some(a), Some(b)) => a@ == b,
        (None, None) => true,
        _ => false,
    }
}

impl Lifecycle {
    /// Begins a start or switch: records the target model's paths and id
    /// before anything is spawned, so a later failure still leaves the
    /// state naming the model that was intended; marks the manager not
    /// ready before the old process goes away, so no caller can observe a
    /// stale readiness naming the wrong model. The shell kills the old
    /// process when one was running, emits the stopping and starting
    /// events, and spawns the server with exactly the returned arguments.
    pub fn begin_switch(
        &mut self,
        model_id: &str,
        model_path: &str,
        mmproj_path: &Option<String>,
        ctx_size: u32,
        max_tokens: u32,
    ) -> (r: SwitchStart)
        ensures
            final(self).wf(),
            final(self).phase is Starting,
            !final(self).ready,
            !final(self).process_running,
            final(self).model_path@ == model_path@,
            match (final(self).mmproj_path, mmproj_path) {
                (Some(a), Some(b)) => a@ == b@,
                (None, None) => true,
                _ => false,
            },
            final(self).current_model_id matches Some(m) && m@ == model_id@,
            r.kill_needed == old(self).process_running,
            r.spawn_args@.map_values(|s: String| s@) == spec_spawn_args(
                model_path@,
                match mmproj_path {
                    Some(p) => Some(p@),
                    None => None,
                },
                SERVER_PORT as nat,
                ctx_size as nat,
                max_tokens as nat,
            ),
            r.events@.len() == 2,
            is_switch_event(r.events@[0], model_id@, "stopping"@, None),
            is_switch_event(r.events@[1], model_id@, "starting"@, None),
    {
        let kill_needed = self.process_running;
        self.process_running = false;
        self.ready = false;
        self.phase = LifecyclePhase::Starting;
        self.model_path = model_path.to_owned();
        self.mmproj_path = match mmproj_path {
            Some(p) => Some(p.clone()),
            None => None,
        };
        self.current_model_id = Some(model_id.to_owned());

        let mut spawn_args: Vec<String> = Vec::new();
        spawn_args.push("-m".to_owned());
        spawn_args.push(model_path.to_owned());
        spawn_args.push("--host".to_owned());
        spawn_args.push("127.0.0.1".to_owned());
        spawn_args.push("--port".to_owned());
        spawn_args.push(u64_to_string(SERVER_PORT as u64));
        spawn_args.push("--ctx-size".to_owned());
        spawn_args.push(u64_to_string(ctx_size as u64));
        spawn_args.push("--n-predict".to_owned());
        spawn_args.push(u64_to_string(max_tokens as u64));
        if let Some(p) = mmproj_path {
            spawn_args.push("--mmproj".to_owned());
            spawn_args.push(p.clone());
        }
        proof {
            assert(spawn_args@.map_values(|s: String| s@) =~= spec_spawn_args(
                model_path@,
                match mmproj_path {
                    Some(p) => Some(p@),
                    None => None,
                },
                SERVER_PORT as nat,
                ctx_size as nat,
                max_tokens as nat,
            ));
        }

        let mut events: Vec<ModelSwitchPayload> = Vec::new();
        events.push(ModelSwitchPayload {
            model_id: model_id.to_owned(),
            status: "stopping".to_owned(),
            error: None,
        });
        events.push(ModelSwitchPayload {
            model_id: model_id.to_owned(),
            status: "starting".to_owned(),
            error: None,
        });
        SwitchStart { kill_needed, spawn_args, events }
    }

    /// Records the outcome of the spawn. A success hands the process to
    /// the manager and moves on to probing. A failure is terminal for
    /// this attempt: the manager is left failed and not ready — with the
    /// intended model still recorded — and the error event plus the error
    /// text to surface come back.
    pub fn on_spawn_result(&mut self, model_id: &str, spawn_error: Option<String>) -> (r: Option<
        (ModelSwitchPayload, String),
    >)
        ensures
            final(self).wf(),
            final(self).model_path == old(self).model_path,
            final(self).mmproj_path == old(self).mmproj_path,
            final(self).current_model_id == old(self).current_model_id,
            spawn_error is None ==> {
                &&& r is None
                &&& final(self).phase is Probing
                &&& final(self).process_running
                &&& !final(self).ready
            },
            spawn_error matches Some(e) ==> {
                &&& final(self).phase is Failed
                &&& !final(self).process_running
                &&& !final(self).ready
                &&& r matches Some(pair) && is_switch_event(
                    pair.0,
                    model_id@,
                    "error"@,
                    Some("Failed to spawn llama-server: "@ + e@),
                ) && pair.1@ == "Failed to spawn llama-server: "@ + e@
            },
    {
        match spawn_error {
            None => {
                self.process_running = true;
                self.ready = false;
                self.phase = LifecyclePhase::Probing;
                None
            },
            Some(e) => {
                self.process_running = false;
                self.ready = false;
                self.phase = LifecyclePhase::Failed;
                let msg = concat_str("Failed to spawn llama-server: ", e.as_str());
                let event = ModelSwitchPayload {
                    model_id: model_id.to_owned(),
                    status: "error".to_owned(),
                    error: Some(msg.clone()),
                };
                Some((event, msg))
            },
        }
    }
}

/// What one readiness poll decides.
pub enum ProbeStep {
    Ready { event: ModelSwitchPayload },
    RetryAfterMillis { millis: u64 },
    TimedOut { event: ModelSwitchPayload, error: String },
}

impl Lifecycle {
    /// Judges one readiness poll of the health endpoint. Past the timeout
    /// the attempt fails with a startup-timeout error — distinct wording
    /// from a refused connection, though both are retried the same way.
    /// A healthy answer makes the manager ready and yields the ready
    /// event; anything else asks for another poll after the fixed
    /// interval.
    pub fn probe_step(
        &mut self,
        model_id: &str,
        elapsed_secs: u64,
        timeout_secs: u64,
        healthy: bool,
    ) -> (r: ProbeStep)
        requires
            old(self).wf(),
            old(self).process_running,
            !old(self).ready,
        ensures
            final(self).wf(),
            final(self).model_path == old(self).model_path,
            final(self).mmproj_path == old(self).mmproj_path,
            final(self).current_model_id == old(self).current_model_id,
            elapsed_secs > timeout_secs ==> {
                &&& r matches ProbeStep::TimedOut { event, error } && is_switch_event(
                    event,
                    model_id@,
                    "error"@,
                    Some("Server startup timeout"@),
                ) && error@ == "Server startup timeout"@
                &&& final(self).phase is Failed
                &&& !final(self).ready
            },
            elapsed_secs <= timeout_secs && healthy ==> {
                &&& r matches ProbeStep::Ready { event } && is_switch_event(
                    event,
                    model_id@,
                    "ready"@,
                    None,
                )
                &&& final(self).phase is Ready
                &&& final(self).ready
                &&& final(self).process_running
            },
            elapsed_secs <= timeout_secs && !healthy ==> {
                &&& (r matches ProbeStep::RetryAfterMillis { millis } && millis
                    == PROBE_INTERVAL_MILLIS)
                &&& *final(self) == *old(self)
            },
    {
        if elapsed_secs > timeout_secs {
            self.phase = LifecyclePhase::Failed;
            self.ready = false;
            ProbeStep::TimedOut {
                event: ModelSwitchPayload {
                    model_id: model_id.to_owned(),
                    status: "error".to_owned(),
                    error: Some("Server startup timeout".to_owned()),
                },
                error: "Server startup timeout".to_owned(),
            }
        } else if healthy {
            self.phase = LifecyclePhase::Ready;
            self.ready = true;
            ProbeStep::Ready {
                event: ModelSwitchPayload {
                    model_id: model_id.to_owned(),
                    status: "ready".to_owned(),
                    error: None,
                },
            }
        } else {
            ProbeStep::RetryAfterMillis { millis: PROBE_INTERVAL_MILLIS }
        }
    }
}

} // verus!
