use vstd::prelude::*;

use crate::net_address::NetAddress;
use crate::payloads::{Payloads, PayloadsView};
use crate::transfer::{Event, EventView};

verus! {

/// What the application does in answer to the network: synchronise the
/// simulator, take or release the controls, keep its list of clients, tell
/// the user, or act on the connection.
#[derive(Debug)]
pub enum AppAction {
    /// Applies received data, as sent by a client with these rights.
    ApplyUpdate { data: Vec<u8>, time_bits: u64, is_server: bool, is_master: bool },
    ResetSync,
    TakeControl,
    LoseControl,
    EmitGainControl,
    EmitLoseControl,
    EmitSetInControl(String),
    EmitServerStarted(String),
    EmitClientFail(String),
    EmitServerFail(String),
    ClientsAddClient(String),
    ClientsRemoveClient(String),
    ClientsSetServer(String, bool),
    ClientsSetObserver(String, bool),
    ClientsSetClientControl(String),
    ClientsSetNoControl,
    ClientsReset,
    /// Sends the aircraft definitions to the named client.
    SendDefinitions(String),
    /// Asks the network to mark the named client as observing or not.
    SetObserverRemote(String, bool),
    /// Sends every current value.
    UpdateAll,
    RequestTime,
    /// Hands control to the named client.
    TransferControlTo(String),
    /// Takes control from the named client.
    TakeControlFrom(String),
    /// Loads the aircraft definitions sent by the server.
    LoadDefinitions(Vec<u8>),
    StartConnectionTimer,
    /// Connects to the hosting server at this address.
    StartHosterClient(NetAddress),
    /// Sends the values that changed, with these rights.
    SendSync { is_server: bool, is_master: bool },
    SendReady,
    Stop(String),
}

pub enum AppActionView {
    ApplyUpdate { data: Seq<u8>, time_bits: u64, is_server: bool, is_master: bool },
    ResetSync,
    TakeControl,
    LoseControl,
    EmitGainControl,
    EmitLoseControl,
    EmitSetInControl(Seq<char>),
    EmitServerStarted(Seq<char>),
    EmitClientFail(Seq<char>),
    EmitServerFail(Seq<char>),
    ClientsAddClient(Seq<char>),
    ClientsRemoveClient(Seq<char>),
    ClientsSetServer(Seq<char>, bool),
    ClientsSetObserver(Seq<char>, bool),
    ClientsSetClientControl(Seq<char>),
    ClientsSetNoControl,
    ClientsReset,
    SendDefinitions(Seq<char>),
    SetObserverRemote(Seq<char>, bool),
    UpdateAll,
    RequestTime,
    TransferControlTo(Seq<char>),
    TakeControlFrom(Seq<char>),
    LoadDefinitions(Seq<u8>),
    StartConnectionTimer,
    StartHosterClient(NetAddress),
    SendSync { is_server: bool, is_master: bool },
    SendReady,
    Stop(Seq<char>),
}

impl View for AppAction {
    type V = AppActionView;

    open spec fn view(&self) -> AppActionView {
        match self {
            AppAction::ApplyUpdate { data, time_bits, is_server, is_master } => AppActionView::ApplyUpdate {
                data: data@,
                time_bits: *time_bits,
                is_server: *is_server,
                is_master: *is_master,
            },
            AppAction::ResetSync => AppActionView::ResetSync,
            AppAction::TakeControl => AppActionView::TakeControl,
            AppAction::LoseControl => AppActionView::LoseControl,
            AppAction::EmitGainControl => AppActionView::EmitGainControl,
            AppAction::EmitLoseControl => AppActionView::EmitLoseControl,
            AppAction::EmitSetInControl(n) => AppActionView::EmitSetInControl(n@),
            AppAction::EmitServerStarted(s) => AppActionView::EmitServerStarted(s@),
            AppAction::EmitClientFail(s) => AppActionView::EmitClientFail(s@),
            AppAction::EmitServerFail(s) => AppActionView::EmitServerFail(s@),
            AppAction::ClientsAddClient(n) => AppActionView::ClientsAddClient(n@),
            AppAction::ClientsRemoveClient(n) => AppActionView::ClientsRemoveClient(n@),
            AppAction::ClientsSetServer(n, b) => AppActionView::ClientsSetServer(n@, *b),
            AppAction::ClientsSetObserver(n, b) => AppActionView::ClientsSetObserver(n@, *b),
            AppAction::ClientsSetClientControl(n) => AppActionView::ClientsSetClientControl(n@),
            AppAction::ClientsSetNoControl => AppActionView::ClientsSetNoControl,
            AppAction::ClientsReset => AppActionView::ClientsReset,
            AppAction::SendDefinitions(n) => AppActionView::SendDefinitions(n@),
            AppAction::SetObserverRemote(n, b) => AppActionView::SetObserverRemote(n@, *b),
            AppAction::UpdateAll => AppActionView::UpdateAll,
            AppAction::RequestTime => AppActionView::RequestTime,
            AppAction::TransferControlTo(n) => AppActionView::TransferControlTo(n@),
            AppAction::TakeControlFrom(n) => AppActionView::TakeControlFrom(n@),
            AppAction::LoadDefinitions(b) => AppActionView::LoadDefinitions(b@),
            AppAction::StartConnectionTimer => AppActionView::StartConnectionTimer,
            AppAction::StartHosterClient(a) => AppActionView::StartHosterClient(*a),
            AppAction::SendSync { is_server, is_master } => AppActionView::SendSync {
                is_server: *is_server,
                is_master: *is_master,
            },
            AppAction::SendReady => AppActionView::SendReady,
            AppAction::Stop(s) => AppActionView::Stop(s@),
        }
    }
}

/// The actions of `s`, as views.
pub open spec fn app_actions(s: Seq<AppAction>) -> Seq<AppActionView> {
    s.map_values(|a: AppAction| a@)
}

fn push_action(out: &mut Vec<AppAction>, a: AppAction)
    ensures
        app_actions(final(out)@) == app_actions(old(out)@).push(a@),
{
    out.push(a);
    assert(app_actions(final(out)@) =~= app_actions(old(out)@).push(a@));
}

/// What the application's list of clients says of the client a payload is
/// about: whether it observes, serves, and holds control.
#[derive(Clone, Copy, Debug, PartialEq, Eq, Structural)]
pub struct ClientFacts {
    pub is_observer: bool,
    pub is_server: bool,
    pub has_control: bool,
}

/// What the simulator side asks for by itself.
#[derive(Clone, Copy, Debug, PartialEq, Eq, Structural)]
pub enum ProgramAction {
    TakeControls,
    TransferControls,
}

/// The text a failed punch through is reported with.
pub open spec fn punch_fail_text() -> Seq<char> {
    "Could not connect to host! Please port forward or use 'Cloud Host'!"@
}

/// The text a failed session id request is reported with.
pub open spec fn session_fail_text() -> Seq<char> {
    "Could not connect to Cloud Server to fetch session ID."@
}

/// The state the application keeps while a session runs: whether it is
/// observing, whether it is ready to process data, and whether the client was
/// stopped.
pub struct ControlSession {
    pub observing: bool,
    pub ready_to_process_data: bool,
    pub should_set_none_client: bool,
}

/// What a payload does, for a user named `me` who hosts or not, with the
/// instructor mode on or off, holding control or not; `facts` are what the
/// list of clients says of the client the payload is about.
pub open spec fn payload_actions(
    observing: bool,
    ready: bool,
    payload: PayloadsView,
    me: Seq<char>,
    is_host: bool,
    instructor_mode: bool,
    has_control: bool,
    facts: ClientFacts,
) -> Seq<AppActionView> {
    match payload {
        PayloadsView::Update { data, time_bits, .. } => if !facts.is_observer && ready {
            seq![
                AppActionView::ApplyUpdate {
                    data,
                    time_bits,
                    is_server: facts.is_server,
                    is_master: facts.has_control,
                },
            ]
        } else {
            Seq::empty()
        },
        PayloadsView::TransferControl { from, to } => if to == me {
            seq![
                AppActionView::ResetSync,
                AppActionView::TakeControl,
                AppActionView::EmitGainControl,
                AppActionView::ClientsSetNoControl,
            ]
        } else {
            seq![AppActionView::ResetSync] + (if from == me {
                seq![AppActionView::EmitLoseControl, AppActionView::LoseControl]
            } else {
                Seq::empty()
            }) + seq![AppActionView::EmitSetInControl(to), AppActionView::ClientsSetClientControl(to)]
        },
        PayloadsView::PlayerJoined { name, in_control, is_server, is_observer } => {
            let observer = is_observer || (is_host && instructor_mode);
            seq![AppActionView::ClientsAddClient(name)] + (if is_host {
                seq![AppActionView::SendDefinitions(name)] + if instructor_mode {
                    seq![AppActionView::SetObserverRemote(name, true)]
                } else {
                    Seq::empty()
                }
            } else {
                Seq::empty()
            }) + seq![AppActionView::ClientsSetServer(name, is_server), AppActionView::ClientsSetObserver(name, observer)]
                + if in_control {
                seq![AppActionView::EmitSetInControl(name), AppActionView::ClientsSetClientControl(name)]
            } else {
                Seq::empty()
            }
        },
        PayloadsView::Ready => (if has_control {
            seq![AppActionView::UpdateAll]
        } else {
            Seq::empty()
        }) + if is_host {
            seq![AppActionView::RequestTime]
        } else {
            Seq::empty()
        },
        PayloadsView::PlayerLeft { name } => seq![AppActionView::ClientsRemoveClient(name)] + if facts.has_control {
            seq![AppActionView::ClientsSetNoControl] + if is_host {
                seq![AppActionView::EmitGainControl, AppActionView::TakeControl, AppActionView::TransferControlTo(me)]
            } else {
                Seq::empty()
            }
        } else {
            Seq::empty()
        },
        PayloadsView::SetObserver { to, is_observer, .. } => if to == me {
            if !is_observer {
                seq![AppActionView::ResetSync]
            } else {
                Seq::empty()
            }
        } else {
            seq![AppActionView::ClientsSetObserver(to, is_observer)]
        },
        PayloadsView::SetHost => seq![AppActionView::SendDefinitions(me)],
        PayloadsView::ConnectionDenied { reason } => seq![AppActionView::Stop("Connection Denied: "@ + reason)],
        PayloadsView::AircraftDefinition { bytes } => seq![
            AppActionView::LoadDefinitions(bytes),
            AppActionView::StartConnectionTimer,
        ],
        PayloadsView::AttemptHosterConnection { peer } => seq![AppActionView::StartHosterClient(peer)],
        PayloadsView::SetSelfObserver { name } => if is_host {
            seq![AppActionView::ClientsSetObserver(name, true), AppActionView::SetObserverRemote(name, true)]
        } else {
            Seq::empty()
        },
        _ => Seq::empty(),
    }
}

/// What an event does, for a user who hosts or not, whose session has the id
/// `session_id` if any.
pub open spec fn event_actions(event: EventView, is_host: bool, session_id: Option<Seq<char>>) -> Seq<AppActionView> {
    match event {
        EventView::ConnectionEstablished => if is_host {
            (match session_id {
                Some(code) => seq![AppActionView::EmitServerStarted(code)],
                None => Seq::empty(),
            }) + seq![
                AppActionView::TakeControl,
                AppActionView::EmitGainControl,
                AppActionView::StartConnectionTimer,
            ]
        } else {
            seq![AppActionView::EmitLoseControl]
        },
        EventView::ConnectionLost(reason) => seq![
            AppActionView::TakeControl,
            AppActionView::ClientsReset,
            AppActionView::EmitClientFail(reason),
        ],
        EventView::UnablePunchthrough => seq![AppActionView::EmitClientFail(punch_fail_text())],
        EventView::SessionIdFetchFailed => seq![AppActionView::EmitServerFail(session_fail_text())],
    }
}

/// What a request of the simulator side does, for a user holding control or
/// not, given who holds control and who is next in line.
pub open spec fn program_actions(
    observing: bool,
    action: ProgramAction,
    has_control: bool,
    in_control: Option<Seq<char>>,
    next_for_control: Option<Seq<char>>,
) -> Seq<AppActionView> {
    match action {
        ProgramAction::TakeControls => if !has_control && !observing {
            match in_control {
                Some(n) => seq![AppActionView::TakeControl, AppActionView::TakeControlFrom(n)],
                None => Seq::empty(),
            }
        } else {
            Seq::empty()
        },
        ProgramAction::TransferControls => if has_control {
            match next_for_control {
                Some(n) => seq![AppActionView::TransferControlTo(n)],
                None => Seq::empty(),
            }
        } else {
            match in_control {
                Some(n) => seq![AppActionView::TakeControl, AppActionView::TakeControlFrom(n)],
                None => Seq::empty(),
            }
        },
    }
}

fn text_copy(s: &String) -> (res: String)
    ensures
        res@ == s@,
{
    s.clone()
}

impl ControlSession {
    pub fn new() -> (res: Self)
        ensures
            !res.observing,
            !res.ready_to_process_data,
            !res.should_set_none_client,
    {
        ControlSession { observing: false, ready_to_process_data: false, should_set_none_client: false }
    }

    /// Decides what a payload from the network does: see `payload_actions`;
    /// a server telling this user to observe or not is remembered.
    pub fn on_payload(
        &mut self,
        payload: Payloads,
        me: &String,
        is_host: bool,
        instructor_mode: bool,
        has_control: bool,
        facts: ClientFacts,
        out: &mut Vec<AppAction>,
    )
        ensures
            app_actions(final(out)@) == app_actions(old(out)@) + payload_actions(
                old(self).observing,
                old(self).ready_to_process_data,
                payload@,
                me@,
                is_host,
                instructor_mode,
                has_control,
                facts,
            ),
            final(self).ready_to_process_data == old(self).ready_to_process_data,
            final(self).should_set_none_client == old(self).should_set_none_client,
            final(self).observing == match payload@ {
                PayloadsView::SetObserver { to, is_observer, .. } => if to == me@ {
                    is_observer
                } else {
                    old(self).observing
                },
                _ => old(self).observing,
            },
    {
        let ghost before = app_actions(out@);
        let ghost pv = payload@;
        match payload {
            Payloads::Update { data, time_bits, .. } => {
                if !facts.is_observer && self.ready_to_process_data {
                    push_action(
                        out,
                        AppAction::ApplyUpdate {
                            data,
                            time_bits,
                            is_server: facts.is_server,
                            is_master: facts.has_control,
                        },
                    );
                }
            },
            Payloads::TransferControl { from, to } => {
                // Someone is transferring control
                push_action(out, AppAction::ResetSync);
                if to == *me {
                    push_action(out, AppAction::TakeControl);
                    push_action(out, AppAction::EmitGainControl);
                    push_action(out, AppAction::ClientsSetNoControl);
                } else {
                    if from == *me {
                        push_action(out, AppAction::EmitLoseControl);
                        push_action(out, AppAction::LoseControl);
                    }
                    push_action(out, AppAction::EmitSetInControl(to.clone()));
                    push_action(out, AppAction::ClientsSetClientControl(to));
                }
            },
            Payloads::PlayerJoined { name, in_control, is_server, is_observer } => {
                let mut observer = is_observer;
                push_action(out, AppAction::ClientsAddClient(name.clone()));
                if is_host {
                    push_action(out, AppAction::SendDefinitions(name.clone()));
                    if instructor_mode {
                        observer = true;
                        push_action(out, AppAction::SetObserverRemote(name.clone(), true));
                    }
                }
                push_action(out, AppAction::ClientsSetServer(name.clone(), is_server));
                push_action(out, AppAction::ClientsSetObserver(name.clone(), observer));
                if in_control {
                    push_action(out, AppAction::EmitSetInControl(name.clone()));
                    push_action(out, AppAction::ClientsSetClientControl(name));
                }
            },
            Payloads::Ready => {
                if has_control {
                    push_action(out, AppAction::UpdateAll);
                }
                if is_host {
                    push_action(out, AppAction::RequestTime);
                }
            },
            Payloads::PlayerLeft { name } => {
                push_action(out, AppAction::ClientsRemoveClient(name.clone()));
                // The one who left may have been in control
                if facts.has_control {
                    push_action(out, AppAction::ClientsSetNoControl);
                    if is_host {
                        push_action(out, AppAction::EmitGainControl);
                        push_action(out, AppAction::TakeControl);
                        push_action(out, AppAction::TransferControlTo(text_copy(me)));
                    }
                }
            },
            Payloads::SetObserver { to, is_observer, .. } => {
                if to == *me {
                    self.observing = is_observer;
                    if !self.observing {
                        push_action(out, AppAction::ResetSync);
                    }
                } else {
                    push_action(out, AppAction::ClientsSetObserver(to, is_observer));
                }
            },
            Payloads::SetHost => {
                push_action(out, AppAction::SendDefinitions(text_copy(me)));
            },
            Payloads::ConnectionDenied { reason } => {
                let mut text = String::from_str("Connection Denied: ");
                text.append(reason.as_str());
                push_action(out, AppAction::Stop(text));
            },
            Payloads::AircraftDefinition { bytes } => {
                push_action(out, AppAction::LoadDefinitions(bytes));
                push_action(out, AppAction::StartConnectionTimer);
            },
            Payloads::AttemptHosterConnection { peer } => {
                push_action(out, AppAction::StartHosterClient(peer));
            },
            Payloads::SetSelfObserver { name } => {
                if is_host {
                    push_action(out, AppAction::ClientsSetObserver(name.clone(), true));
                    push_action(out, AppAction::SetObserverRemote(name, true));
                }
            },
            _ => {},
        }
        assert(app_actions(out@) =~= before + payload_actions(
            old(self).observing,
            old(self).ready_to_process_data,
            pv,
            me@,
            is_host,
            instructor_mode,
            has_control,
            facts,
        ));
    }

    /// Decides what an event from the network does: see `event_actions`; a
    /// lost connection ends observing and marks the client stopped.
    pub fn on_event(&mut self, event: Event, is_host: bool, session_id: Option<String>, out: &mut Vec<AppAction>)
        ensures
            app_actions(final(out)@) == app_actions(old(out)@) + event_actions(
                event@,
                is_host,
                match session_id {
                    Some(s) => Some(s@),
                    None => None,
                },
            ),
            final(self).ready_to_process_data == old(self).ready_to_process_data,
            final(self).observing == (old(self).observing && !(event@ is ConnectionLost)),
            final(self).should_set_none_client == (old(self).should_set_none_client || event@ is ConnectionLost),
    {
        let ghost before = app_actions(out@);
        let ghost ev = event@;
        match event {
            Event::ConnectionEstablished => {
                if is_host {
                    if let Some(session_code) = session_id {
                        // Display server started message
                        push_action(out, AppAction::EmitServerStarted(session_code));
                    }
                    // Unfreeze aircraft
                    push_action(out, AppAction::TakeControl);
                    push_action(out, AppAction::EmitGainControl);
                    push_action(out, AppAction::StartConnectionTimer);
                } else {
                    push_action(out, AppAction::EmitLoseControl);
                }
            },
            Event::ConnectionLost(reason) => {
                // Take back control
                push_action(out, AppAction::TakeControl);
                push_action(out, AppAction::ClientsReset);
                self.observing = false;
                self.should_set_none_client = true;
                push_action(out, AppAction::EmitClientFail(reason));
            },
            Event::UnablePunchthrough => {
                push_action(
                    out,
                    AppAction::EmitClientFail(
                        String::from_str("Could not connect to host! Please port forward or use 'Cloud Host'!"),
                    ),
                );
            },
            Event::SessionIdFetchFailed => {
                push_action(
                    out,
                    AppAction::EmitServerFail(
                        String::from_str("Could not connect to Cloud Server to fetch session ID."),
                    ),
                );
            },
        }
        assert(app_actions(out@) =~= before + event_actions(
            ev,
            is_host,
            match session_id {
                Some(s) => Some(s@),
                None => None,
            },
        ));
    }

    /// Decides what a request of the simulator side does: see
    /// `program_actions`.
    pub fn on_program_action(
        &self,
        action: ProgramAction,
        has_control: bool,
        in_control: Option<String>,
        next_for_control: Option<String>,
        out: &mut Vec<AppAction>,
    )
        ensures
            app_actions(final(out)@) == app_actions(old(out)@) + program_actions(
                self.observing,
                action,
                has_control,
                match in_control {
                    Some(s) => Some(s@),
                    None => None,
                },
                match next_for_control {
                    Some(s) => Some(s@),
                    None => None,
                },
            ),
    {
        let ghost before = app_actions(out@);
        let ghost ic = match &in_control {
            Some(s) => Some(s@),
            None => None::<Seq<char>>,
        };
        let ghost nc = match &next_for_control {
            Some(s) => Some(s@),
            None => None::<Seq<char>>,
        };
        match action {
            ProgramAction::TakeControls => {
                if !has_control && !self.observing {
                    if let Some(n) = in_control {
                        push_action(out, AppAction::TakeControl);
                        push_action(out, AppAction::TakeControlFrom(n));
                    }
                }
            },
            ProgramAction::TransferControls => {
                if has_control {
                    if let Some(next) = next_for_control {
                        push_action(out, AppAction::TransferControlTo(next));
                    }
                } else if let Some(n) = in_control {
                    push_action(out, AppAction::TakeControl);
                    push_action(out, AppAction::TakeControlFrom(n));
                }
            },
        }
        assert(app_actions(out@) =~= before + program_actions(self.observing, action, has_control, ic, nc));
    }

    /// Once the connection is three seconds old (`settled`): the changed
    /// values are sent unless observing or not yet ready; the first time,
    /// the session becomes ready, the synchronisation restarts, and a client
    /// that does not host says it is ready.
    pub fn on_tick(&mut self, settled: bool, is_host: bool, has_control: bool, out: &mut Vec<AppAction>)
        ensures
            final(self).observing == old(self).observing,
            final(self).should_set_none_client == old(self).should_set_none_client,
            final(self).ready_to_process_data == (old(self).ready_to_process_data || settled),
            app_actions(final(out)@) == app_actions(old(out)@) + if settled {
                (if !old(self).observing && old(self).ready_to_process_data {
                    seq![AppActionView::SendSync { is_server: is_host, is_master: has_control }]
                } else {
                    Seq::empty()
                }) + if !old(self).ready_to_process_data {
                    seq![AppActionView::ResetSync] + if !is_host {
                        seq![AppActionView::SendReady]
                    } else {
                        Seq::empty()
                    }
                } else {
                    Seq::empty()
                }
            } else {
                Seq::empty()
            },
    {
        let ghost before = app_actions(out@);
        let ghost was_ready = self.ready_to_process_data;
        if settled {
            // Do not send initial data before the previous loop cleared it
            if !self.observing && self.ready_to_process_data {
                push_action(out, AppAction::SendSync { is_server: is_host, is_master: has_control });
            }
            // Tell the server we are ready to receive data
            if !self.ready_to_process_data {
                self.ready_to_process_data = true;
                push_action(out, AppAction::ResetSync);
                if !is_host {
                    push_action(out, AppAction::SendReady);
                }
            }
        }
        assert(app_actions(out@) =~= before + if settled {
            (if !old(self).observing && was_ready {
                seq![AppActionView::SendSync { is_server: is_host, is_master: has_control }]
            } else {
                Seq::empty()
            }) + if !was_ready {
                seq![AppActionView::ResetSync] + if !is_host {
                    seq![AppActionView::SendReady]
                } else {
                    Seq::empty()
                }
            } else {
                Seq::empty()
            }
        } else {
            Seq::empty()
        });
    }
}

} // verus!
