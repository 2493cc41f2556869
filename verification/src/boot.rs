use vstd::prelude::*;

verus! {

/// Where the device is in its start-up.
#[derive(PartialEq, Eq, Structural, Clone, Copy, Debug)]
pub enum BootPhase {
    /// Reading the stored Wi-Fi credentials.
    LoadingCredentials,
    /// Joining the configured Wi-Fi network.
    ConnectingWifi,
    /// Connected; the REST server runs.
    RestServer,
    /// Running its own access point with the credential setup page.
    SetupPortal,
}

/// What the outside world reported to the start-up logic.
#[derive(PartialEq, Eq, Structural, Clone, Copy, Debug)]
pub enum BootEvent {
    /// Stored credentials were read and parsed.
    CredentialsLoaded,
    /// No usable credentials are stored.
    CredentialsUnavailable,
    /// The Wi-Fi network was joined.
    WifiConnected,
    /// Joining the Wi-Fi network failed.
    WifiFailed,
}

/// What the start-up logic asks the outside world to do next.
#[derive(PartialEq, Eq, Structural, Clone, Copy, Debug)]
pub enum BootAction {
    /// Join the network with the loaded credentials.
    ConnectWifi,
    /// Start the REST server.
    StartRestServer,
    /// Start the access point and the credential setup page.
    StartSetupPortal,
    /// Nothing to do: keep running.
    Idle,
}

/// The start-up rule: credentials lead to a connection attempt, a working
/// connection to the REST server, and missing credentials or a failed
/// connection to the setup portal. Serving phases are final; an event that
/// does not belong to the current phase changes nothing.
pub open spec fn boot_transition(phase: BootPhase, event: BootEvent) -> (BootPhase, BootAction) {
    match (phase, event) {
        (BootPhase::LoadingCredentials, BootEvent::CredentialsLoaded) => (BootPhase::ConnectingWifi, BootAction::ConnectWifi),
        (BootPhase::LoadingCredentials, BootEvent::CredentialsUnavailable) => (BootPhase::SetupPortal, BootAction::StartSetupPortal),
        (BootPhase::ConnectingWifi, BootEvent::WifiConnected) => (BootPhase::RestServer, BootAction::StartRestServer),
        (BootPhase::ConnectingWifi, BootEvent::WifiFailed) => (BootPhase::SetupPortal, BootAction::StartSetupPortal),
        _ => (phase, BootAction::Idle),
    }
}

/// The phase in which the device starts.
pub fn boot_start() -> (res: BootPhase)
    ensures
        res == BootPhase::LoadingCredentials,
{
    BootPhase::LoadingCredentials
}

/// One start-up step: the next phase and the action to perform.
pub fn boot_step(phase: BootPhase, event: BootEvent) -> (res: (BootPhase, BootAction))
    ensures
        res == boot_transition(phase, event),
{
    match (phase, event) {
        (BootPhase::LoadingCredentials, BootEvent::CredentialsLoaded) => (BootPhase::ConnectingWifi, BootAction::ConnectWifi),
        (BootPhase::LoadingCredentials, BootEvent::CredentialsUnavailable) => (BootPhase::SetupPortal, BootAction::StartSetupPortal),
        (BootPhase::ConnectingWifi, BootEvent::WifiConnected) => (BootPhase::RestServer, BootAction::StartRestServer),
        (BootPhase::ConnectingWifi, BootEvent::WifiFailed) => (BootPhase::SetupPortal, BootAction::StartSetupPortal),
        _ => (phase, BootAction::Idle),
    }
}

/// The phase reached from `phase` after the events of `events`, in order.
pub open spec fn boot_run(phase: BootPhase, events: Seq<BootEvent>) -> BootPhase
    decreases events.len(),
{
    if events.len() == 0 {
        phase
    } else {
        boot_run(boot_transition(phase, events[0]).0, events.drop_first())
    }
}

/// A serving phase is final: no event leaves it, and nothing more is done.
pub proof fn lemma_serving_is_final(phase: BootPhase, event: BootEvent)
    requires
        phase == BootPhase::RestServer || phase == BootPhase::SetupPortal,
    ensures
        boot_transition(phase, event) == (phase, BootAction::Idle),
{
}

/// The REST server is started only from a connection attempt that
/// succeeded, and the setup portal only when credentials are missing or
/// the connection failed.
pub proof fn lemma_servers_start_only_when_due(phase: BootPhase, event: BootEvent)
    ensures
        boot_transition(phase, event).1 == BootAction::StartRestServer
            <==> phase == BootPhase::ConnectingWifi && event == BootEvent::WifiConnected,
        boot_transition(phase, event).1 == BootAction::StartSetupPortal <==> (
            (phase == BootPhase::LoadingCredentials && event == BootEvent::CredentialsUnavailable)
            || (phase == BootPhase::ConnectingWifi && event == BootEvent::WifiFailed)),
{
}

/// Every start-up ends serving: whatever the credential lookup and the
/// connection attempt report, the device ends in exactly one of the two
/// servers, and in the REST server exactly when credentials were loaded
/// and the connection succeeded. Once serving, later events change nothing.
pub proof fn lemma_boot_ends_serving(loaded: BootEvent, connected: BootEvent, later: Seq<BootEvent>)
    requires
        loaded == BootEvent::CredentialsLoaded || loaded == BootEvent::CredentialsUnavailable,
        connected == BootEvent::WifiConnected || connected == BootEvent::WifiFailed,
    ensures
        ({
            let events = if loaded == BootEvent::CredentialsLoaded {
                seq![loaded, connected] + later
            } else {
                seq![loaded] + later
            };
            let end = boot_run(BootPhase::LoadingCredentials, events);
            &&& end == BootPhase::RestServer || end == BootPhase::SetupPortal
            &&& end == BootPhase::RestServer <==> (loaded == BootEvent::CredentialsLoaded
                && connected == BootEvent::WifiConnected)
        }),
{
    let events = if loaded == BootEvent::CredentialsLoaded {
        seq![loaded, connected] + later
    } else {
        seq![loaded] + later
    };
    let p1 = boot_transition(BootPhase::LoadingCredentials, loaded).0;
    assert(events[0] == loaded);
    if loaded == BootEvent::CredentialsLoaded {
        let p2 = boot_transition(p1, connected).0;
        assert(events.drop_first()[0] == connected);
        assert(events.drop_first().drop_first() =~= later);
        lemma_serving_run_is_final(p2, later);
        assert(boot_run(p1, events.drop_first()) == boot_run(p2, later));
        assert(boot_run(BootPhase::LoadingCredentials, events) == boot_run(p1, events.drop_first()));
    } else {
        assert(events.drop_first() =~= later);
        lemma_serving_run_is_final(p1, later);
        assert(boot_run(BootPhase::LoadingCredentials, events) == boot_run(p1, events.drop_first()));
    }
}

/// A run that starts in a serving phase stays there.
pub proof fn lemma_serving_run_is_final(phase: BootPhase, events: Seq<BootEvent>)
    requires
        phase == BootPhase::RestServer || phase == BootPhase::SetupPortal,
    ensures
        boot_run(phase, events) == phase,
    decreases events.len(),
{
    if events.len() > 0 {
        lemma_serving_run_is_final(phase, events.drop_first());
    }
}

} // verus!
