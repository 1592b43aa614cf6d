//! The services, and the table that finds them.

use vstd::prelude::*;
use crate::connection::{ConnectionInner, ForwardedConnection};
use crate::services::gatekeeper_auth::{served_stream, GatekeeperAuth};
use crate::services::ssh_tarpit::{
    trapped_stream, Settings, SshTarpit, SshTarpitConfig, Tarpit, TarpitStage,
};
use crate::services::{
    forward_outcome, ForwardError, InternalService, ServiceForwardTable, ServiceForwardTableBuilder,
    UnknownService,
};

verus! {

/// A service is found by its name and by no other. The one for tests is known in a test build
/// alone.
pub proof fn services_are_found_by_their_names(
    s: &str,
    test_build: bool,
    r: Result<InternalService, UnknownService>,
)
    requires
        call_ensures(InternalService::from_str, (s, test_build), r),
    ensures
        r == Ok::<InternalService, UnknownService>(InternalService::SshTarpit) <==> s@
            == "ssh-tarpit"@,
        r == Ok::<InternalService, UnknownService>(InternalService::LoadBalancer) <==> s@
            == "load-balancer"@,
        r == Ok::<InternalService, UnknownService>(InternalService::GatekeeperAuth) <==> s@
            == "gatekeeper-auth"@,
        r == Ok::<InternalService, UnknownService>(InternalService::TestService) <==> test_build
            && s@ == "test-service"@,
{
    crate::laws::connection::services_have_these_names(s@, test_build);
}

/// The name that a service gives is the one by which it is found.
pub proof fn services_give_their_names(service: &InternalService, name: &'static str)
    requires
        call_ensures(InternalService::slug_name, (service,), name),
    ensures
        match *service {
            InternalService::SshTarpit => name@ == "ssh-tarpit"@,
            InternalService::LoadBalancer => name@ == "load-balancer"@,
            InternalService::GatekeeperAuth => name@ == "gatekeeper-auth"@,
            InternalService::TestService => name@ == "test-service"@,
        },
{
}

/// A sender that is entered is found under its service and changes nothing for the others. The
/// sender that was entered first stays: a second one for the same service is refused.
pub proof fn the_first_sender_of_a_service_stays<S>(
    start: ServiceForwardTableBuilder<S>,
    before: ServiceForwardTableBuilder<S>,
    service: InternalService,
    sender: S,
    r: Result<(), ForwardError>,
    after: ServiceForwardTableBuilder<S>,
    other: InternalService,
)
    requires
        call_ensures(ServiceForwardTableBuilder::<S>::new, (), start),
        exists|b: &mut ServiceForwardTableBuilder<S>|
            *b == before && *final(b) == after && #[trigger] call_ensures(
                ServiceForwardTableBuilder::<S>::add,
                (b, service, sender),
                r,
            ),
    ensures
        !start@.contains_key(service),
        r is Ok <==> !before@.contains_key(service),
        r matches Err(e) ==> e == ForwardError::AlreadyEntered,
        after@.contains_key(service),
        after@[service] == if before@.contains_key(service) {
            before@[service]
        } else {
            sender
        },
        other != service ==> {
            &&& after@.contains_key(other) <==> before@.contains_key(other)
            &&& before@.contains_key(other) ==> after@[other] == before@[other]
        },
{
}

/// A table that is built finds the senders that were entered, and no others.
pub proof fn tables_find_what_was_entered<S>(
    builder: ServiceForwardTableBuilder<S>,
    table: ServiceForwardTable<S>,
    copy: ServiceForwardTable<S>,
    service: &InternalService,
    has: bool,
    found: Result<&S, ForwardError>,
)
    requires
        call_ensures(ServiceForwardTableBuilder::<S>::build, (builder,), table),
        call_ensures(ServiceForwardTable::<S>::clone, (&table,), copy),
        call_ensures(ServiceForwardTable::<S>::has_service, (&copy, service), has),
        call_ensures(ServiceForwardTable::<S>::forwarder, (&copy, service), found),
    ensures
        has <==> builder@.contains_key(*service),
        builder@.contains_key(*service) ==> (found matches Ok(sender) && *sender
            == builder@[*service]),
        !builder@.contains_key(*service) ==> (found matches Err(e) && e
            == ForwardError::NoForwarder(*service)),
{
}

/// Forwarding succeeds where the sender takes the connection, and otherwise names the service.
pub proof fn forwarding_follows_the_sender(
    service: &InternalService,
    taken: Result<(), ForwardError>,
    refused: Result<(), ForwardError>,
)
    requires
        call_ensures(forward_outcome, (service, true), taken),
        call_ensures(forward_outcome, (service, false), refused),
    ensures
        taken is Ok,
        refused matches Err(e) && e == ForwardError::SendFailed(*service),
{
}

/// A client is let go at once where the tarpit is full or there is no line to write. Otherwise its
/// stream is waited for, and the first line comes first.
pub proof fn clients_are_taken_in(
    task_count: usize,
    settings: Settings,
    lines: usize,
    client: Tarpit,
    stage: TarpitStage,
    ready: Tarpit,
    then: TarpitStage,
)
    requires
        call_ensures(Tarpit::enter, (task_count, settings, lines), client),
        call_ensures(Tarpit::stage, (&client,), stage),
        call_ensures(Tarpit::advance, (client, true), ready),
        call_ensures(Tarpit::stage, (&ready,), then),
    ensures
        task_count >= settings.max_connections || lines == 0 ==> stage == TarpitStage::End && then
            == TarpitStage::End,
        task_count < settings.max_connections && lines > 0 ==> stage == TarpitStage::AwaitWritable
            && then == TarpitStage::Write(0),
        client@.lines == lines,
        client@.repeat_time == settings.banner_repeat_time,
        ready@.lines == lines,
        ready@.repeat_time == settings.banner_repeat_time,
{
}

/// A client whose stream cannot be waited for is let go, and stays so. No other failure ends it.
pub proof fn clients_are_let_go(client: Tarpit, ok: bool, after: Tarpit)
    requires
        call_ensures(Tarpit::advance, (client, ok), after),
    ensures
        after@.stage is End <==> client@.stage is End || client@.stage is AwaitWritable && !ok,
        after@.lines == client@.lines,
        after@.repeat_time == client@.repeat_time,
{
}

/// A line is written once the stream can be written to, and the tarpit rests for its time after it,
/// whether the line was written well or not. Then the stream is waited for again, and the next line
/// is the one after it; after the last line it is the first.
pub proof fn lines_are_written_between_rests(
    client: Tarpit,
    ready: Tarpit,
    written: bool,
    resting: Tarpit,
    rested: bool,
    again: Tarpit,
    next: Tarpit,
)
    requires
        client@.stage is AwaitWritable,
        client@.line < client@.lines <= usize::MAX,
        call_ensures(Tarpit::advance, (client, true), ready),
        call_ensures(Tarpit::advance, (ready, written), resting),
        call_ensures(Tarpit::advance, (resting, rested), again),
        call_ensures(Tarpit::advance, (again, true), next),
    ensures
        ready@.stage == TarpitStage::Write(client@.line as usize),
        resting@.stage == TarpitStage::Rest(client@.repeat_time),
        again@.stage is AwaitWritable,
        client@.line + 1 < client@.lines ==> next@.stage == TarpitStage::Write(
            (client@.line + 1) as usize,
        ),
        client@.line + 1 == client@.lines ==> next@.stage == TarpitStage::Write(0),
        next@.repeat_time == client@.repeat_time,
        next@.lines == client@.lines,
{
}

/// The tarpit and the gatekeeper keep what they are made from, and serve connections over TCP
/// alone.
pub proof fn services_keep_their_parts<R, T, C>(
    config: SshTarpitConfig,
    receiver: R,
    tracker: T,
    tarpit: SshTarpit<R, T>,
    gatekeeper: GatekeeperAuth<R, T>,
    conn: ForwardedConnection<C>,
    trapped: Option<C>,
    served: Option<C>,
)
    requires
        call_ensures(SshTarpit::<R, T>::new, (config, receiver, tracker), tarpit),
        call_ensures(GatekeeperAuth::<R, T>::new, (receiver, tracker), gatekeeper),
        call_ensures(trapped_stream::<C>, (conn,), trapped),
        call_ensures(served_stream::<C>, (conn,), served),
    ensures
        tarpit.settings.max_connections == config.max_connections,
        tarpit.settings.banner_repeat_time == config.banner_repeat_time,
        tarpit.forward_receiver == receiver,
        tarpit.conn_tracker == tracker,
        gatekeeper.forward_receiver == receiver,
        gatekeeper.task_tracker == tracker,
        conn.inner matches ConnectionInner::Tcp(stream) ==> trapped == Some(stream) && served
            == Some(stream),
        conn.inner is Quic ==> trapped is None && served is None,
{
}

} // verus!
