use vstd::prelude::*;
use crate::config::Host;
use crate::interp::run;
use crate::panel::{PanelModel, RawTerminalPanel};
use crate::session::{ConnectionStatus, SshClient, SshEvent, host_after, status_after};

verus! {

/// The host's side of a session: its panel and its connection status.
pub struct HostModel {
    pub panel: PanelModel,
    pub status: ConnectionStatus,
    pub host: Option<Host>,
}

/// The effect of one event: data goes through the panel's interpreter;
/// any other event updates the status, and the panel is shown active
/// exactly while connected.
pub open spec fn delivered(m: HostModel, event: SshEvent) -> HostModel {
    let status = status_after(m.status, event);
    let host = host_after(m.status, m.host, event);
    match event {
        SshEvent::Data(bytes) => {
            let (parser, screen) = run(m.panel.parser, m.panel.screen, bytes@);
            HostModel { panel: PanelModel { parser, screen, ..m.panel }, status, host }
        },
        _ => HostModel {
            panel: PanelModel { active: status == ConnectionStatus::Connected, ..m.panel },
            status,
            host,
        },
    }
}

/// The effect of `events`, in order.
pub open spec fn delivered_all(m: HostModel, events: Seq<SshEvent>) -> HostModel
    decreases events.len(),
{
    if events.len() == 0 {
        m
    } else {
        delivered(delivered_all(m, events.drop_last()), events.last())
    }
}

pub open spec fn host_model(panel: &RawTerminalPanel, client: &SshClient) -> HostModel {
    HostModel { panel: panel@, status: client.status, host: client.host }
}

/// Applies one event from the reading side to the panel and the client.
pub fn deliver(panel: &mut RawTerminalPanel, client: &mut SshClient, event: SshEvent)
    requires
        old(panel).wf(),
    ensures
        final(panel).wf(),
        host_model(final(panel), final(client)) == delivered(host_model(old(panel), old(client)), event),
{
    match &event {
        SshEvent::Data(bytes) => {
            panel.write_ssh_data(bytes.as_slice());
        },
        _ => {},
    }
    let is_data = match &event {
        SshEvent::Data(_) => true,
        _ => false,
    };
    client.handle_event(event);
    if !is_data {
        let active = client.is_connected();
        panel.set_active(active);
    }
}

/// Applies pending events in arrival order.
pub fn deliver_all(panel: &mut RawTerminalPanel, client: &mut SshClient, events: Vec<SshEvent>)
    requires
        old(panel).wf(),
    ensures
        final(panel).wf(),
        host_model(final(panel), final(client)) == delivered_all(host_model(old(panel), old(client)), events@),
{
    let ghost start = host_model(panel, client);
    let ghost all = events@;
    let mut rest = events;
    assert(all.len() == rest.len());
    let mut i: usize = 0;
    assert(all.subrange(0, 0) =~= Seq::<SshEvent>::empty());
    while rest.len() > 0
        invariant
            panel.wf(),
            i <= all.len(),
            all.len() <= usize::MAX,
            rest@ == all.subrange(i as int, all.len() as int),
            host_model(panel, client) == delivered_all(start, all.subrange(0, i as int)),
        decreases rest@.len(),
    {
        let ev = rest.remove(0);
        assert(all.subrange(0, i + 1).drop_last() =~= all.subrange(0, i as int));
        deliver(panel, client, ev);
        i = i + 1;
        assert(rest@ =~= all.subrange(i as int, all.len() as int));
    }
    assert(all.subrange(0, all.len() as int) =~= all);
}

} // verus!
