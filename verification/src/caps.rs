use vstd::prelude::*;
use crate::names::{cmd_apply_edit, cmd_apply_edit_vec, cmd_notify, cmd_notify_vec, dot_trigger, dot_trigger_vec, server_name, server_name_vec, server_version, server_version_vec};

verus! {

// ---------------------------------------------------------------------------
// Capability negotiator: the static record the server advertises during
// `initialize`. Handlers must accept nothing that is not advertised here.
// ---------------------------------------------------------------------------

/// The server's name and version as sent in the `initialize` result.
pub struct ServerInfo {
    pub name: Vec<u8>,
    pub version: Vec<u8>,
}

/// How document synchronization is granted: whole text or ranged edits.
pub enum SyncKind {
    Full,
    Incremental,
}

/// The advertised feature surface: sync granularity, completion triggers,
/// and the literal list of executable command names.
pub struct Capabilities {
    pub sync: SyncKind,
    pub resolve_provider: bool,
    pub trigger_characters: Vec<Vec<u8>>,
    pub commands: Vec<Vec<u8>>,
}

/// The mathematical content of a capability record.
pub struct CapsModel {
    pub incremental: bool,
    pub resolve: bool,
    pub triggers: Seq<Seq<u8>>,
    pub commands: Seq<Seq<u8>>,
}

impl Capabilities {
    pub open spec fn model(&self) -> CapsModel {
        CapsModel {
            incremental: self.sync is Incremental,
            resolve: self.resolve_provider,
            triggers: self.trigger_characters.deep_view(),
            commands: self.commands.deep_view(),
        }
    }
}

impl ServerInfo {
    pub open spec fn model(&self) -> (Seq<u8>, Seq<u8>) {
        (self.name@, self.version@)
    }
}

/// What the negotiator must produce: incremental sync, no resolve support,
/// `.` as the one completion trigger, and exactly the two known commands.
pub open spec fn capabilities_spec() -> CapsModel {
    CapsModel {
        incremental: true,
        resolve: false,
        triggers: seq![dot_trigger()],
        commands: seq![cmd_apply_edit(), cmd_notify()],
    }
}

pub open spec fn server_info_spec() -> (Seq<u8>, Seq<u8>) {
    (server_name(), server_version())
}

/// Computes the server's capability set; pure, and invoked once per
/// connection while answering `initialize`.
pub fn negotiate() -> (c: Capabilities)
    ensures
        c.model() == capabilities_spec(),
{
    let mut trigger_characters: Vec<Vec<u8>> = Vec::new();
    trigger_characters.push(dot_trigger_vec());
    let mut commands: Vec<Vec<u8>> = Vec::new();
    commands.push(cmd_apply_edit_vec());
    commands.push(cmd_notify_vec());
    let c = Capabilities {
        sync: SyncKind::Incremental,
        resolve_provider: false,
        trigger_characters,
        commands,
    };
    proof {
        assert(c.model().triggers =~~= capabilities_spec().triggers);
        assert(c.model().commands =~~= capabilities_spec().commands);
        assert(c.model() == capabilities_spec());
    }
    c
}

/// The identity record sent in the `initialize` result.
pub fn server_info() -> (s: ServerInfo)
    ensures
        s.model() == server_info_spec(),
{
    ServerInfo { name: server_name_vec(), version: server_version_vec() }
}

} // verus!
