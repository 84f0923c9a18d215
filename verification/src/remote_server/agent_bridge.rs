//! What passes between the agent and the devices that are connected.

use vstd::prelude::*;

use crate::ids;
use crate::json::Json;
use crate::text;

verus! {

/// What a device says to the agent.
#[derive(Debug)]
pub enum ClientToAgentMessage {
    Chat { content: String },
    GetHistory,
    Cancel,
    GetInitialState,
}

/// What the agent says to the devices.
#[allow(inconsistent_fields)]
#[derive(Debug)]
pub enum AgentToClientMessage {
    TextChunk { entry_index: usize, content: String },
    ToolStart { entry_index: usize, tool_call_id: String, tool_name: String, tool_input: Json },
    ToolResult {
        entry_index: usize,
        tool_call_id: String,
        tool_name: String,
        result: String,
        error: Option<String>,
    },
    ResponseComplete { entry_index: usize },
    Error { message: String },
    HistoryEntry { role: String, content: String },
    TokenUsageUpdate { used_tokens: u64, max_tokens: u64 },
    ModelInfoUpdate { model_id: String, model_name: String },
}

/// The devices that are connected, each by its identifier.
#[derive(Debug)]
pub struct AgentBridge {
    pub clients: Vec<String>,
}

/// The devices that stay when some are gone.
pub open spec fn remaining(clients: Seq<Seq<char>>, gone: Seq<Seq<char>>) -> Seq<Seq<char>>
    decreases clients.len(),
{
    if clients.len() == 0 {
        Seq::empty()
    } else {
        let before = remaining(clients.drop_last(), gone);
        if gone.contains(clients.last()) {
            before
        } else {
            before.push(clients.last())
        }
    }
}

impl AgentBridge {
    /// The devices that are connected.
    pub open spec fn connected(&self) -> Seq<Seq<char>> {
        text::views(self.clients@)
    }

    /// No device is connected.
    pub fn new() -> (r: AgentBridge)
        ensures
            r.connected() == Seq::<Seq<char>>::empty(),
    {
        let r = AgentBridge { clients: Vec::new() };
        assert(r.connected() =~= Seq::empty());
        r
    }

    /// Connects a device. Gives back its identifier, which chance has made.
    pub fn create_connection(&mut self) -> (r: String)
        ensures
            ids::is_uuid(r@),
            final(self).connected() == remaining(old(self).connected(), seq![r@]).push(r@),
    {
        let id = ids::new_uuid();
        self.connect(id.clone());
        id
    }

    /// Connects a device with an identifier. One that has it is replaced.
    pub fn connect(&mut self, id: String)
        ensures
            final(self).connected() == remaining(old(self).connected(), seq![id@]).push(id@),
    {
        let mut gone: Vec<String> = Vec::new();
        gone.push(id.clone());
        assert(text::views(gone@) =~= seq![id@]);
        self.forget(&gone);
        let ghost seen = self.clients@;
        self.clients.push(id);
        assert(text::views(self.clients@) =~= text::views(seen).push(id@));
    }

    /// Disconnects a device.
    pub fn disconnect(&mut self, id: &str)
        ensures
            final(self).connected() == remaining(old(self).connected(), seq![id@]),
    {
        let mut gone: Vec<String> = Vec::new();
        gone.push(id.to_owned());
        assert(text::views(gone@) =~= seq![id@]);
        self.forget(&gone);
    }

    /// Disconnects the devices that are gone, and gives back those that a message is sent to.
    pub fn broadcast_to_clients(&mut self, gone: &Vec<String>) -> (r: Vec<String>)
        ensures
            final(self).connected() == remaining(old(self).connected(), text::views(gone@)),
            text::views(r@) == final(self).connected(),
    {
        self.forget(gone);
        text::copy_strings(&self.clients)
    }

    fn forget(&mut self, gone: &Vec<String>)
        ensures
            final(self).connected() == remaining(old(self).connected(), text::views(gone@)),
    {
        let ghost all = self.connected();
        let ghost left = text::views(gone@);
        let mut kept: Vec<String> = Vec::new();
        assert(text::views(kept@) =~= remaining(all.take(0), left));
        for i in 0..self.clients.len()
            invariant
                all == text::views(self.clients@),
                left == text::views(gone@),
                text::views(kept@) == remaining(all.take(i as int), left),
        {
            assert(all.take(i + 1).drop_last() =~= all.take(i as int));
            assert(all.take(i + 1).last() == self.clients@[i as int]@);
            if !text::contains_text(gone, self.clients[i].as_str()) {
                let ghost seen = kept@;
                let id = self.clients[i].clone();
                kept.push(id);
                assert(text::views(kept@) =~= text::views(seen).push(id@));
            }
        }
        assert(all.take(all.len() as int) =~= all);
        self.clients = kept;
    }
}

// ---------------------------------------------------------------------------
// Laws
// ---------------------------------------------------------------------------

/// A device stays connected until it is gone, and one that is gone stays away.
pub proof fn only_the_gone_leave(clients: Seq<Seq<char>>, gone: Seq<Seq<char>>, id: Seq<char>)
    ensures
        remaining(clients, gone).contains(id) == (clients.contains(id) && !gone.contains(id)),
    decreases clients.len(),
{
    if clients.len() > 0 {
        let less = clients.drop_last();
        only_the_gone_leave(less, gone, id);
        text::contains_one_more(clients, clients.len() - 1, id);
        assert(clients.take(clients.len() - 1) =~= less);
        assert(clients.take(clients.len() as int) =~= clients);
        let before = remaining(less, gone);
        let now = before.push(clients.last());
        text::contains_one_more(now, before.len() as int, id);
        assert(now.take(before.len() as int) =~= before);
        assert(now.take(before.len() as int + 1) =~= now);
    }
}

/// After it has connected and disconnected, a device is not there.
pub proof fn connect_then_disconnect(clients: Seq<Seq<char>>, id: Seq<char>)
    ensures
        remaining(remaining(clients, seq![id]).push(id), seq![id]) == remaining(clients, seq![id]),
{
    let before = remaining(clients, seq![id]);
    let now = before.push(id);
    assert(now.drop_last() =~= before);
    assert(seq![id][0] == id);
    remaining_twice(clients, seq![id]);
}

/// Those that are gone leave once.
proof fn remaining_twice(clients: Seq<Seq<char>>, gone: Seq<Seq<char>>)
    ensures
        remaining(remaining(clients, gone), gone) == remaining(clients, gone),
    decreases clients.len(),
{
    if clients.len() > 0 {
        remaining_twice(clients.drop_last(), gone);
        let before = remaining(clients.drop_last(), gone);
        assert(before.push(clients.last()).drop_last() =~= before);
    }
}

} // verus!
