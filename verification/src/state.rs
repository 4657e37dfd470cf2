use vstd::prelude::*;

use crate::protocol::AgentEvent;
use crate::tools::ToolKind;

verus! {

/// The state of the current turn in the agent loop.
#[derive(Debug, Clone, PartialEq, Eq)]
pub enum TurnState {
    Idle,
    Streaming { turn_id: String },
    Done,
    Failed { error: String },
}

#[derive(Debug, Clone, Copy, PartialEq, Eq)]
pub enum ActiveToolStatus {
    Running,
    Success,
    Error,
}

#[derive(Debug, Clone, PartialEq, Eq)]
pub struct ActiveTool {
    pub call_id: String,
    pub tool_name: String,
    pub kind: ToolKind,
    pub status: ActiveToolStatus,
}

/// Agent runtime state driven by runtime events, one deterministic transition per event.
#[derive(Debug)]
pub struct AgentRuntimeState {
    pub turn_state: TurnState,
    pub turn_count: u64,
    /// Partial response text accumulated during the current streaming turn.
    pub streaming_text: String,
    pub active_tools: Vec<ActiveTool>,
    pub tool_call_count: u64,
}

/// Position of the tool with the given call id, if one is active.
pub open spec fn spec_tool_index(tools: Seq<ActiveTool>, call_id: Seq<char>) -> Option<int> {
    if exists|i: int| 0 <= i < tools.len() && tools[i].call_id@ == call_id {
        Some(choose|i: int| 0 <= i < tools.len() && tools[i].call_id@ == call_id && forall|j: int|
            0 <= j < i ==> tools[j].call_id@ != call_id)
    } else {
        None
    }
}

/// No two active tools share a call id.
pub open spec fn call_ids_unique(tools: Seq<ActiveTool>) -> bool {
    forall|i: int, j: int|
        0 <= i < j < tools.len() ==> (#[trigger] tools[i]).call_id@ != (#[trigger] tools[j]).call_id@
}

impl AgentRuntimeState {
    /// The state is well formed: active tools have distinct call ids.
    pub open spec fn well_formed(&self) -> bool {
        call_ids_unique(self.active_tools@)
    }

    /// A turn is being processed: the turn state is streaming.
    pub open spec fn busy(&self) -> bool {
        self.turn_state is Streaming
    }

    /// Whether the agent is currently processing a turn.
    pub fn is_busy(&self) -> (r: bool)
        ensures
            r == self.busy(),
    {
        match self.turn_state {
            TurnState::Streaming { .. } => true,
            _ => false,
        }
    }

    fn find_tool(&self, call_id: &String) -> (r: Option<usize>)
        ensures
            match spec_tool_index(self.active_tools@, call_id@) {
                Some(i) => r == Some(i as usize),
                None => r is None,
            },
            r matches Some(i) ==> i < self.active_tools@.len() && self.active_tools@[i as int].call_id@ == call_id@,
            r matches Some(i) ==> spec_tool_index(self.active_tools@, call_id@) == Some(i as int),
    {
        let mut i: usize = 0;
        while i < self.active_tools.len()
            invariant
                i <= self.active_tools@.len(),
                forall|j: int| 0 <= j < i ==> self.active_tools@[j].call_id@ != call_id@,
            decreases self.active_tools@.len() - i,
        {
            if self.active_tools[i].call_id == *call_id {
                proof {
                    let t = self.active_tools@;
                    let w = choose|k: int| 0 <= k < t.len() && t[k].call_id@ == call_id@ && forall|j: int|
                        0 <= j < k ==> t[j].call_id@ != call_id@;
                    if w < i {
                    } else if w > i {
                    }
                    assert(w == i);
                }
                return Some(i);
            }
            i += 1;
        }
        None
    }

    /// Apply an agent event, returning `true` if the turn state enum changed.
    pub fn apply_event(&mut self, event: &AgentEvent) -> (changed: bool)
        requires
            event is TurnStarted ==> old(self).turn_count < u64::MAX,
            event is ToolCallStarted ==> old(self).tool_call_count < u64::MAX,
        ensures
            changed == (event is TurnStarted || event is TurnComplete || event is TurnFailed),
            final(self).turn_state != old(self).turn_state ==> changed,
            event is TurnStarted ==> final(self).busy(),
            (event is TurnComplete || event is TurnFailed) ==> !final(self).busy(),
            old(self).well_formed() ==> final(self).well_formed(),
            match event {
                AgentEvent::TurnStarted { turn_id } => {
                    &&& final(self).turn_state matches TurnState::Streaming { turn_id: t } && t@ == turn_id@
                    &&& final(self).turn_count == old(self).turn_count + 1
                    &&& final(self).streaming_text@.len() == 0
                    &&& final(self).active_tools@.len() == 0
                    &&& final(self).tool_call_count == old(self).tool_call_count
                },
                AgentEvent::TextDelta { text } => {
                    &&& final(self).streaming_text@ == old(self).streaming_text@ + text@
                    &&& final(self).turn_state == old(self).turn_state
                    &&& final(self).turn_count == old(self).turn_count
                    &&& final(self).active_tools@ == old(self).active_tools@
                    &&& final(self).tool_call_count == old(self).tool_call_count
                },
                AgentEvent::ToolCallStarted { call_id, tool_name, kind, .. } => {
                    &&& final(self).turn_state == old(self).turn_state
                    &&& final(self).turn_count == old(self).turn_count
                    &&& final(self).streaming_text == old(self).streaming_text
                    &&& if spec_tool_index(old(self).active_tools@, call_id@) is Some {
                        &&& final(self).active_tools@ == old(self).active_tools@
                        &&& final(self).tool_call_count == old(self).tool_call_count
                    } else {
                        &&& final(self).active_tools@.len() == old(self).active_tools@.len() + 1
                        &&& final(self).active_tools@.drop_last() == old(self).active_tools@
                        &&& final(self).active_tools@.last().call_id@ == call_id@
                        &&& final(self).active_tools@.last().tool_name@ == tool_name@
                        &&& final(self).active_tools@.last().kind == *kind
                        &&& final(self).active_tools@.last().status == ActiveToolStatus::Running
                        &&& final(self).tool_call_count == old(self).tool_call_count + 1
                    }
                },
                AgentEvent::ToolCallCompleted { call_id, is_error, .. } => {
                    &&& final(self).turn_state == old(self).turn_state
                    &&& final(self).turn_count == old(self).turn_count
                    &&& final(self).streaming_text == old(self).streaming_text
                    &&& final(self).tool_call_count == old(self).tool_call_count
                    &&& match spec_tool_index(old(self).active_tools@, call_id@) {
                        None => final(self).active_tools@ == old(self).active_tools@,
                        Some(i) => {
                            &&& final(self).active_tools@.len() == old(self).active_tools@.len()
                            &&& forall|j: int| 0 <= j < old(self).active_tools@.len() && j != i
                                ==> final(self).active_tools@[j] == old(self).active_tools@[j]
                            &&& final(self).active_tools@[i].call_id == old(self).active_tools@[i].call_id
                            &&& final(self).active_tools@[i].tool_name == old(self).active_tools@[i].tool_name
                            &&& final(self).active_tools@[i].kind == old(self).active_tools@[i].kind
                            &&& final(self).active_tools@[i].status == if *is_error {
                                ActiveToolStatus::Error
                            } else {
                                ActiveToolStatus::Success
                            }
                        },
                    }
                },
                AgentEvent::TurnComplete => {
                    &&& final(self).turn_state == TurnState::Done
                    &&& final(self).active_tools@.len() == 0
                    &&& final(self).turn_count == old(self).turn_count
                    &&& final(self).streaming_text == old(self).streaming_text
                    &&& final(self).tool_call_count == old(self).tool_call_count
                },
                AgentEvent::TurnFailed { error, .. } => {
                    &&& final(self).turn_state matches TurnState::Failed { error: e } && e@ == error@
                    &&& final(self).active_tools@.len() == 0
                    &&& final(self).turn_count == old(self).turn_count
                    &&& final(self).streaming_text == old(self).streaming_text
                    &&& final(self).tool_call_count == old(self).tool_call_count
                },
                _ => *final(self) == *old(self),
            },
    {
        match event {
            AgentEvent::TurnStarted { turn_id } => {
                self.start_turn(turn_id);
                true
            },
            AgentEvent::TextDelta { text } => {
                self.streaming_text.append(text.as_str());
                false
            },
            AgentEvent::ThinkingDelta { .. } => false,
            AgentEvent::UsageUpdated(..) => false,
            AgentEvent::ToolCallStarted { call_id, tool_name, kind, .. } => {
                self.start_tool(call_id, tool_name, *kind);
                false
            },
            AgentEvent::ToolCallCompleted { call_id, is_error, .. } => {
                self.complete_tool(call_id, *is_error);
                false
            },
            AgentEvent::AcpAgentsRefreshed => false,
            AgentEvent::AcpAgentsRefreshFailed { .. } => false,
            AgentEvent::TurnComplete => {
                self.turn_state = TurnState::Done;
                self.active_tools.clear();
                true
            },
            AgentEvent::TurnFailed { error, .. } => {
                self.turn_state = TurnState::Failed { error: error.clone() };
                self.active_tools.clear();
                true
            },
        }
    }

    fn start_turn(&mut self, turn_id: &String)
        requires
            old(self).turn_count < u64::MAX,
        ensures
            final(self).turn_state matches TurnState::Streaming { turn_id: t } && t@ == turn_id@,
            final(self).turn_count == old(self).turn_count + 1,
            final(self).streaming_text@.len() == 0,
            final(self).active_tools@.len() == 0,
            final(self).tool_call_count == old(self).tool_call_count,
            final(self).well_formed(),
    {
        self.turn_state = TurnState::Streaming { turn_id: turn_id.clone() };
        self.turn_count = self.turn_count + 1;
        self.streaming_text = String::new();
        self.active_tools.clear();
    }

    fn start_tool(&mut self, call_id: &String, tool_name: &String, kind: ToolKind)
        requires
            old(self).tool_call_count < u64::MAX,
        ensures
            old(self).well_formed() ==> final(self).well_formed(),
            final(self).turn_state == old(self).turn_state,
            final(self).turn_count == old(self).turn_count,
            final(self).streaming_text == old(self).streaming_text,
            if spec_tool_index(old(self).active_tools@, call_id@) is Some {
                &&& final(self).active_tools@ == old(self).active_tools@
                &&& final(self).tool_call_count == old(self).tool_call_count
            } else {
                &&& final(self).active_tools@.len() == old(self).active_tools@.len() + 1
                &&& final(self).active_tools@.drop_last() == old(self).active_tools@
                &&& final(self).active_tools@.last().call_id@ == call_id@
                &&& final(self).active_tools@.last().tool_name@ == tool_name@
                &&& final(self).active_tools@.last().kind == kind
                &&& final(self).active_tools@.last().status == ActiveToolStatus::Running
                &&& final(self).tool_call_count == old(self).tool_call_count + 1
            },
    {
        match self.find_tool(call_id) {
            Some(_) => {},
            None => {
                let ghost before = self.active_tools@;
                self.active_tools.push(
                    ActiveTool {
                        call_id: call_id.clone(),
                        tool_name: tool_name.clone(),
                        kind,
                        status: ActiveToolStatus::Running,
                    },
                );
                self.tool_call_count = self.tool_call_count + 1;
                proof {
                    assert(self.active_tools@.drop_last() =~= before);
                    if call_ids_unique(before) {
                        assert forall|i: int, j: int|
                            0 <= i < j < self.active_tools@.len() implies (
                            #[trigger] self.active_tools@[i]).call_id@ != (
                            #[trigger] self.active_tools@[j]).call_id@ by {
                            if j == before.len() {
                                assert(self.active_tools@[i] == before[i]);
                            } else {
                                assert(self.active_tools@[i] == before[i]);
                                assert(self.active_tools@[j] == before[j]);
                            }
                        }
                    }
                }
            },
        }
    }

    fn complete_tool(&mut self, call_id: &String, is_error: bool)
        ensures
            old(self).well_formed() ==> final(self).well_formed(),
            final(self).turn_state == old(self).turn_state,
            final(self).turn_count == old(self).turn_count,
            final(self).streaming_text == old(self).streaming_text,
            final(self).tool_call_count == old(self).tool_call_count,
            match spec_tool_index(old(self).active_tools@, call_id@) {
                None => final(self).active_tools@ == old(self).active_tools@,
                Some(i) => {
                    &&& final(self).active_tools@.len() == old(self).active_tools@.len()
                    &&& forall|j: int| 0 <= j < old(self).active_tools@.len() && j != i
                        ==> final(self).active_tools@[j] == old(self).active_tools@[j]
                    &&& final(self).active_tools@[i].call_id == old(self).active_tools@[i].call_id
                    &&& final(self).active_tools@[i].tool_name == old(self).active_tools@[i].tool_name
                    &&& final(self).active_tools@[i].kind == old(self).active_tools@[i].kind
                    &&& final(self).active_tools@[i].status == if is_error {
                        ActiveToolStatus::Error
                    } else {
                        ActiveToolStatus::Success
                    }
                },
            },
    {
        match self.find_tool(call_id) {
            Some(i) => {
                let ghost before = self.active_tools@;
                let status = if is_error {
                    ActiveToolStatus::Error
                } else {
                    ActiveToolStatus::Success
                };
                let updated = ActiveTool {
                    call_id: self.active_tools[i].call_id.clone(),
                    tool_name: self.active_tools[i].tool_name.clone(),
                    kind: self.active_tools[i].kind,
                    status,
                };
                let ghost upd = updated;
                self.active_tools.set(i, updated);
                proof {
                    assert(spec_tool_index(before, call_id@) == Some(i as int));
                    assert(self.active_tools@ == before.update(i as int, upd));
                    assert(upd.call_id == before[i as int].call_id);
                    assert(upd.tool_name == before[i as int].tool_name);
                    if call_ids_unique(before) {
                        assert forall|a: int, b: int|
                            0 <= a < b < self.active_tools@.len() implies (
                            #[trigger] self.active_tools@[a]).call_id@ != (
                            #[trigger] self.active_tools@[b]).call_id@ by {
                            assert(self.active_tools@[a].call_id == before[a].call_id);
                            assert(self.active_tools@[b].call_id == before[b].call_id);
                        }
                    }
                }
            },
            None => {},
        }
    }
}

impl Default for AgentRuntimeState {
    fn default() -> (r: Self)
        ensures
            r.turn_state == TurnState::Idle,
            r.turn_count == 0,
            r.streaming_text@.len() == 0,
            r.active_tools@.len() == 0,
            r.tool_call_count == 0,
            r.well_formed(),
    {
        AgentRuntimeState {
            turn_state: TurnState::Idle,
            turn_count: 0,
            streaming_text: String::new(),
            active_tools: Vec::new(),
            tool_call_count: 0,
        }
    }
}

} // verus!
