use vstd::prelude::*;

verus! {

/// Nominal encoded bit rate that a station reports, in bits per second.
pub const NOMINAL_BITRATE: u32 = 128000;

/// Metadata that a station publishes to its listeners.
#[derive(Debug, Clone)]
pub struct StationInfo {
    pub name: String,
    pub description: String,
    pub bitrate: u32,
    pub sample_rate: u32,
    pub channels: u8,
    pub listeners: usize,
}

/// A chat line as it is fanned out to every chat subscriber.
#[derive(Debug, Clone)]
pub struct ChatMessage {
    pub listener_id: usize,
    pub nickname: Option<String>,
    pub message: String,
    pub timestamp: u64,
}

/// Identity that the broadcaster attaches to a connection when it accepts it.
#[derive(Debug, Clone)]
pub struct ListenerInfo {
    pub id: usize,
    pub nickname: Option<String>,
}

/// Why a chat line was refused.
#[derive(Debug, Clone, Copy, PartialEq, Eq, Structural)]
pub enum ChatError {
    /// The sending connection carries no listener identity.
    ListenerInfoMissing,
}

impl ChatError {
    /// The error text handed back to the remote caller.
    pub fn describe(&self) -> (r: String)
        ensures
            r@ == "Listener info not found"@,
    {
        "Listener info not found".to_string()
    }
}

/// Builds the chat message that `sender` publishes with text `message` at
/// `timestamp` (seconds since the UNIX epoch).
pub fn compose_chat(sender: Option<&ListenerInfo>, message: String, timestamp: u64) -> (r: Result<
    ChatMessage,
    ChatError,
>)
    ensures
        sender is None <==> r is Err,
        r is Err ==> r == Err::<ChatMessage, ChatError>(ChatError::ListenerInfoMissing),
        sender matches Some(info) ==> (r matches Ok(m) && m.listener_id == info.id
            && m.nickname == info.nickname && m.message@ == message@ && m.timestamp
            == timestamp),
{
    match sender {
        None => Err(ChatError::ListenerInfoMissing),
        Some(info) => Ok(
            ChatMessage {
                listener_id: info.id,
                nickname: info.nickname.clone(),
                message,
                timestamp,
            },
        ),
    }
}

/// Whether `info` is what station `s` reports: its name, description and
/// encoder targets, the nominal bit rate, and its open sessions.
pub open spec fn reports(info: StationInfo, s: StationState) -> bool {
    &&& info.name@ == s.spec_name()
    &&& info.description@ == s.spec_description()
    &&& info.bitrate == NOMINAL_BITRATE
    &&& info.sample_rate == s.spec_sample_rate()
    &&& info.channels == s.spec_channels()
    &&& info.listeners == s.listener_count()
}

/// The listener count is the number of sessions that were accepted and not
/// yet released, in every well-formed state.
pub proof fn lemma_listener_count_is_open_sessions(s: StationState)
    requires
        s.wf(),
    ensures
        s.listener_count() == s.open_sessions().len(),
        s.open_sessions().finite(),
{
    s.lemma_count_is_open_sessions();
}

/// `info` is idempotent up to the listener count: two reports of one station,
/// however many sessions were accepted or released in between, agree on
/// everything but `listeners`, and agree on that too when the registry has
/// not changed in size.
pub proof fn lemma_info_stable(s1: StationState, s2: StationState, i1: StationInfo, i2: StationInfo)
    requires
        s2.same_station(&s1),
        reports(i1, s1),
        reports(i2, s2),
    ensures
        i1.name@ == i2.name@,
        i1.description@ == i2.description@,
        i1.bitrate == i2.bitrate,
        i1.sample_rate == i2.sample_rate,
        i1.channels == i2.channels,
        s1.listener_count() == s2.listener_count() ==> i1.listeners == i2.listeners,
{
    s2.lemma_same_station_fields(&s1);
}

/// The broadcaster's own state: its fixed description and the registry of
/// listener sessions that are currently open.
pub struct StationState {
    name: String,
    description: String,
    sample_rate: u32,
    channels: u8,
    open: Vec<usize>,
    next_id: usize,
}

impl StationState {
    /// Every open session has a distinct identifier below the next one to hand out.
    pub closed spec fn wf(&self) -> bool {
        &&& self.open@.no_duplicates()
        &&& forall|i: int| 0 <= i < self.open@.len() ==> #[trigger] self.open@[i] < self.next_id
    }

    /// Identifiers of the sessions that have been accepted and not yet released.
    pub closed spec fn open_sessions(&self) -> Set<usize> {
        self.open@.to_set()
    }

    pub closed spec fn listener_count(&self) -> nat {
        self.open@.len()
    }

    pub closed spec fn next_listener_id(&self) -> usize {
        self.next_id
    }

    pub closed spec fn spec_name(&self) -> Seq<char> {
        self.name@
    }

    pub closed spec fn spec_description(&self) -> Seq<char> {
        self.description@
    }

    pub closed spec fn spec_sample_rate(&self) -> u32 {
        self.sample_rate
    }

    pub closed spec fn spec_channels(&self) -> u8 {
        self.channels
    }

    /// Two states describe the same station when everything but the session
    /// registry agrees.
    pub closed spec fn same_station(&self, other: &StationState) -> bool {
        &&& self.name@ == other.name@
        &&& self.description@ == other.description@
        &&& self.sample_rate == other.sample_rate
        &&& self.channels == other.channels
    }

    proof fn lemma_count_is_open_sessions(&self)
        requires
            self.wf(),
        ensures
            self.listener_count() == self.open_sessions().len(),
            self.open_sessions().finite(),
    {
        self.open@.unique_seq_to_set();
    }

    proof fn lemma_same_station_fields(&self, other: &StationState)
        requires
            self.same_station(other),
        ensures
            self.spec_name() == other.spec_name(),
            self.spec_description() == other.spec_description(),
            self.spec_sample_rate() == other.spec_sample_rate(),
            self.spec_channels() == other.spec_channels(),
    {
    }

    /// A station with no listener yet; `sample_rate` and `channels` are the
    /// encoder's targets.
    pub fn new(name: String, description: String, sample_rate: u32, channels: u8) -> (r: Self)
        ensures
            r.wf(),
            r.spec_name() == name@,
            r.spec_description() == description@,
            r.spec_sample_rate() == sample_rate,
            r.spec_channels() == channels,
            r.listener_count() == 0,
            r.open_sessions() =~= Set::<usize>::empty(),
            r.next_listener_id() == 0,
    {
        StationState { name, description, sample_rate, channels, open: Vec::new(), next_id: 0 }
    }

    /// Number of listener sessions that are open now.
    pub fn listeners(&self) -> (r: usize)
        ensures
            r == self.listener_count(),
    {
        self.open.len()
    }

    /// The station's metadata as of now.
    pub fn info(&self) -> (r: StationInfo)
        ensures
            reports(r, *self),
    {
        StationInfo {
            name: self.name.clone(),
            description: self.description.clone(),
            bitrate: NOMINAL_BITRATE,
            sample_rate: self.sample_rate,
            channels: self.channels,
            listeners: self.open.len(),
        }
    }

    /// Opens a listener session and returns its fresh identifier; `None` once
    /// every identifier has been handed out.
    pub fn accept_listener(&mut self) -> (r: Option<usize>)
        requires
            old(self).wf(),
        ensures
            final(self).wf(),
            final(self).same_station(old(self)),
            old(self).next_listener_id() == usize::MAX <==> r is None,
            r is None ==> *final(self) == *old(self),
            r matches Some(id) ==> {
                &&& id == old(self).next_listener_id()
                &&& !old(self).open_sessions().contains(id)
                &&& final(self).open_sessions() == old(self).open_sessions().insert(id)
                &&& final(self).listener_count() == old(self).listener_count() + 1
                &&& final(self).next_listener_id() == id + 1
            },
    {
        if self.next_id == usize::MAX {
            return None;
        }
        let id = self.next_id;
        proof {
            if self.open@.contains(id) {
                let i = choose|i: int| 0 <= i < self.open@.len() && self.open@[i] == id;
                assert(self.open@[i] < self.next_id);
            }
        }
        self.open.push(id);
        self.next_id = id + 1;
        proof {
            assert(self.open@.to_set() =~= old(self).open@.to_set().insert(id)) by {
                assert forall|x: usize| self.open@.to_set().contains(x) <==> old(
                    self,
                ).open@.to_set().insert(id).contains(x) by {
                    if x != id && self.open@.contains(x) {
                        let i = choose|i: int| 0 <= i < self.open@.len() && self.open@[i] == x;
                        assert(old(self).open@[i] == x);
                    }
                    if old(self).open@.contains(x) {
                        let i = choose|i: int| 0 <= i < old(self).open@.len() && old(self).open@[i]
                            == x;
                        assert(self.open@[i] == x);
                    }
                    if x == id {
                        assert(self.open@[self.open@.len() - 1] == id);
                    }
                }
            }
        }
        Some(id)
    }

    /// Closes the session `id`. Returns whether it was open; an identifier that
    /// is not open leaves the state unchanged.
    pub fn release_listener(&mut self, id: usize) -> (r: bool)
        requires
            old(self).wf(),
        ensures
            final(self).wf(),
            final(self).same_station(old(self)),
            final(self).next_listener_id() == old(self).next_listener_id(),
            r == old(self).open_sessions().contains(id),
            final(self).open_sessions() == old(self).open_sessions().remove(id),
            r ==> final(self).listener_count() + 1 == old(self).listener_count(),
            !r ==> final(self).listener_count() == old(self).listener_count(),
    {
        let mut i: usize = 0;
        while i < self.open.len()
            invariant
                self == old(self),
                self.wf(),
                0 <= i <= self.open@.len(),
                forall|j: int| 0 <= j < i ==> self.open@[j] != id,
            decreases self.open@.len() - i,
        {
            if self.open[i] == id {
                let ghost before = self.open@;
                assert(before.no_duplicates());
                assert(forall|j: int| 0 <= j < before.len() ==> #[trigger] before[j] < self.next_id);
                self.open.remove(i);
                proof {
                    let after = self.open@;
                    assert(after =~= before.remove(i as int));
                    assert forall|a: int, b: int|
                        0 <= a < after.len() && 0 <= b < after.len() && a != b implies after[a]
                        != after[b] by {
                        let a2 = if a < i { a } else { a + 1 };
                        let b2 = if b < i { b } else { b + 1 };
                        assert(after[a] == before[a2]);
                        assert(after[b] == before[b2]);
                        assert(a2 != b2);
                    }
                    assert forall|j: int| 0 <= j < after.len() implies #[trigger] after[j]
                        < self.next_id by {
                        let j2 = if j < i { j } else { j + 1 };
                        assert(after[j] == before[j2]);
                    }
                    assert(before.contains(id)) by {
                        assert(before[i as int] == id);
                    }
                    assert(after.to_set() =~= before.to_set().remove(id)) by {
                        assert forall|x: usize| #[trigger] after.to_set().contains(x) <==> (
                        before.to_set().contains(x) && x != id) by {
                            if after.contains(x) {
                                let j = choose|j: int| 0 <= j < after.len() && after[j] == x;
                                let j2 = if j < i { j } else { j + 1 };
                                assert(before[j2] == x);
                                assert(j2 != i as int);
                            }
                            if before.contains(x) && x != id {
                                let j = choose|j: int| 0 <= j < before.len() && before[j] == x;
                                assert(j != i as int);
                                let j1 = if j < i { j } else { j - 1 };
                                assert(after[j1] == x);
                            }
                        }
                    }
                }
                return true;
            }
            i = i + 1;
        }
        proof {
            assert(!self.open@.contains(id));
            assert(self.open@.to_set() =~= self.open@.to_set().remove(id));
        }
        false
    }
}

} // verus!
