//! The cloud-log sink: an idempotent resource-provisioning cache and a
//! bounded retry-with-repair state machine. The remote calls themselves are
//! performed by the caller, which reports each outcome back as an event.

use crate::json::json_bytes;
use crate::types::{msg_json, Message, MsgSpec};
use vstd::prelude::*;
use vstd::string::StringExecFns;

verus! {

/// Retention, in days, applied to every log group this sink creates.
pub const RETENTION_DAYS: i32 = 90;

/// How many times one message's put is retried before it is abandoned.
pub const MAX_PUT_RETRIES: u64 = 5;

/// The names a cache holds.
pub open spec fn name_set(v: Seq<String>) -> Set<Seq<char>> {
    Set::new(|s: Seq<char>| exists|i: int| 0 <= i < v.len() && v[i]@ == s)
}

/// The remote log group a message belongs to: one per project and source,
/// with an absent project name rendered as the literal word null.
pub open spec fn group_name_spec(m: MsgSpec) -> Seq<char> {
    "/vercel/"@ + (match m.project_name {
        Some(p) => p,
        None => "null"@,
    }) + "/"@ + m.source
}

/// The remote log stream a message belongs to: one per deployment.
pub open spec fn stream_name_spec(m: MsgSpec) -> Seq<char> {
    m.deployment_id
}

/// The name of the log group for one message.
pub fn group_name(m: &Message) -> (r: String)
    ensures
        r@ == group_name_spec(m@),
{
    let mut out: String = "/vercel/".to_owned();
    match &m.project_name {
        Some(p) => out.append(p.as_str()),
        None => out.append("null"),
    }
    out.append("/");
    out.append(m.source.as_str());
    out
}

/// The name of the log stream for one message.
pub fn stream_name(m: &Message) -> (r: String)
    ensures
        r@ == stream_name_spec(m@),
{
    m.deployment_id.clone()
}

/// Outcome of a remote resource creation, as the caller observed it. A
/// "resource already exists" answer counts as success: another instance won
/// the creation race, which is expected and benign.
#[derive(Clone, Copy, PartialEq, Eq, Structural, Debug)]
pub enum CreateOutcome {
    Created,
    AlreadyExists,
    Failed,
}

/// Outcome of applying the retention policy; it is best effort and never
/// fails the message.
#[derive(Clone, Copy, PartialEq, Eq, Structural, Debug)]
pub enum RetentionOutcome {
    Applied,
    Failed,
}

/// Outcome of one remote put, as the caller observed it. "Not found" means a
/// cached resource vanished out of band and must be recreated.
#[derive(Clone, Copy, PartialEq, Eq, Structural, Debug)]
pub enum PutOutcome {
    Delivered,
    NotFound,
    Failed,
}

/// Where one message's delivery stands; each non-terminal phase names the
/// remote call the caller must perform next. `repair` marks the recreate
/// cycle entered after a put came back "not found": there the stream is
/// recreated unconditionally rather than checked against the cache.
#[derive(Clone, Copy, PartialEq, Eq, Structural, Debug)]
pub enum SendPhase {
    CreateGroup { repair: bool },
    SetRetention { repair: bool },
    CreateStream { repair: bool },
    Put,
    Done { delivered: bool },
}

/// One message's delivery in flight: the derived resource names, the
/// serialized event, and the retry state.
pub struct SendSession {
    pub group: String,
    pub stream: String,
    pub payload: Vec<u8>,
    pub timestamp: i64,
    pub retries: u64,
    pub phase: SendPhase,
}

/// Abstract shape of a delivery in flight.
pub struct SessSpec {
    pub group: Seq<char>,
    pub stream: Seq<char>,
    pub payload: Seq<u8>,
    pub timestamp: i64,
    pub retries: u64,
    pub phase: SendPhase,
}

impl View for SendSession {
    type V = SessSpec;

    open spec fn view(&self) -> SessSpec {
        SessSpec {
            group: self.group@,
            stream: self.stream@,
            payload: self.payload@,
            timestamp: self.timestamp,
            retries: self.retries,
            phase: self.phase,
        }
    }
}

/// Where a fresh session starts: a group not yet known to exist is created
/// first; then the stream; a fully cached pair goes straight to the put.
pub open spec fn start_phase(
    groups: Set<Seq<char>>,
    streams: Set<Seq<char>>,
    group: Seq<char>,
    stream: Seq<char>,
) -> SendPhase {
    if !groups.contains(group) {
        SendPhase::CreateGroup { repair: false }
    } else if !streams.contains(stream) {
        SendPhase::CreateStream { repair: false }
    } else {
        SendPhase::Put
    }
}

/// How a create-group outcome advances a session: success or an existing
/// group is cached and retention follows; anything else abandons the
/// message.
pub open spec fn step_create_group(
    groups: Set<Seq<char>>,
    s: SessSpec,
    r: CreateOutcome,
) -> (Set<Seq<char>>, SessSpec)
    recommends
        s.phase is CreateGroup,
{
    match r {
        CreateOutcome::Failed => (
            groups,
            SessSpec { phase: SendPhase::Done { delivered: false }, ..s },
        ),
        _ => (
            groups.insert(s.group),
            SessSpec {
                phase: SendPhase::SetRetention { repair: s.phase->CreateGroup_repair },
                ..s
            },
        ),
    }
}

/// How the retention outcome advances a session: it is ignored either way;
/// in a repair cycle the stream is recreated unconditionally, otherwise the
/// cache decides whether the stream must be created.
pub open spec fn step_retention(
    streams: Set<Seq<char>>,
    s: SessSpec,
    r: RetentionOutcome,
) -> SessSpec
    recommends
        s.phase is SetRetention,
{
    if s.phase->SetRetention_repair {
        SessSpec { phase: SendPhase::CreateStream { repair: true }, ..s }
    } else if !streams.contains(s.stream) {
        SessSpec { phase: SendPhase::CreateStream { repair: false }, ..s }
    } else {
        SessSpec { phase: SendPhase::Put, ..s }
    }
}

/// How a create-stream outcome advances a session.
pub open spec fn step_create_stream(
    streams: Set<Seq<char>>,
    s: SessSpec,
    r: CreateOutcome,
) -> (Set<Seq<char>>, SessSpec)
    recommends
        s.phase is CreateStream,
{
    match r {
        CreateOutcome::Failed => (
            streams,
            SessSpec { phase: SendPhase::Done { delivered: false }, ..s },
        ),
        _ => (streams.insert(s.stream), SessSpec { phase: SendPhase::Put, ..s }),
    }
}

/// How a put outcome advances a session: delivery ends it; a failure counts
/// one retry and, past the budget, abandons the message; within the budget a
/// vanished resource enters the repair cycle and any other failure simply
/// puts again.
pub open spec fn step_put(s: SessSpec, r: PutOutcome) -> SessSpec
    recommends
        s.phase is Put,
        s.retries <= MAX_PUT_RETRIES,
{
    match r {
        PutOutcome::Delivered => SessSpec { phase: SendPhase::Done { delivered: true }, ..s },
        PutOutcome::NotFound => if s.retries >= MAX_PUT_RETRIES {
            SessSpec {
                retries: (s.retries + 1) as u64,
                phase: SendPhase::Done { delivered: false },
                ..s
            }
        } else {
            SessSpec {
                retries: (s.retries + 1) as u64,
                phase: SendPhase::CreateGroup { repair: true },
                ..s
            }
        },
        PutOutcome::Failed => if s.retries >= MAX_PUT_RETRIES {
            SessSpec {
                retries: (s.retries + 1) as u64,
                phase: SendPhase::Done { delivered: false },
                ..s
            }
        } else {
            SessSpec { retries: (s.retries + 1) as u64, phase: SendPhase::Put, ..s }
        },
    }
}

/// What holds of every session this driver hands out and keeps stepping: the
/// retry count stays within the budget, a session at the put step has both
/// its resources cached, and one past the group step has its group cached.
pub open spec fn session_inv(
    groups: Set<Seq<char>>,
    streams: Set<Seq<char>>,
    s: SessSpec,
) -> bool {
    &&& s.retries <= MAX_PUT_RETRIES + 1
    &&& (!(s.phase is Done) ==> s.retries <= MAX_PUT_RETRIES)
    &&& (s.phase is Put ==> groups.contains(s.group) && streams.contains(s.stream))
    &&& (s.phase is SetRetention ==> groups.contains(s.group))
    &&& (s.phase is CreateStream ==> groups.contains(s.group))
    &&& (s.phase is Done && s.phase->Done_delivered ==> groups.contains(s.group)
        && streams.contains(s.stream))
}

/// Whether a name is in a cache.
fn contains_name(v: &Vec<String>, name: &String) -> (r: bool)
    ensures
        r <==> name_set(v@).contains(name@),
{
    let mut i: usize = 0;
    while i < v.len()
        invariant
            i <= v@.len(),
            forall|k: int| 0 <= k < i ==> v@[k]@ != name@,
        decreases v@.len() - i,
    {
        if v[i] == *name {
            return true;
        }
        i += 1;
    }
    false
}

/// Record a name in a cache.
fn insert_name(v: &mut Vec<String>, name: &String)
    ensures
        name_set(final(v)@) == name_set(old(v)@).insert(name@),
{
    if !contains_name(v, name) {
        v.push(name.clone());
        proof {
            assert forall|s: Seq<char>| #[trigger] name_set(v@).contains(s) implies name_set(
                old(v)@,
            ).insert(name@).contains(s) by {
                let i = choose|i: int| 0 <= i < v@.len() && v@[i]@ == s;
                if i < v@.len() - 1 {
                    assert(old(v)@[i]@ == s);
                }
            }
            assert forall|s: Seq<char>|
                name_set(old(v)@).insert(name@).contains(s) implies #[trigger] name_set(
                v@,
            ).contains(s) by {
                if s == name@ {
                    assert(v@[v@.len() - 1]@ == s);
                } else {
                    let i = choose|i: int| 0 <= i < old(v)@.len() && old(v)@[i]@ == s;
                    assert(v@[i]@ == s);
                }
            }
            assert(name_set(v@) =~= name_set(old(v)@).insert(name@));
        }
    } else {
        proof {
            assert(name_set(v@) =~= name_set(v@).insert(name@));
        }
    }
}

/// The cloud-log sink's local knowledge: the remote groups and streams known
/// to exist. A cached name was either listed at start-up or created by this
/// driver; the repair cycle recovers when that knowledge goes stale.
pub struct CloudWatchDriver {
    groups: Vec<String>,
    streams: Vec<String>,
}

impl CloudWatchDriver {
    /// The groups known to exist.
    pub closed spec fn groups_set(&self) -> Set<Seq<char>> {
        name_set(self.groups@)
    }

    /// The streams known to exist.
    pub closed spec fn streams_set(&self) -> Set<Seq<char>> {
        name_set(self.streams@)
    }

    /// A fresh driver knows of no remote resource.
    pub fn new() -> (r: CloudWatchDriver)
        ensures
            r.groups_set() == Set::<Seq<char>>::empty(),
            r.streams_set() == Set::<Seq<char>>::empty(),
    {
        let r = CloudWatchDriver { groups: Vec::new(), streams: Vec::new() };
        proof {
            assert(r.groups_set() =~= Set::<Seq<char>>::empty());
            assert(r.streams_set() =~= Set::<Seq<char>>::empty());
        }
        r
    }

    /// Seed the cache with groups listed remotely at start-up.
    pub fn note_groups(&mut self, names: &Vec<String>)
        ensures
            final(self).groups_set() == old(self).groups_set() + name_set(names@),
            final(self).streams_set() == old(self).streams_set(),
    {
        let mut i: usize = 0;
        proof {
            assert(name_set(names@.take(0)) =~= Set::<Seq<char>>::empty());
            assert(self.groups_set() =~= old(self).groups_set() + name_set(names@.take(0)));
        }
        while i < names.len()
            invariant
                i <= names@.len(),
                self.groups_set() == old(self).groups_set() + name_set(
                    names@.take(i as int),
                ),
                self.streams_set() == old(self).streams_set(),
            decreases names@.len() - i,
        {
            insert_name(&mut self.groups, &names[i]);
            i += 1;
            proof {
                lemma_name_set_take(names@, i as int);
                assert(self.groups_set() =~= old(self).groups_set() + name_set(
                    names@.take(i as int),
                ));
            }
        }
        proof {
            assert(names@.take(names@.len() as int) =~= names@);
        }
    }

    /// Seed the cache with streams listed remotely at start-up.
    pub fn note_streams(&mut self, names: &Vec<String>)
        ensures
            final(self).streams_set() == old(self).streams_set() + name_set(names@),
            final(self).groups_set() == old(self).groups_set(),
    {
        let mut i: usize = 0;
        proof {
            assert(name_set(names@.take(0)) =~= Set::<Seq<char>>::empty());
            assert(self.streams_set() =~= old(self).streams_set() + name_set(
                names@.take(0),
            ));
        }
        while i < names.len()
            invariant
                i <= names@.len(),
                self.streams_set() == old(self).streams_set() + name_set(
                    names@.take(i as int),
                ),
                self.groups_set() == old(self).groups_set(),
            decreases names@.len() - i,
        {
            insert_name(&mut self.streams, &names[i]);
            i += 1;
            proof {
                lemma_name_set_take(names@, i as int);
                assert(self.streams_set() =~= old(self).streams_set() + name_set(
                    names@.take(i as int),
                ));
            }
        }
        proof {
            assert(names@.take(names@.len() as int) =~= names@);
        }
    }

    /// Open a delivery session for one message: derive its group and stream,
    /// serialize it, and decide the first remote call from the cache.
    pub fn start_send(&self, m: &Message) -> (s: SendSession)
        ensures
            s@.group == group_name_spec(m@),
            s@.stream == stream_name_spec(m@),
            s@.payload == json_bytes(msg_json(m@)),
            s@.timestamp == m@.timestamp,
            s@.retries == 0,
            s@.phase == start_phase(
                self.groups_set(),
                self.streams_set(),
                group_name_spec(m@),
                stream_name_spec(m@),
            ),
            session_inv(self.groups_set(), self.streams_set(), s@),
    {
        let group = group_name(m);
        let stream = stream_name(m);
        let payload = crate::types::message_line(m);
        let phase = if !contains_name(&self.groups, &group) {
            SendPhase::CreateGroup { repair: false }
        } else if !contains_name(&self.streams, &stream) {
            SendPhase::CreateStream { repair: false }
        } else {
            SendPhase::Put
        };
        SendSession { group, stream, payload, timestamp: m.timestamp, retries: 0, phase }
    }

    /// Advance a session on the outcome of the create-group call it asked
    /// for.
    pub fn on_create_group(&mut self, s: &mut SendSession, r: CreateOutcome)
        requires
            old(s)@.phase is CreateGroup,
        ensures
            (final(self).groups_set(), final(s)@) == step_create_group(
                old(self).groups_set(),
                old(s)@,
                r,
            ),
            final(self).streams_set() == old(self).streams_set(),
            session_inv(old(self).groups_set(), old(self).streams_set(), old(s)@)
                ==> session_inv(final(self).groups_set(), final(self).streams_set(), final(s)@),
    {
        match r {
            CreateOutcome::Failed => {
                s.phase = SendPhase::Done { delivered: false };
            },
            _ => {
                insert_name(&mut self.groups, &s.group);
                s.phase = SendPhase::SetRetention {
                    repair: match s.phase {
                        SendPhase::CreateGroup { repair } => repair,
                        _ => false,
                    },
                };
            },
        }
    }

    /// Advance a session past the best-effort retention step; the outcome is
    /// noted and ignored.
    pub fn on_retention(&self, s: &mut SendSession, r: RetentionOutcome)
        requires
            old(s)@.phase is SetRetention,
        ensures
            final(s)@ == step_retention(self.streams_set(), old(s)@, r),
            session_inv(self.groups_set(), self.streams_set(), old(s)@) ==> session_inv(
                self.groups_set(),
                self.streams_set(),
                final(s)@,
            ),
    {
        let repair = match s.phase {
            SendPhase::SetRetention { repair } => repair,
            _ => false,
        };
        if repair {
            s.phase = SendPhase::CreateStream { repair: true };
        } else if !contains_name(&self.streams, &s.stream) {
            s.phase = SendPhase::CreateStream { repair: false };
        } else {
            s.phase = SendPhase::Put;
        }
    }

    /// Advance a session on the outcome of the create-stream call it asked
    /// for.
    pub fn on_create_stream(&mut self, s: &mut SendSession, r: CreateOutcome)
        requires
            old(s)@.phase is CreateStream,
        ensures
            (final(self).streams_set(), final(s)@) == step_create_stream(
                old(self).streams_set(),
                old(s)@,
                r,
            ),
            final(self).groups_set() == old(self).groups_set(),
            session_inv(old(self).groups_set(), old(self).streams_set(), old(s)@)
                ==> session_inv(final(self).groups_set(), final(self).streams_set(), final(s)@),
    {
        match r {
            CreateOutcome::Failed => {
                s.phase = SendPhase::Done { delivered: false };
            },
            _ => {
                insert_name(&mut self.streams, &s.stream);
                s.phase = SendPhase::Put;
            },
        }
    }

    /// Advance a session on the outcome of the put it asked for.
    pub fn on_put(&self, s: &mut SendSession, r: PutOutcome)
        requires
            old(s)@.phase is Put,
            old(s)@.retries <= MAX_PUT_RETRIES,
        ensures
            final(s)@ == step_put(old(s)@, r),
            session_inv(self.groups_set(), self.streams_set(), old(s)@) ==> session_inv(
                self.groups_set(),
                self.streams_set(),
                final(s)@,
            ),
    {
        match r {
            PutOutcome::Delivered => {
                s.phase = SendPhase::Done { delivered: true };
            },
            PutOutcome::NotFound => {
                s.retries = s.retries + 1;
                if s.retries > MAX_PUT_RETRIES {
                    s.phase = SendPhase::Done { delivered: false };
                } else {
                    s.phase = SendPhase::CreateGroup { repair: true };
                }
            },
            PutOutcome::Failed => {
                s.retries = s.retries + 1;
                if s.retries > MAX_PUT_RETRIES {
                    s.phase = SendPhase::Done { delivered: false };
                }
            },
        }
    }
}

/// A name recorded so far is a name of the list.
proof fn lemma_name_set_take(names: Seq<String>, i: int)
    requires
        0 < i <= names.len(),
    ensures
        name_set(names.take(i)) =~= name_set(names.take(i - 1)).insert(names[i - 1]@),
{
    assert forall|s: Seq<char>| #[trigger] name_set(names.take(i)).contains(s) implies name_set(
        names.take(i - 1),
    ).insert(names[i - 1]@).contains(s) by {
        let k = choose|k: int| 0 <= k < names.take(i).len() && names.take(i)[k]@ == s;
        if k < i - 1 {
            assert(names.take(i - 1)[k]@ == s);
        }
    }
    assert forall|s: Seq<char>|
        name_set(names.take(i - 1)).insert(names[i - 1]@).contains(s) implies #[trigger] name_set(
        names.take(i),
    ).contains(s) by {
        if s == names[i - 1]@ {
            assert(names.take(i)[i - 1]@ == s);
        } else {
            let k = choose|k: int|
                0 <= k < names.take(i - 1).len() && (#[trigger] names.take(i - 1)[k])@ == s;
            assert(names.take(i)[k]@ == s);
        }
    }
}

/// Idempotent provisioning: once both resource names are cached, a new send
/// session starts directly at the put step, so no creation call is issued
/// for a resource already known to exist.
pub proof fn lemma_cached_resources_skip_creation(
    groups: Set<Seq<char>>,
    streams: Set<Seq<char>>,
    group: Seq<char>,
    stream: Seq<char>,
)
    requires
        groups.contains(group),
        streams.contains(stream),
    ensures
        start_phase(groups, streams, group, stream) == SendPhase::Put,
{
}

/// A session that delivered its message leaves both its resources cached, so
/// a second send for the same group and stream issues no creation call at
/// all.
pub proof fn lemma_second_send_skips_creation(
    groups: Set<Seq<char>>,
    streams: Set<Seq<char>>,
    s: SessSpec,
)
    requires
        session_inv(groups, streams, s),
        s.phase == (SendPhase::Done { delivered: true }),
    ensures
        start_phase(groups, streams, s.group, s.stream) == SendPhase::Put,
{
}

/// A put answered "not found" within the retry budget triggers exactly one
/// recreate cycle — create the group, set retention, create the stream —
/// and then puts again, with one more retry recorded and both resources
/// cached.
pub proof fn lemma_not_found_repairs_once(
    groups: Set<Seq<char>>,
    streams: Set<Seq<char>>,
    s: SessSpec,
    c1: CreateOutcome,
    rt: RetentionOutcome,
    c2: CreateOutcome,
)
    requires
        s.phase is Put,
        s.retries < MAX_PUT_RETRIES,
        c1 != CreateOutcome::Failed,
        c2 != CreateOutcome::Failed,
    ensures
        ({
            let s1 = step_put(s, PutOutcome::NotFound);
            let (groups2, s2) = step_create_group(groups, s1, c1);
            let s3 = step_retention(streams, s2, rt);
            let (streams4, s4) = step_create_stream(streams, s3, c2);
            &&& s1.phase == (SendPhase::CreateGroup { repair: true })
            &&& s2.phase == (SendPhase::SetRetention { repair: true })
            &&& s3.phase == (SendPhase::CreateStream { repair: true })
            &&& s4.phase == SendPhase::Put
            &&& s4.retries == s.retries + 1
            &&& groups2 == groups.insert(s.group)
            &&& streams4 == streams.insert(s.stream)
            &&& s4.group == s.group && s4.stream == s.stream && s4.payload == s.payload
        }),
{
}

/// The session a run of put failures leads to.
pub open spec fn puts_failed(s: SessSpec, n: nat) -> SessSpec
    decreases n,
{
    if n == 0 {
        s
    } else {
        step_put(puts_failed(s, (n - 1) as nat), PutOutcome::Failed)
    }
}

/// The retry budget: a message whose put always fails is retried exactly
/// five times — after up to five failures the session is still putting —
/// and the sixth failure abandons the message as a permanent failure.
pub proof fn lemma_retry_budget(s: SessSpec, n: nat)
    requires
        s.phase is Put,
        s.retries == 0,
    ensures
        n <= MAX_PUT_RETRIES ==> puts_failed(s, n).phase is Put && puts_failed(s, n).retries
            == n,
        n == MAX_PUT_RETRIES + 1 ==> puts_failed(s, n).phase == (SendPhase::Done {
            delivered: false,
        }),
    decreases n,
{
    if n > 0 {
        lemma_retry_budget(s, (n - 1) as nat);
    }
}

} // verus!
