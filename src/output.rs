//! The registry of output endpoints and the dispatch of events to them.
use crate::endpoint::{EndpointConfig, EndpointParameters, EndpointType};
use crate::event::{is_midi_kind, midi_message, midi_message_spec, MidiMessage, OutputEvent, OutputEventType};
use crate::ids::EndpointId;
use vstd::prelude::*;

verus! {

/// Why an endpoint operation failed.
#[derive(Clone, Copy, Debug, PartialEq, Eq, Structural)]
pub enum OutputError {
    /// No endpoint is registered under the identity.
    NotFound(EndpointId),
    /// The endpoint is not connected.
    NotConnected,
    /// The endpoint does not carry this kind of event.
    UnsupportedEvent,
    /// Endpoints of this kind cannot be set up.
    UnsupportedEndpointType(EndpointType),
    /// The parameters do not belong to the endpoint's kind.
    InvalidParameters,
    /// The device identifier is not `"<port index>:<port name>"`.
    InvalidDeviceId,
    /// The port index of the device identifier is not a number.
    InvalidPortIndex,
    /// The port index is not below the number of ports.
    PortOutOfRange { index: usize, available: usize },
}

/// One attempted send: the endpoint, and the message to write to it or why not.
#[derive(Clone, Copy, Debug)]
pub struct Dispatch {
    pub endpoint: EndpointId,
    pub outcome: Result<MidiMessage, OutputError>,
}

/// The outcome of sending `e` to a MIDI endpoint: the message to write if the
/// endpoint is connected, an explicit failure if it is not.
pub open spec fn midi_outcome(connected: bool, e: OutputEventType) -> Result<MidiMessage, OutputError> {
    match midi_message_spec(e) {
        None => Err(OutputError::UnsupportedEvent),
        Some(m) => if connected {
            Ok(m)
        } else {
            Err(OutputError::NotConnected)
        },
    }
}

/// Whether endpoints of kind `t` take events like `e` when they are broadcast.
pub open spec fn accepts(t: EndpointType, e: OutputEventType) -> bool {
    (t == EndpointType::Midi && is_midi_kind(e)) || (t == EndpointType::Audio
        && e is AudioBuffer)
}

/// Characters `a`, a colon, then characters `b`, with no colon in `a`.
pub open spec fn split_at_first_colon(s: Seq<char>, a: Seq<char>, b: Seq<char>) -> bool {
    s == a + seq![':'] + b && !a.contains(':')
}

/// The value of a run of decimal digits.
pub open spec fn digits_value(s: Seq<char>) -> int
    decreases s.len(),
{
    if s.len() == 0 {
        0
    } else {
        digits_value(s.drop_last()) * 10 + (s.last() as int - '0' as int)
    }
}

/// The unsigned number that `s` writes in decimal, with an optional leading
/// `+`, if it fits in `usize`.
pub open spec fn decimal_usize(s: Seq<char>) -> Option<int> {
    let d = if s.len() > 0 && s[0] == '+' {
        s.drop_first()
    } else {
        s
    };
    if d.len() > 0 && (forall|i: int| 0 <= i < d.len() ==> '0' <= #[trigger] d[i] <= '9')
        && digits_value(d) <= usize::MAX {
        Some(digits_value(d))
    } else {
        None
    }
}

/// Relies on str::split_once: splits at the first `:`, or `None` without one.
#[verifier::external_body]
fn split_device_id(s: &String) -> (r: Option<(String, String)>)
    ensures
        r is None <==> !s@.contains(':'),
        r matches Some((a, b)) ==> split_at_first_colon(s@, a@, b@),
{
    s.split_once(':').map(|(a, b)| (a.to_string(), b.to_string()))
}

/// Relies on <usize as FromStr>::from_str: decimal digits with an optional `+`,
/// rejected when empty or too large.
#[verifier::external_body]
fn parse_port_index(s: &String) -> (r: Option<usize>)
    ensures
        r matches Some(n) ==> decimal_usize(s@) == Some(n as int),
        r is None ==> decimal_usize(s@) is None,
{
    s.parse::<usize>().ok()
}

/// A MIDI output port, known by index and name; the connection itself is held
/// by whoever performs the writes.
#[derive(Clone, Debug)]
pub struct MidiOutputEndpoint {
    id: EndpointId,
    name: String,
    port_name: String,
    port_index: usize,
    connected: bool,
}

impl MidiOutputEndpoint {
    pub closed spec fn id_spec(&self) -> EndpointId {
        self.id
    }

    pub closed spec fn name_spec(&self) -> Seq<char> {
        self.name@
    }

    pub closed spec fn port_name_spec(&self) -> Seq<char> {
        self.port_name@
    }

    pub closed spec fn port_index_spec(&self) -> usize {
        self.port_index
    }

    pub closed spec fn connected_spec(&self) -> bool {
        self.connected
    }

    /// A disconnected endpoint for port `port_index`.
    pub fn new(id: EndpointId, name: String, port_index: usize, port_name: String) -> (r:
        MidiOutputEndpoint)
        ensures
            r.id_spec() == id,
            r.name_spec() == name@,
            r.port_index_spec() == port_index,
            r.port_name_spec() == port_name@,
            !r.connected_spec(),
    {
        MidiOutputEndpoint { id, name, port_name, port_index, connected: false }
    }

    pub fn id(&self) -> (r: EndpointId)
        ensures
            r == self.id_spec(),
    {
        self.id
    }

    pub fn name(&self) -> (r: &str)
        ensures
            r@ == self.name_spec(),
    {
        self.name.as_str()
    }

    pub fn port_name(&self) -> (r: &str)
        ensures
            r@ == self.port_name_spec(),
    {
        self.port_name.as_str()
    }

    pub fn port_index(&self) -> (r: usize)
        ensures
            r == self.port_index_spec(),
    {
        self.port_index
    }

    pub fn is_connected(&self) -> (r: bool)
        ensures
            r == self.connected_spec(),
    {
        self.connected
    }

    pub fn endpoint_type(&self) -> (r: EndpointType)
        ensures
            r == EndpointType::Midi,
    {
        EndpointType::Midi
    }

    /// The message to write for `event`: unsupported kinds fail, and so does
    /// any event while the endpoint is disconnected.
    pub fn send_event(&self, event: &OutputEvent) -> (r: Result<MidiMessage, OutputError>)
        ensures
            r == midi_outcome(self.connected_spec(), event.event_type),
    {
        match midi_message(&event.event_type) {
            None => Err(OutputError::UnsupportedEvent),
            Some(m) => if self.connected {
                Ok(m)
            } else {
                Err(OutputError::NotConnected)
            },
        }
    }
}

/// Every endpoint of `eps` that accepts `e`, in order, with its outcome.
pub open spec fn broadcast(eps: Seq<MidiOutputEndpoint>, e: OutputEventType) -> Seq<Dispatch>
    decreases eps.len(),
{
    if eps.len() == 0 {
        Seq::empty()
    } else {
        let prev = broadcast(eps.drop_last(), e);
        if accepts(EndpointType::Midi, e) {
            prev.push(
                Dispatch {
                    endpoint: eps.last().id_spec(),
                    outcome: midi_outcome(eps.last().connected_spec(), e),
                },
            )
        } else {
            prev
        }
    }
}

/// The registered endpoints, one per identity.
pub struct OutputSystem {
    endpoints: Vec<MidiOutputEndpoint>,
}

impl OutputSystem {
    /// The registered endpoints, in order of registration.
    pub closed spec fn endpoints_spec(&self) -> Seq<MidiOutputEndpoint> {
        self.endpoints@
    }

    pub open spec fn wf(&self) -> bool {
        forall|i: int, j: int|
            0 <= i < j < self.endpoints_spec().len() ==> (#[trigger] self.endpoints_spec()[i]).id_spec()
                != (#[trigger] self.endpoints_spec()[j]).id_spec()
    }

    /// Whether an endpoint is registered under `id`.
    pub open spec fn registered(&self, id: EndpointId) -> bool {
        exists|i: int|
            0 <= i < self.endpoints_spec().len() && (#[trigger] self.endpoints_spec()[i]).id_spec()
                == id
    }

    /// The endpoint registered under `id` (meaningful where one is).
    pub open spec fn endpoint_spec(&self, id: EndpointId) -> MidiOutputEndpoint {
        let i = choose|i: int|
            0 <= i < self.endpoints_spec().len() && (#[trigger] self.endpoints_spec()[i]).id_spec()
                == id;
        self.endpoints_spec()[i]
    }

    /// The outcome of sending `e` to the endpoint registered under `id`.
    pub open spec fn outcome_for(&self, id: EndpointId, e: OutputEventType) -> Result<
        MidiMessage,
        OutputError,
    > {
        if self.registered(id) {
            midi_outcome(self.endpoint_spec(id).connected_spec(), e)
        } else {
            Err(OutputError::NotFound(id))
        }
    }

    /// An empty registry.
    pub fn new() -> (r: OutputSystem)
        ensures
            r.wf(),
            r.endpoints_spec().len() == 0,
    {
        OutputSystem { endpoints: Vec::new() }
    }

    fn find(&self, id: EndpointId) -> (r: Option<usize>)
        requires
            self.wf(),
        ensures
            match r {
                Some(i) => i < self.endpoints@.len() && self.endpoints@[i as int].id_spec() == id
                    && self.registered(id) && self.endpoint_spec(id) == self.endpoints@[i as int],
                None => !self.registered(id),
            },
    {
        let mut i: usize = 0;
        while i < self.endpoints.len()
            invariant
                self.wf(),
                i <= self.endpoints@.len(),
                forall|j: int| 0 <= j < i ==> self.endpoints@[j].id_spec() != id,
            decreases self.endpoints@.len() - i,
        {
            if self.endpoints[i].id() == id {
                proof {
                    assert(self.endpoints_spec()[i as int].id_spec() == id);
                    let k = choose|k: int|
                        0 <= k < self.endpoints_spec().len() && (#[trigger] self.endpoints_spec()[k]).id_spec()
                            == id;
                    if k != i {
                        if k < i {
                            assert(self.endpoints@[k].id_spec() != id);
                        } else {
                            assert(self.endpoints_spec()[i as int].id_spec() != self.endpoints_spec()[k].id_spec());
                        }
                    }
                }
                return Some(i);
            }
            i = i + 1;
        }
        proof {
            if self.registered(id) {
                let k = choose|k: int|
                    0 <= k < self.endpoints_spec().len() && (#[trigger] self.endpoints_spec()[k]).id_spec()
                        == id;
                assert(self.endpoints@[k].id_spec() != id);
            }
        }
        None
    }

    /// The endpoint registered under `id`.
    pub fn endpoint(&self, id: EndpointId) -> (r: Option<&MidiOutputEndpoint>)
        requires
            self.wf(),
        ensures
            match r {
                Some(ep) => self.registered(id) && *ep == self.endpoint_spec(id),
                None => !self.registered(id),
            },
    {
        match self.find(id) {
            None => None,
            Some(i) => Some(&self.endpoints[i]),
        }
    }

    /// Registers the endpoint that `config` describes, replacing one of the same
    /// identity. Only MIDI endpoints can be set up; their device identifier must
    /// be `"<port index>:<port name>"`. On failure nothing is registered.
    pub fn add_endpoint(&mut self, config: &EndpointConfig) -> (r: Result<(), OutputError>)
        requires
            old(self).wf(),
        ensures
            final(self).wf(),
            (r == Err::<(), OutputError>(OutputError::UnsupportedEndpointType(config.endpoint_type)))
                <==> config.endpoint_type != EndpointType::Midi,
            (r == Err::<(), OutputError>(OutputError::InvalidParameters)) <==> (config.endpoint_type
                == EndpointType::Midi && !(config.parameters is Midi)),
            (r == Err::<(), OutputError>(OutputError::InvalidDeviceId)) <==> (config.endpoint_type
                == EndpointType::Midi && config.parameters is Midi && !config.device_id@.contains(
                ':',
            )),
            (r == Err::<(), OutputError>(OutputError::InvalidPortIndex)) <==> (config.endpoint_type
                == EndpointType::Midi && config.parameters is Midi && exists|a: Seq<char>, b: Seq<char>|
                split_at_first_colon(config.device_id@, a, b) && decimal_usize(a) is None),
            r is Ok <==> (config.endpoint_type == EndpointType::Midi && config.parameters is Midi
                && exists|a: Seq<char>, b: Seq<char>|
                split_at_first_colon(config.device_id@, a, b) && decimal_usize(a) is Some),
            r is Err ==> (r == Err::<(), OutputError>(OutputError::UnsupportedEndpointType(
                config.endpoint_type,
            )) || r == Err::<(), OutputError>(OutputError::InvalidParameters) || r == Err::<
                (),
                OutputError,
            >(OutputError::InvalidDeviceId) || r == Err::<(), OutputError>(
                OutputError::InvalidPortIndex,
            )),
            r is Err ==> final(self).endpoints_spec() == old(self).endpoints_spec(),
            r is Ok ==> {
                &&& final(self).registered(config.id)
                &&& exists|a: Seq<char>, b: Seq<char>|
                    split_at_first_colon(config.device_id@, a, b) && decimal_usize(a) == Some(
                        final(self).endpoint_spec(config.id).port_index_spec() as int,
                    ) && final(self).endpoint_spec(config.id).port_name_spec() == b
                &&& final(self).endpoint_spec(config.id).name_spec() == config.name@
                &&& !final(self).endpoint_spec(config.id).connected_spec()
                &&& forall|x: EndpointId|
                    x != config.id ==> (#[trigger] final(self).registered(x) == old(self).registered(x)
                        && (old(self).registered(x) ==> final(self).endpoint_spec(x) == old(
                        self,
                    ).endpoint_spec(x)))
            },
    {
        match config.endpoint_type {
            EndpointType::Midi => {},
            other => {
                return Err(OutputError::UnsupportedEndpointType(other));
            },
        }
        match &config.parameters {
            EndpointParameters::Midi { .. } => {},
            _ => {
                return Err(OutputError::InvalidParameters);
            },
        }
        let (index_text, port_name) = match split_device_id(&config.device_id) {
            None => {
                proof {
                    assert forall|a: Seq<char>, b: Seq<char>|
                        !split_at_first_colon(config.device_id@, a, b) by {
                        if split_at_first_colon(config.device_id@, a, b) {
                            assert(config.device_id@[a.len() as int] == ':');
                        }
                    }
                }
                return Err(OutputError::InvalidDeviceId);
            },
            Some(parts) => parts,
        };
        let port_index = match parse_port_index(&index_text) {
            None => {
                proof {
                    assert(split_at_first_colon(config.device_id@, index_text@, port_name@));
                    assert forall|a: Seq<char>, b: Seq<char>|
                        split_at_first_colon(config.device_id@, a, b) implies decimal_usize(a) is None by {
                        lemma_first_colon_unique(config.device_id@, a, b, index_text@, port_name@);
                    }
                }
                return Err(OutputError::InvalidPortIndex);
            },
            Some(n) => n,
        };
        proof {
            assert forall|a: Seq<char>, b: Seq<char>|
                split_at_first_colon(config.device_id@, a, b) implies a == index_text@ && b
                == port_name@ by {
                lemma_first_colon_unique(config.device_id@, a, b, index_text@, port_name@);
            }
            assert(split_at_first_colon(config.device_id@, index_text@, port_name@));
        }
        let endpoint = MidiOutputEndpoint::new(config.id, config.name.clone(), port_index, port_name);
        let ghost before = *self;
        match self.find(config.id) {
            Some(i) => {
                self.endpoints.set(i, endpoint);
                proof {
                    let n = self.endpoints@;
                    assert forall|a: int, b: int| 0 <= a < b < n.len() implies (#[trigger] self.endpoints_spec()[a]).id_spec()
                        != (#[trigger] self.endpoints_spec()[b]).id_spec() by {
                        assert(n[a].id_spec() == before.endpoints@[a].id_spec());
                        assert(n[b].id_spec() == before.endpoints@[b].id_spec());
                        assert(before.endpoints_spec()[a] == before.endpoints@[a]);
                        assert(before.endpoints_spec()[b] == before.endpoints@[b]);
                    }
                    self.lemma_lookup(i as int);
                    assert forall|x: EndpointId| x != config.id implies (#[trigger] self.registered(x)
                        == before.registered(x) && (before.registered(x) ==> self.endpoint_spec(x)
                        == before.endpoint_spec(x))) by {
                        if before.registered(x) {
                            let k = choose|k: int|
                                0 <= k < before.endpoints_spec().len() && (#[trigger] before.endpoints_spec()[k]).id_spec() == x;
                            before.lemma_lookup(k);
                            assert(n[k] == before.endpoints@[k]);
                            assert(self.endpoints_spec()[k] == n[k]);
                            self.lemma_lookup(k);
                        }
                        if self.registered(x) {
                            let k = choose|k: int|
                                0 <= k < self.endpoints_spec().len() && (#[trigger] self.endpoints_spec()[k]).id_spec() == x;
                            assert(n[k] == before.endpoints@[k]);
                            assert(before.endpoints_spec()[k] == n[k]);
                        }
                    }
                }
            },
            None => {
                self.endpoints.push(endpoint);
                proof {
                    let n = self.endpoints@;
                    let last = n.len() - 1;
                    assert forall|a: int, b: int| 0 <= a < b < n.len() implies (#[trigger] self.endpoints_spec()[a]).id_spec()
                        != (#[trigger] self.endpoints_spec()[b]).id_spec() by {
                        assert(n[a] == before.endpoints@[a]);
                        assert(before.endpoints_spec()[a] == before.endpoints@[a]);
                        if b < last {
                            assert(n[b] == before.endpoints@[b]);
                            assert(before.endpoints_spec()[b] == before.endpoints@[b]);
                        }
                    }
                    self.lemma_lookup(last);
                    assert forall|x: EndpointId| x != config.id implies (#[trigger] self.registered(x)
                        == before.registered(x) && (before.registered(x) ==> self.endpoint_spec(x)
                        == before.endpoint_spec(x))) by {
                        if before.registered(x) {
                            let k = choose|k: int|
                                0 <= k < before.endpoints_spec().len() && (#[trigger] before.endpoints_spec()[k]).id_spec() == x;
                            before.lemma_lookup(k);
                            assert(n[k] == before.endpoints@[k]);
                            assert(self.endpoints_spec()[k] == n[k]);
                            self.lemma_lookup(k);
                        }
                        if self.registered(x) {
                            let k = choose|k: int|
                                0 <= k < self.endpoints_spec().len() && (#[trigger] self.endpoints_spec()[k]).id_spec() == x;
                            assert(k != last);
                            assert(n[k] == before.endpoints@[k]);
                            assert(before.endpoints_spec()[k] == n[k]);
                        }
                    }
                }
            },
        }
        Ok(())
    }

    /// The endpoint found at an index is the one `endpoint_spec` names.
    proof fn lemma_lookup(&self, k: int)
        requires
            self.wf(),
            0 <= k < self.endpoints_spec().len(),
        ensures
            self.registered(self.endpoints_spec()[k].id_spec()),
            self.endpoint_spec(self.endpoints_spec()[k].id_spec()) == self.endpoints_spec()[k],
    {
        let id = self.endpoints_spec()[k].id_spec();
        assert(self.registered(id));
        let j = choose|j: int|
            0 <= j < self.endpoints_spec().len() && (#[trigger] self.endpoints_spec()[j]).id_spec() == id;
        if j != k {
            if j < k {
                assert(self.endpoints_spec()[j].id_spec() != self.endpoints_spec()[k].id_spec());
            } else {
                assert(self.endpoints_spec()[k].id_spec() != self.endpoints_spec()[j].id_spec());
            }
        }
    }

    /// Which port to open to connect endpoint `id`, given how many ports the
    /// system offers: `None` where it is connected already.
    pub fn port_to_open(&self, id: EndpointId, available_ports: usize) -> (r: Result<
        Option<usize>,
        OutputError,
    >)
        requires
            self.wf(),
        ensures
            !self.registered(id) ==> r == Err::<Option<usize>, OutputError>(OutputError::NotFound(id)),
            self.registered(id) ==> r == if self.endpoint_spec(id).connected_spec() {
                Ok::<Option<usize>, OutputError>(None)
            } else if self.endpoint_spec(id).port_index_spec() < available_ports {
                Ok(Some(self.endpoint_spec(id).port_index_spec()))
            } else {
                Err(
                    OutputError::PortOutOfRange {
                        index: self.endpoint_spec(id).port_index_spec(),
                        available: available_ports,
                    },
                )
            },
    {
        match self.find(id) {
            None => Err(OutputError::NotFound(id)),
            Some(i) => {
                let ep = &self.endpoints[i];
                if ep.is_connected() {
                    Ok(None)
                } else if ep.port_index() < available_ports {
                    Ok(Some(ep.port_index()))
                } else {
                    Err(OutputError::PortOutOfRange { index: ep.port_index(), available: available_ports })
                }
            },
        }
    }

    /// Records whether endpoint `id` is connected. Returns whether it is registered.
    pub fn set_connected(&mut self, id: EndpointId, connected: bool) -> (r: bool)
        requires
            old(self).wf(),
        ensures
            final(self).wf(),
            r == old(self).registered(id),
            forall|x: EndpointId| #[trigger] final(self).registered(x) == old(self).registered(x),
            r ==> final(self).endpoint_spec(id).connected_spec() == connected,
            r ==> final(self).endpoint_spec(id).id_spec() == id,
            r ==> final(self).endpoint_spec(id).port_index_spec() == old(self).endpoint_spec(id).port_index_spec(),
            forall|x: EndpointId|
                x != id && old(self).registered(x) ==> #[trigger] final(self).endpoint_spec(x) == old(
                    self,
                ).endpoint_spec(x),
    {
        match self.find(id) {
            None => false,
            Some(i) => {
                let ghost before = *self;
                let mut ep = self.endpoints[i].clone_record();
                ep.connected = connected;
                self.endpoints.set(i, ep);
                proof {
                    let n = self.endpoints@;
                    assert forall|a: int, b: int| 0 <= a < b < n.len() implies (#[trigger] self.endpoints_spec()[a]).id_spec()
                        != (#[trigger] self.endpoints_spec()[b]).id_spec() by {
                        assert(n[a].id_spec() == before.endpoints@[a].id_spec());
                        assert(n[b].id_spec() == before.endpoints@[b].id_spec());
                        assert(before.endpoints_spec()[a] == before.endpoints@[a]);
                        assert(before.endpoints_spec()[b] == before.endpoints@[b]);
                    }
                    self.lemma_lookup(i as int);
                    assert forall|x: EndpointId| #[trigger] self.registered(x) == before.registered(x) by {
                        if before.registered(x) {
                            let k = choose|k: int|
                                0 <= k < before.endpoints_spec().len() && (#[trigger] before.endpoints_spec()[k]).id_spec() == x;
                            assert(self.endpoints_spec()[k].id_spec() == n[k].id_spec());
                            assert(n[k].id_spec() == before.endpoints@[k].id_spec());
                        }
                        if self.registered(x) {
                            let k = choose|k: int|
                                0 <= k < self.endpoints_spec().len() && (#[trigger] self.endpoints_spec()[k]).id_spec() == x;
                            assert(n[k].id_spec() == before.endpoints@[k].id_spec());
                            assert(before.endpoints_spec()[k] == before.endpoints@[k]);
                        }
                    }
                    assert forall|x: EndpointId|
                        x != id && before.registered(x) implies #[trigger] self.endpoint_spec(x)
                        == before.endpoint_spec(x) by {
                        let k = choose|k: int|
                            0 <= k < before.endpoints_spec().len() && (#[trigger] before.endpoints_spec()[k]).id_spec() == x;
                        before.lemma_lookup(k);
                        assert(k != i);
                        assert(n[k] == before.endpoints@[k]);
                        assert(self.endpoints_spec()[k] == n[k]);
                        self.lemma_lookup(k);
                    }
                }
                true
            },
        }
    }

    /// Whether endpoint `id` is registered and connected.
    pub fn is_endpoint_connected(&self, id: EndpointId) -> (r: bool)
        requires
            self.wf(),
        ensures
            r == (self.registered(id) && self.endpoint_spec(id).connected_spec()),
    {
        match self.find(id) {
            None => false,
            Some(i) => self.endpoints[i].is_connected(),
        }
    }

    /// The outcome of sending `event` to endpoint `id` alone.
    pub fn send_event_to_endpoint(&self, id: EndpointId, event: &OutputEvent) -> (r: Result<
        MidiMessage,
        OutputError,
    >)
        requires
            self.wf(),
        ensures
            r == self.outcome_for(id, event.event_type),
    {
        match self.find(id) {
            None => Err(OutputError::NotFound(id)),
            Some(i) => self.endpoints[i].send_event(event),
        }
    }

    /// One dispatch per attempted send: to the event's target alone where it
    /// names one, else to every registered endpoint that accepts its kind.
    pub fn send_event(&self, event: &OutputEvent) -> (r: Vec<Dispatch>)
        requires
            self.wf(),
        ensures
            r@ == match event.target {
                Some(t) => seq![Dispatch { endpoint: t, outcome: self.outcome_for(t, event.event_type) }],
                None => broadcast(self.endpoints_spec(), event.event_type),
            },
    {
        let mut results: Vec<Dispatch> = Vec::new();
        match event.target {
            Some(t) => {
                let outcome = self.send_event_to_endpoint(t, event);
                results.push(Dispatch { endpoint: t, outcome });
                assert(results@ =~= seq![Dispatch { endpoint: t, outcome: self.outcome_for(t, event.event_type) }]);
            },
            None => {
                let ghost eps = self.endpoints@;
                let takes = event.is_midi();
                let mut i: usize = 0;
                while i < self.endpoints.len()
                    invariant
                        eps == self.endpoints@,
                        eps == self.endpoints_spec(),
                        i <= eps.len(),
                        takes == accepts(EndpointType::Midi, event.event_type),
                        results@ == broadcast(eps.take(i as int), event.event_type),
                    decreases eps.len() - i,
                {
                    let ep = &self.endpoints[i];
                    proof {
                        assert(eps.take(i + 1).drop_last() =~= eps.take(i as int));
                        assert(eps.take(i + 1).last() == eps[i as int]);
                    }
                    if takes {
                        let outcome = ep.send_event(event);
                        results.push(Dispatch { endpoint: ep.id(), outcome });
                    }
                    i = i + 1;
                }
                assert(eps.take(eps.len() as int) =~= eps);
            },
        }
        results
    }
}

impl MidiOutputEndpoint {
    /// A copy of this record.
    fn clone_record(&self) -> (r: MidiOutputEndpoint)
        ensures
            r.id == self.id,
            r.name@ == self.name@,
            r.port_name@ == self.port_name@,
            r.port_index == self.port_index,
            r.connected == self.connected,
    {
        MidiOutputEndpoint {
            id: self.id,
            name: self.name.clone(),
            port_name: self.port_name.clone(),
            port_index: self.port_index,
            connected: self.connected,
        }
    }
}

/// Two ways of splitting at the first colon agree.
proof fn lemma_first_colon_unique(
    s: Seq<char>,
    a: Seq<char>,
    b: Seq<char>,
    a2: Seq<char>,
    b2: Seq<char>,
)
    requires
        split_at_first_colon(s, a, b),
        split_at_first_colon(s, a2, b2),
    ensures
        a == a2,
        b == b2,
{
    assert(s[a.len() as int] == ':');
    assert(s[a2.len() as int] == ':');
    if a.len() < a2.len() {
        assert(a2[a.len() as int] == s[a.len() as int]);
        assert(a2.contains(':'));
    } else if a2.len() < a.len() {
        assert(a[a2.len() as int] == s[a2.len() as int]);
        assert(a.contains(':'));
    }
    assert(a =~= s.subrange(0, a.len() as int));
    assert(a2 =~= s.subrange(0, a2.len() as int));
    assert(b =~= s.subrange(a.len() as int + 1, s.len() as int));
    assert(b2 =~= s.subrange(a2.len() as int + 1, s.len() as int));
}

} // verus!
