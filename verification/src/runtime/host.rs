use crate::manifest::{flows_view, InstrumentFlow, InstrumentFlowView, SimulationConfig};
use crate::network::NetworkMessage;
use crate::store::StringMap;
use vstd::prelude::*;

verus! {

/// The key under which the value of `variable` at `endpoint` is stored:
/// `endpoint/variable`.
pub open spec fn value_key_view(endpoint: Seq<char>, variable: Seq<char>) -> Seq<char> {
    endpoint + seq!['/'] + variable
}

/// Builds the key `endpoint/variable`.
pub fn value_key(endpoint: &str, variable: &str) -> (key: String)
    ensures
        key@ == value_key_view(endpoint@, variable@),
{
    let mut key = endpoint.to_owned();
    key.append("/");
    key.append(variable);
    proof {
        reveal_strlit("/");
        assert(key@ =~= value_key_view(endpoint@, variable@));
    }
    key
}

/// The latest value of every input and output, shared by the simulations
/// of an engine and its network listeners.
pub struct HostShared {
    values: StringMap<Vec<u8>>,
}

impl HostShared {
    /// The stored values, by key.
    pub closed spec fn values(&self) -> Map<Seq<char>, Seq<u8>> {
        self.values@
    }

    /// A store with no values.
    pub fn new() -> (shared: Self)
        ensures
            shared.values() == Map::<Seq<char>, Seq<u8>>::empty(),
    {
        HostShared { values: StringMap::new() }
    }

    /// Stores a value under `key`, replacing the previous one.
    pub fn insert_value(&mut self, key: String, payload: Vec<u8>)
        ensures
            final(self).values() == old(self).values().insert(key@, payload@),
    {
        self.values.insert(key, payload);
    }

    /// The value stored under `key`, if any.
    pub fn value(&self, key: &String) -> (payload: Option<&Vec<u8>>)
        ensures
            payload is Some <==> self.values().dom().contains(key@),
            payload matches Some(p) ==> p@ == self.values()[key@],
    {
        self.values.get(key)
    }

    /// Stores a message that arrived for `endpoint`; returns the key it was
    /// stored under.
    pub fn receive(&mut self, endpoint: &str, message: NetworkMessage) -> (key: String)
        ensures
            key@ == value_key_view(endpoint@, message.input@),
            final(self).values() == old(self).values().insert(key@, message.payload@),
    {
        let key = value_key(endpoint, message.input.as_str());
        self.values.insert(key.clone(), message.payload);
        key
    }
}

impl Default for HostShared {
    fn default() -> (shared: Self)
        ensures
            shared.values() == Map::<Seq<char>, Seq<u8>>::empty(),
    {
        HostShared::new()
    }
}

/// What a simulation of an engine knows of where its outputs go.
#[derive(Debug)]
pub struct HostContext {
    pub sim_name: String,
    pub endpoint: String,
    pub flows: Vec<InstrumentFlow>,
    pub local_endpoints: Vec<String>,
}

/// The flows that carry `output` away from `endpoint`, in order.
pub open spec fn output_flows(
    flows: Seq<InstrumentFlowView>,
    endpoint: Seq<char>,
    output: Seq<char>,
) -> Seq<InstrumentFlowView> {
    flows.filter(carries_output(endpoint, output))
}

/// The flow carries `output` away from `endpoint`.
pub open spec fn carries_output(endpoint: Seq<char>, output: Seq<char>) -> spec_fn(
    InstrumentFlowView,
) -> bool {
    |f: InstrumentFlowView| f.from == endpoint && f.instrument == output
}

/// A delivery of an output along a flow.
#[derive(Debug)]
pub enum Delivery {
    /// The target endpoint belongs to this engine: the value was stored
    /// under `target_key`.
    Local { target_key: String },
    /// The target endpoint is remote: `message` is to be sent to `endpoint`.
    Remote { endpoint: String, target_key: String, message: NetworkMessage },
}

/// An endpoint belongs to this engine.
pub open spec fn is_local(locals: Seq<Seq<char>>, endpoint: Seq<char>) -> bool {
    exists|i: int| 0 <= i < locals.len() && #[trigger] locals[i] == endpoint
}

/// An endpoint is local exactly when it is one of the engine's endpoints,
/// at whatever position it is listed; so every listed endpoint is a local
/// delivery target.
pub proof fn lemma_local_endpoints_exactly(locals: Seq<Seq<char>>, endpoint: Seq<char>)
    ensures
        is_local(locals, endpoint) <==> locals.contains(endpoint),
        forall|i: int| 0 <= i < locals.len() ==> is_local(locals, #[trigger] locals[i]),
{
    assert forall|i: int| 0 <= i < locals.len() implies is_local(locals, #[trigger] locals[i]) by {
        assert(locals[i] == locals[i]);
    }
}

/// A delivery along a flow whose target is one of the engine's endpoints
/// stores the value locally; along any other flow it sends a message.
pub proof fn lemma_delivery_kind(
    d: Delivery,
    f: InstrumentFlowView,
    locals: Seq<Seq<char>>,
    payload: Seq<u8>,
)
    requires
        delivery_matches(d, f, locals, payload),
    ensures
        locals.contains(f.to) ==> d is Local,
        !locals.contains(f.to) ==> d is Remote,
{
}

/// The key of a value is the endpoint, a `/`, and the variable name.
pub proof fn lemma_value_key_layout(endpoint: Seq<char>, variable: Seq<char>)
    ensures
        value_key_view(endpoint, variable).len() == endpoint.len() + 1 + variable.len(),
        value_key_view(endpoint, variable).subrange(0, endpoint.len() as int) == endpoint,
        value_key_view(endpoint, variable)[endpoint.len() as int] == '/',
        value_key_view(endpoint, variable).subrange(
            endpoint.len() + 1int,
            endpoint.len() + 1int + variable.len(),
        ) == variable,
{
    let k = value_key_view(endpoint, variable);
    assert(k.subrange(0, endpoint.len() as int) =~= endpoint);
    assert(k.subrange(endpoint.len() + 1int, endpoint.len() + 1int + variable.len()) =~= variable);
}

/// The delivery of `payload` along the flow `f`: stored locally when the
/// target is local, else sent to the target endpoint; the instrument keeps
/// its name at both ends.
pub open spec fn delivery_matches(
    d: Delivery,
    f: InstrumentFlowView,
    locals: Seq<Seq<char>>,
    payload: Seq<u8>,
) -> bool {
    let target = value_key_view(f.to, f.instrument);
    if is_local(locals, f.to) {
        d matches Delivery::Local { target_key } && target_key@ == target
    } else {
        d matches Delivery::Remote { endpoint, target_key, message } && endpoint@ == f.to
            && target_key@ == target && message.input@ == f.instrument && message.payload@
            == payload
    }
}

/// The keys that a local delivery of `output` stores to.
pub open spec fn local_targets(
    flows: Seq<InstrumentFlowView>,
    locals: Seq<Seq<char>>,
    endpoint: Seq<char>,
    output: Seq<char>,
) -> Set<Seq<char>> {
    Set::new(
        |k: Seq<char>|
            exists|j: int|
                0 <= j < flows.len() && #[trigger] flows[j].from == endpoint && flows[j].instrument
                    == output && is_local(locals, flows[j].to) && value_key_view(
                    flows[j].to,
                    flows[j].instrument,
                ) == k,
    )
}

/// The stored values after `payload` is set as `output` at `endpoint`: it
/// is stored under the output's own key and under the key of every local
/// target of a flow that carries it.
pub open spec fn values_after_output(
    before: Map<Seq<char>, Seq<u8>>,
    flows: Seq<InstrumentFlowView>,
    locals: Seq<Seq<char>>,
    endpoint: Seq<char>,
    output: Seq<char>,
    payload: Seq<u8>,
) -> Map<Seq<char>, Seq<u8>> {
    before.insert(value_key_view(endpoint, output), payload).union_prefer_right(
        Map::new(
            |k: Seq<char>| local_targets(flows, locals, endpoint, output).contains(k),
            |k: Seq<char>| payload,
        ),
    )
}

/// An output set by a simulation reaches, under the same instrument name,
/// the input of every simulation of this engine that a flow carries it to;
/// the other stored values that no delivery touches keep their values.
pub proof fn lemma_local_flow_delivers(
    before: Map<Seq<char>, Seq<u8>>,
    flows: Seq<InstrumentFlowView>,
    locals: Seq<Seq<char>>,
    endpoint: Seq<char>,
    output: Seq<char>,
    payload: Seq<u8>,
    j: int,
    other: Seq<char>,
)
    requires
        0 <= j < flows.len(),
        flows[j].from == endpoint,
        flows[j].instrument == output,
        is_local(locals, flows[j].to),
    ensures
        values_after_output(before, flows, locals, endpoint, output, payload)[value_key_view(
            flows[j].to,
            output,
        )] == payload,
        values_after_output(before, flows, locals, endpoint, output, payload)[value_key_view(
            endpoint,
            output,
        )] == payload,
        other != value_key_view(endpoint, output) && !local_targets(
            flows,
            locals,
            endpoint,
            output,
        ).contains(other) ==> values_after_output(before, flows, locals, endpoint, output, payload).dom().contains(other)
            == before.dom().contains(other) && (before.dom().contains(other) ==> values_after_output(
            before,
            flows,
            locals,
            endpoint,
            output,
            payload,
        )[other] == before[other]),
{
    let k = value_key_view(flows[j].to, output);
    assert(local_targets(flows, locals, endpoint, output).contains(k));
}

/// What a read of a stored value into a buffer of `capacity` bytes gets:
/// the value, cut to the buffer.
pub open spec fn bytes_read(stored: Seq<u8>, capacity: int) -> Seq<u8> {
    stored.take(if stored.len() < capacity { stored.len() as int } else { capacity })
}

/// An output of `n` bytes is read back whole by a read of `n` bytes, at the
/// producing endpoint and at every local target of a flow that carries it.
pub proof fn lemma_output_read_back(
    before: Map<Seq<char>, Seq<u8>>,
    flows: Seq<InstrumentFlowView>,
    locals: Seq<Seq<char>>,
    endpoint: Seq<char>,
    output: Seq<char>,
    payload: Seq<u8>,
)
    ensures
        ({
            let after = values_after_output(before, flows, locals, endpoint, output, payload);
            &&& after.dom().contains(value_key_view(endpoint, output))
            &&& bytes_read(after[value_key_view(endpoint, output)], payload.len() as int) == payload
            &&& forall|j: int|
                0 <= j < flows.len() && flows[j].from == endpoint && flows[j].instrument == output
                    && is_local(locals, #[trigger] flows[j].to) ==> after.dom().contains(
                    value_key_view(flows[j].to, output),
                ) && bytes_read(after[value_key_view(flows[j].to, output)], payload.len() as int)
                    == payload
        }),
{
    let after = values_after_output(before, flows, locals, endpoint, output, payload);
    assert(payload.take(payload.len() as int) =~= payload);
    assert forall|j: int|
        0 <= j < flows.len() && flows[j].from == endpoint && flows[j].instrument == output
            && is_local(locals, #[trigger] flows[j].to) implies after.dom().contains(
        value_key_view(flows[j].to, output),
    ) && bytes_read(after[value_key_view(flows[j].to, output)], payload.len() as int) == payload by {
        assert(local_targets(flows, locals, endpoint, output).contains(
            value_key_view(flows[j].to, flows[j].instrument),
        ));
    }
}

impl HostContext {
    /// The view of the local endpoints.
    pub open spec fn locals(&self) -> Seq<Seq<char>> {
        self.local_endpoints@.map_values(|e: String| e@)
    }

    /// The context of the simulation `sim`, with the flows of the run and
    /// the endpoints of this engine.
    pub fn new(sim: &SimulationConfig, flows: &[InstrumentFlow], local_endpoints: Vec<String>) -> (ctx:
        Self)
        ensures
            ctx.sim_name@ == sim.name@,
            ctx.endpoint@ == sim.endpoint@,
            flows_view(ctx.flows@) == flows_view(flows@),
            ctx.local_endpoints@ == local_endpoints@,
    {
        let mut copy: Vec<InstrumentFlow> = Vec::new();
        let mut i: usize = 0;
        while i < flows.len()
            invariant
                i <= flows@.len(),
                copy@.len() == i,
                forall|k: int| 0 <= k < i ==> #[trigger] copy@[k]@ == flows@[k]@,
            decreases flows@.len() - i,
        {
            copy.push(flows[i].clone());
            i += 1;
        }
        assert(flows_view(copy@) =~= flows_view(flows@));
        HostContext {
            sim_name: sim.name.clone(),
            endpoint: sim.endpoint.clone(),
            flows: copy,
            local_endpoints,
        }
    }

    fn endpoint_is_local(&self, endpoint: &String) -> (local: bool)
        ensures
            local == is_local(self.locals(), endpoint@),
    {
        let mut i: usize = 0;
        while i < self.local_endpoints.len()
            invariant
                i <= self.local_endpoints@.len(),
                forall|k: int| 0 <= k < i ==> self.local_endpoints@[k]@ != endpoint@,
            decreases self.local_endpoints@.len() - i,
        {
            if self.local_endpoints[i] == *endpoint {
                assert(self.locals()[i as int] == endpoint@);
                return true;
            }
            i += 1;
        }
        assert forall|k: int| 0 <= k < self.locals().len() implies #[trigger] self.locals()[k]
            != endpoint@ by {
            assert(self.locals()[k] == self.local_endpoints@[k]@);
        }
        false
    }

    /// Stores an output of this simulation under `endpoint/output` and
    /// delivers it along every flow that carries it away from this endpoint:
    /// targets on this engine get the value stored under `to/instrument`,
    /// remote targets are returned as messages to send. Returns the key of
    /// the output and the deliveries, in the order of the flows.
    pub fn store_output(&self, shared: &mut HostShared, output: &str, payload: Vec<u8>) -> (r: (
        String,
        Vec<Delivery>,
    ))
        ensures
            r.0@ == value_key_view(self.endpoint@, output@),
            ({
                let matching = output_flows(flows_view(self.flows@), self.endpoint@, output@);
                &&& r.1@.len() == matching.len()
                &&& forall|i: int|
                    0 <= i < matching.len() ==> delivery_matches(
                        #[trigger] r.1@[i],
                        matching[i],
                        self.locals(),
                        payload@,
                    )
            }),
            final(shared).values() == values_after_output(
                old(shared).values(),
                flows_view(self.flows@),
                self.locals(),
                self.endpoint@,
                output@,
                payload@,
            ),
    {
        let output_key = value_key(self.endpoint.as_str(), output);
        shared.insert_value(output_key.clone(), payload.clone());
        let ghost fv = flows_view(self.flows@);
        let ghost endpoint = self.endpoint@;
        let ghost out = output@;
        let ghost pred = carries_output(endpoint, out);
        let ghost base = old(shared).values().insert(value_key_view(endpoint, out), payload@);
        let ghost locals = self.locals();
        let mut deliveries: Vec<Delivery> = Vec::new();
        let mut i: usize = 0;
        while i < self.flows.len()
            invariant
                i <= self.flows@.len(),
                fv == flows_view(self.flows@),
                locals == self.locals(),
                pred == carries_output(endpoint, out),
                endpoint == self.endpoint@,
                out == output@,
                deliveries@.len() == fv.take(i as int).filter(pred).len(),
                forall|k: int|
                    0 <= k < deliveries@.len() ==> delivery_matches(
                        #[trigger] deliveries@[k],
                        fv.take(i as int).filter(pred)[k],
                        locals,
                        payload@,
                    ),
                shared.values() == base.union_prefer_right(
                    Map::new(
                        |k: Seq<char>| local_targets(fv.take(i as int), locals, endpoint, out).contains(k),
                        |k: Seq<char>| payload@,
                    ),
                ),
            decreases self.flows@.len() - i,
        {
            let ghost prev = fv.take(i as int);
            let ghost next = fv.take(i + 1);
            let ghost before = shared.values();
            proof {
                assert(next.drop_last() =~= prev);
                reveal_with_fuel(Seq::<_>::filter, 1);
                assert(next.last() == self.flows@[i as int]@);
            }
            let flow = &self.flows[i];
            if flow.from == self.endpoint && flow.instrument == output.to_owned() {
                let target_key = value_key(flow.to.as_str(), flow.instrument.as_str());
                if self.endpoint_is_local(&flow.to) {
                    shared.insert_value(target_key.clone(), payload.clone());
                    deliveries.push(Delivery::Local { target_key });
                } else {
                    let message = NetworkMessage {
                        input: flow.instrument.clone(),
                        payload: payload.clone(),
                    };
                    deliveries.push(
                        Delivery::Remote { endpoint: flow.to.clone(), target_key, message },
                    );
                }
                proof {
                    assert(next.filter(pred) == prev.filter(pred).push(next.last()));
                }
            } else {
                proof {
                    assert(next.filter(pred) == prev.filter(pred));
                }
            }
            proof {
                let t_prev = local_targets(prev, locals, endpoint, out);
                let t_next = local_targets(next, locals, endpoint, out);
                assert forall|k: Seq<char>| #[trigger] t_next.contains(k) == (t_prev.contains(k) || (
                    pred(next.last()) && is_local(locals, next.last().to) && value_key_view(
                        next.last().to,
                        next.last().instrument,
                    ) == k)) by {
                    if t_prev.contains(k) {
                        let j = choose|j: int|
                            0 <= j < prev.len() && #[trigger] prev[j].from == endpoint && prev[j].instrument
                                == out && is_local(locals, prev[j].to) && value_key_view(
                                prev[j].to,
                                prev[j].instrument,
                            ) == k;
                        assert(next[j] == prev[j]);
                    }
                    if t_next.contains(k) {
                        let j = choose|j: int|
                            0 <= j < next.len() && #[trigger] next[j].from == endpoint && next[j].instrument
                                == out && is_local(locals, next[j].to) && value_key_view(
                                next[j].to,
                                next[j].instrument,
                            ) == k;
                        if j < prev.len() {
                            assert(prev[j] == next[j]);
                        }
                    }
                    if pred(next.last()) && is_local(locals, next.last().to) && value_key_view(
                        next.last().to,
                        next.last().instrument,
                    ) == k {
                        assert(next[next.len() - 1] == next.last());
                    }
                }
                assert(shared.values() =~= base.union_prefer_right(
                    Map::new(|k: Seq<char>| t_next.contains(k), |k: Seq<char>| payload@),
                ));
            }
            i += 1;
        }
        proof {
            assert(fv.take(i as int) =~= fv);
        }
        (output_key, deliveries)
    }

    /// Reads the value of an input of this simulation, keeping at most
    /// `capacity` bytes; returns the key of the input and the bytes read,
    /// `None` when no value has arrived yet.
    pub fn read_input(&self, shared: &HostShared, input: &str, capacity: usize) -> (r: (
        String,
        Option<Vec<u8>>,
    ))
        ensures
            r.0@ == value_key_view(self.endpoint@, input@),
            r.1 is Some <==> shared.values().dom().contains(r.0@),
            r.1 matches Some(bytes) ==> bytes@ == bytes_read(shared.values()[r.0@], capacity as int),
    {
        let input_key = value_key(self.endpoint.as_str(), input);
        match shared.value(&input_key) {
            None => (input_key, None),
            Some(value) => {
                let n = if value.len() < capacity {
                    value.len()
                } else {
                    capacity
                };
                let mut bytes: Vec<u8> = Vec::new();
                let mut i: usize = 0;
                while i < n
                    invariant
                        i <= n <= value@.len(),
                        n == if value@.len() < capacity { value@.len() } else { capacity as nat },
                        bytes@ == value@.take(i as int),
                    decreases n - i,
                {
                    bytes.push(value[i]);
                    assert(value@.take(i + 1) =~= value@.take(i as int).push(value@[i as int]));
                    i += 1;
                }
                (input_key, Some(bytes))
            },
        }
    }
}

} // verus!
