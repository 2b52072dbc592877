mod state;

pub use state::{
    conditions_view, lemma_transition_accepted_exactly, simulation_declared, simulation_state_name, transition_issue,
    transition_rejected, transition_requirements, transitions_issue, transitions_view,
    names_unknown_simulation, reports, validate_state_transitions, EngineState, SimulationState,
    SimulationStateCondition, SimulationStateConditionView, StateTransitionCondition,
    StateTransitionConditionView, StateTransitionConfig, StateTransitionView,
};

use crate::search::{
    first_index, lemma_first_index_characterized, lemma_first_index_found, lemma_first_index_none,
};
use vstd::prelude::*;

verus! {

/// `std::io::Error`, carried by the errors of reading a manifest's files.
#[verifier::external_type_specification]
#[verifier::external_body]
pub struct ExIoError(std::io::Error);

/// `serde_json::Error`, carried by the errors of parsing a manifest's files.
#[verifier::external_type_specification]
#[verifier::external_body]
pub struct ExJsonError(serde_json::Error);

/// Why a manifest could not be loaded or is not valid.
#[derive(Debug)]
pub enum CoreError {
    ReadManifest(std::io::Error),
    InvalidManifest(serde_json::Error),
    ReadInstruments { path: String, source: std::io::Error },
    InvalidInstruments { path: String, source: serde_json::Error },
    ReadInstrumentFlows { path: String, source: std::io::Error },
    InvalidInstrumentFlows { path: String, source: serde_json::Error },
    DuplicateEndpoint { endpoint: String },
    DuplicateInstrument { instrument: String },
    FlowSourceNotLocal { endpoint: String },
    UnknownFlowInstrument { instrument: String },
    UnknownTransitionSimulation { simulation: String },
    EmptyStateTransitionCondition,
    AmbiguousStateTransitionCondition,
}

/// What validation finds wrong with a manifest, with the names involved.
pub enum ValidationIssue {
    DuplicateEndpoint(Seq<char>),
    DuplicateInstrument(Seq<char>),
    FlowSourceNotLocal(Seq<char>),
    UnknownFlowInstrument(Seq<char>),
    UnknownTransitionSimulation(Seq<char>),
    EmptyStateTransitionCondition,
    AmbiguousStateTransitionCondition,
}

impl CoreError {
    /// The validation issue that this error reports; `None` for the errors
    /// of reading and parsing files.
    pub open spec fn issue(self) -> Option<ValidationIssue> {
        match self {
            CoreError::DuplicateEndpoint { endpoint } => Some(
                ValidationIssue::DuplicateEndpoint(endpoint@),
            ),
            CoreError::DuplicateInstrument { instrument } => Some(
                ValidationIssue::DuplicateInstrument(instrument@),
            ),
            CoreError::FlowSourceNotLocal { endpoint } => Some(
                ValidationIssue::FlowSourceNotLocal(endpoint@),
            ),
            CoreError::UnknownFlowInstrument { instrument } => Some(
                ValidationIssue::UnknownFlowInstrument(instrument@),
            ),
            CoreError::UnknownTransitionSimulation { simulation } => Some(
                ValidationIssue::UnknownTransitionSimulation(simulation@),
            ),
            CoreError::EmptyStateTransitionCondition => Some(
                ValidationIssue::EmptyStateTransitionCondition,
            ),
            CoreError::AmbiguousStateTransitionCondition => Some(
                ValidationIssue::AmbiguousStateTransitionCondition,
            ),
            _ => None,
        }
    }
}

/// A manifest: runtime settings, the simulations to load, and the rules
/// that drive the engine state.
#[derive(Debug, Clone)]
pub struct Manifest {
    pub framework: FrameworkConfig,
    pub simulations: Vec<SimulationConfig>,
    pub state_transitions: Vec<StateTransitionConfig>,
}

/// Runtime settings of a manifest.
#[derive(Debug, Clone)]
pub struct FrameworkConfig {
    pub fps: u32,
    pub log_level: String,
    pub max_frames: Option<u64>,
}

/// The log level used when a manifest does not name one.
pub fn default_log_level() -> (level: String)
    ensures
        level@ == seq!['i', 'n', 'f', 'o'],
{
    let level = "info".to_owned();
    proof {
        reveal_strlit("info");
    }
    level
}

/// A simulation to load: its name, the endpoint it listens on, its plugin
/// library, and its parameters as JSON text.
#[derive(Debug, Clone)]
pub struct SimulationConfig {
    pub name: String,
    pub endpoint: String,
    pub plugin: String,
    pub params: String,
}

/// A typed value that simulations exchange.
#[derive(Debug, Clone)]
pub struct InstrumentConfig {
    pub value: String,
    pub ty: PrimitiveType,
}

/// A flow of an instrument from one endpoint to another.
#[derive(Debug)]
pub struct InstrumentFlow {
    pub instrument: String,
    pub from: String,
    pub to: String,
}

/// The mathematical value of an [`InstrumentFlow`].
pub struct InstrumentFlowView {
    pub instrument: Seq<char>,
    pub from: Seq<char>,
    pub to: Seq<char>,
}

impl View for InstrumentFlow {
    type V = InstrumentFlowView;

    open spec fn view(&self) -> InstrumentFlowView {
        InstrumentFlowView { instrument: self.instrument@, from: self.from@, to: self.to@ }
    }
}

/// The views of a sequence of flows.
pub open spec fn flows_view(flows: Seq<InstrumentFlow>) -> Seq<InstrumentFlowView> {
    flows.map_values(|f: InstrumentFlow| f@)
}

impl Clone for InstrumentFlow {
    fn clone(&self) -> (copy: Self)
        ensures
            copy@ == self@,
    {
        InstrumentFlow {
            instrument: self.instrument.clone(),
            from: self.from.clone(),
            to: self.to.clone(),
        }
    }
}

/// The primitive types an instrument can have.
#[derive(Debug, Clone, Copy, PartialEq, Eq, Structural)]
pub enum PrimitiveType {
    Float32,
}

/// An endpoint is declared by some simulation.
pub open spec fn endpoint_declared(sims: Seq<SimulationConfig>, endpoint: Seq<char>) -> bool {
    exists|j: int| 0 <= j < sims.len() && #[trigger] sims[j].endpoint@ == endpoint
}

/// An instrument of this name is declared.
pub open spec fn instrument_declared(ins: Seq<InstrumentConfig>, name: Seq<char>) -> bool {
    exists|j: int| 0 <= j < ins.len() && #[trigger] ins[j].value@ == name
}

/// The simulation at index `i` repeats the endpoint of an earlier one.
pub open spec fn endpoint_repeated(sims: Seq<SimulationConfig>) -> spec_fn(int) -> bool {
    |i: int| exists|j: int| 0 <= j < i && #[trigger] sims[j].endpoint@ == sims[i].endpoint@
}

/// The instrument at index `i` repeats the name of an earlier one.
pub open spec fn instrument_repeated(ins: Seq<InstrumentConfig>) -> spec_fn(int) -> bool {
    |i: int| exists|j: int| 0 <= j < i && #[trigger] ins[j].value@ == ins[i].value@
}

/// What is wrong with a flow, if anything: a source endpoint that no local
/// simulation declares, else an instrument that is not declared.
pub open spec fn flow_issue(
    flow: InstrumentFlow,
    sims: Seq<SimulationConfig>,
    ins: Seq<InstrumentConfig>,
) -> Option<ValidationIssue> {
    if !endpoint_declared(sims, flow.from@) {
        Some(ValidationIssue::FlowSourceNotLocal(flow.from@))
    } else if !instrument_declared(ins, flow.instrument@) {
        Some(ValidationIssue::UnknownFlowInstrument(flow.instrument@))
    } else {
        None
    }
}

/// The flow at index `i` has an issue.
pub open spec fn flow_rejected(
    flows: Seq<InstrumentFlow>,
    sims: Seq<SimulationConfig>,
    ins: Seq<InstrumentConfig>,
) -> spec_fn(int) -> bool {
    |i: int| flow_issue(flows[i], sims, ins) is Some
}

/// The issue of the first flow that has one, if any.
pub open spec fn flows_issue(
    flows: Seq<InstrumentFlow>,
    sims: Seq<SimulationConfig>,
    ins: Seq<InstrumentConfig>,
) -> Option<ValidationIssue> {
    match first_index(flows.len() as int, flow_rejected(flows, sims, ins)) {
        Some(i) => flow_issue(flows[i], sims, ins),
        None => None,
    }
}

/// The first repeated endpoint, else the first repeated instrument.
pub open spec fn declarations_issue(
    sims: Seq<SimulationConfig>,
    ins: Seq<InstrumentConfig>,
) -> Option<ValidationIssue> {
    match first_index(sims.len() as int, endpoint_repeated(sims)) {
        Some(i) => Some(ValidationIssue::DuplicateEndpoint(sims[i].endpoint@)),
        None => match first_index(ins.len() as int, instrument_repeated(ins)) {
            Some(i) => Some(ValidationIssue::DuplicateInstrument(ins[i].value@)),
            None => None,
        },
    }
}

/// What validation reports of a manifest with its instruments and flows:
/// the declarations are checked first, then the flows in order, then the
/// state transitions in order; the first issue found is the one reported.
pub open spec fn manifest_issue(
    manifest: Manifest,
    ins: Seq<InstrumentConfig>,
    flows: Seq<InstrumentFlow>,
) -> Option<ValidationIssue> {
    let sims = manifest.simulations@;
    match declarations_issue(sims, ins) {
        Some(i) => Some(i),
        None => match flows_issue(flows, sims, ins) {
            Some(i) => Some(i),
            None => transitions_issue(transitions_view(manifest.state_transitions@), sims),
        },
    }
}

/// A manifest is well formed: no two simulations share an endpoint, no two
/// instruments share a name, every flow leaves a local endpoint and carries
/// a declared instrument, and every transition has a condition that uses
/// exactly one of `all` and `any` and names only declared simulations.
pub open spec fn manifest_well_formed(
    manifest: Manifest,
    ins: Seq<InstrumentConfig>,
    flows: Seq<InstrumentFlow>,
) -> bool {
    let sims = manifest.simulations@;
    let ts = transitions_view(manifest.state_transitions@);
    &&& forall|i: int, j: int|
        0 <= i < j < sims.len() ==> #[trigger] sims[i].endpoint@ != #[trigger] sims[j].endpoint@
    &&& forall|i: int, j: int|
        0 <= i < j < ins.len() ==> #[trigger] ins[i].value@ != #[trigger] ins[j].value@
    &&& forall|i: int|
        #![trigger flows[i]]
        0 <= i < flows.len() ==> (exists|j: int|
            0 <= j < sims.len() && sims[j].endpoint@ == flows[i].from@) && (exists|j: int|
            0 <= j < ins.len() && ins[j].value@ == flows[i].instrument@)
    &&& forall|i: int|
        0 <= i < ts.len() ==> (#[trigger] ts[i].when.all.len() > 0) != (ts[i].when.any.len() > 0)
            && (forall|k: int|
            0 <= k < ts[i].when.all.len() ==> exists|j: int|
                0 <= j < sims.len() && sims[j].name@ == #[trigger] ts[i].when.all[k].sim) && (forall|
            k: int,
        |
            0 <= k < ts[i].when.any.len() ==> exists|j: int|
                0 <= j < sims.len() && sims[j].name@ == #[trigger] ts[i].when.any[k].sim)
}

/// Validation accepts exactly the well-formed manifests.
pub proof fn lemma_validation_accepts_well_formed(
    manifest: Manifest,
    ins: Seq<InstrumentConfig>,
    flows: Seq<InstrumentFlow>,
)
    ensures
        manifest_issue(manifest, ins, flows) is None <==> manifest_well_formed(manifest, ins, flows),
{
    let sims = manifest.simulations@;
    let ts = transitions_view(manifest.state_transitions@);
    lemma_first_index_characterized(sims.len() as int, endpoint_repeated(sims));
    lemma_first_index_characterized(ins.len() as int, instrument_repeated(ins));
    lemma_first_index_characterized(flows.len() as int, flow_rejected(flows, sims, ins));
    lemma_first_index_characterized(ts.len() as int, transition_rejected(ts, sims));
    assert forall|i: int| 0 <= i < ts.len() implies (transition_issue(ts[i], sims) is None <==> (
    (ts[i].when.all.len() > 0) != (ts[i].when.any.len() > 0) && (forall|k: int|
        0 <= k < ts[i].when.all.len() ==> exists|j: int|
            0 <= j < sims.len() && sims[j].name@ == #[trigger] ts[i].when.all[k].sim) && (forall|
        k: int,
    |
        0 <= k < ts[i].when.any.len() ==> exists|j: int|
            0 <= j < sims.len() && sims[j].name@ == #[trigger] ts[i].when.any[k].sim))) by {
        lemma_transition_accepted_exactly(ts[i], sims);
    }
    if manifest_issue(manifest, ins, flows) is None {
        assert forall|i: int, j: int| 0 <= i < j < sims.len() implies #[trigger] sims[i].endpoint@
            != #[trigger] sims[j].endpoint@ by {
            assert(!endpoint_repeated(sims)(j));
        }
        assert forall|i: int, j: int| 0 <= i < j < ins.len() implies #[trigger] ins[i].value@
            != #[trigger] ins[j].value@ by {
            assert(!instrument_repeated(ins)(j));
        }
        assert forall|i: int| 0 <= i < flows.len() implies endpoint_declared(
            sims,
            #[trigger] flows[i].from@,
        ) && instrument_declared(ins, flows[i].instrument@) by {
            assert(!flow_rejected(flows, sims, ins)(i));
        }
        assert forall|i: int| 0 <= i < ts.len() implies (#[trigger] ts[i].when.all.len() > 0) != (
        ts[i].when.any.len() > 0) && (forall|k: int|
            0 <= k < ts[i].when.all.len() ==> exists|j: int|
                0 <= j < sims.len() && sims[j].name@ == #[trigger] ts[i].when.all[k].sim) && (forall|
            k: int,
        |
            0 <= k < ts[i].when.any.len() ==> exists|j: int|
                0 <= j < sims.len() && sims[j].name@ == #[trigger] ts[i].when.any[k].sim) by {
            assert(!transition_rejected(ts, sims)(i));
            lemma_transition_accepted_exactly(ts[i], sims);
        }
        assert forall|i: int| #![trigger flows[i]] 0 <= i < flows.len() implies (exists|j: int|
            0 <= j < sims.len() && sims[j].endpoint@ == flows[i].from@) && (exists|j: int|
            0 <= j < ins.len() && ins[j].value@ == flows[i].instrument@) by {
            assert(!flow_rejected(flows, sims, ins)(i));
            let a = choose|j: int| 0 <= j < sims.len() && #[trigger] sims[j].endpoint@ == flows[i].from@;
            let b = choose|j: int| 0 <= j < ins.len() && #[trigger] ins[j].value@ == flows[i].instrument@;
            assert(sims[a].endpoint@ == flows[i].from@);
            assert(ins[b].value@ == flows[i].instrument@);
        }
        assert(manifest_well_formed(manifest, ins, flows));
    }
    if manifest_well_formed(manifest, ins, flows) {
        assert forall|j: int| 0 <= j < sims.len() implies !#[trigger] endpoint_repeated(sims)(j) by {
            assert forall|i: int| 0 <= i < j implies sims[i].endpoint@ != sims[j].endpoint@ by {}
        }
        assert forall|j: int| 0 <= j < ins.len() implies !#[trigger] instrument_repeated(ins)(j) by {
            assert forall|i: int| 0 <= i < j implies ins[i].value@ != ins[j].value@ by {}
        }
        assert forall|j: int| 0 <= j < flows.len() implies !#[trigger] flow_rejected(flows, sims, ins)(j) by {
            assert(endpoint_declared(sims, flows[j].from@));
            assert(instrument_declared(ins, flows[j].instrument@));
        }
        assert forall|j: int| 0 <= j < ts.len() implies !#[trigger] transition_rejected(ts, sims)(j) by {
            assert((ts[j].when.all.len() > 0) != (ts[j].when.any.len() > 0));
            assert(transition_issue(ts[j], sims) is None);
        }
        assert(manifest_issue(manifest, ins, flows) is None);
    }
}

/// Validates a manifest against its instruments and flows.
pub fn validate_manifest(
    manifest: &Manifest,
    instruments: &[InstrumentConfig],
    flows: &[InstrumentFlow],
) -> (r: Result<(), CoreError>)
    ensures
        reports(r, manifest_issue(*manifest, instruments@, flows@)),
{
    let declarations = match collect_declarations(manifest.simulations.as_slice(), instruments) {
        Ok(d) => d,
        Err(e) => return Err(e),
    };
    let r = validate_flows(
        flows,
        &declarations,
        Ghost(manifest.simulations@),
        Ghost(instruments@),
    );
    if r.is_err() {
        return r;
    }
    validate_state_transitions(manifest.state_transitions.as_slice(), manifest.simulations.as_slice())
}

/// The endpoints and the instrument names that a manifest declares, in
/// order of declaration, each once.
struct ManifestDeclarations {
    endpoints: Vec<String>,
    instruments: Vec<String>,
}

/// The views of a sequence of names.
pub open spec fn names_view(names: Seq<String>) -> Seq<Seq<char>> {
    names.map_values(|n: String| n@)
}

/// The endpoints of the simulations, in order.
pub open spec fn endpoints_of(sims: Seq<SimulationConfig>) -> Seq<Seq<char>> {
    sims.map_values(|s: SimulationConfig| s.endpoint@)
}

/// The names of the instruments, in order.
pub open spec fn instrument_names_of(ins: Seq<InstrumentConfig>) -> Seq<Seq<char>> {
    ins.map_values(|i: InstrumentConfig| i.value@)
}

impl ManifestDeclarations {
    /// These declarations are those of the simulations and instruments.
    spec fn describes(&self, sims: Seq<SimulationConfig>, ins: Seq<InstrumentConfig>) -> bool {
        &&& names_view(self.endpoints@) == endpoints_of(sims)
        &&& names_view(self.instruments@) == instrument_names_of(ins)
    }
}

fn name_listed(names: &Vec<String>, name: &String) -> (found: bool)
    ensures
        found == names_view(names@).contains(name@),
{
    let mut j: usize = 0;
    while j < names.len()
        invariant
            j <= names@.len(),
            forall|k: int| 0 <= k < j ==> names@[k]@ != name@,
        decreases names@.len() - j,
    {
        if names[j] == *name {
            assert(names_view(names@)[j as int] == name@);
            return true;
        }
        j += 1;
    }
    assert forall|k: int| 0 <= k < names_view(names@).len() implies names_view(names@)[k] != name@ by {
        assert(names_view(names@)[k] == names@[k]@);
    }
    false
}

/// Collects the endpoints of the simulations and the names of the
/// instruments; refuses an endpoint or an instrument name declared twice.
fn collect_declarations(
    simulations: &[SimulationConfig],
    instruments: &[InstrumentConfig],
) -> (r: Result<ManifestDeclarations, CoreError>)
    ensures
        r is Ok <==> declarations_issue(simulations@, instruments@) is None,
        r matches Err(e) ==> e.issue() == declarations_issue(simulations@, instruments@),
        r matches Ok(d) ==> d.describes(simulations@, instruments@),
{
    let ghost sims = simulations@;
    let ghost p = endpoint_repeated(sims);
    let mut endpoints: Vec<String> = Vec::new();
    let mut i: usize = 0;
    while i < simulations.len()
        invariant
            i <= sims.len(),
            sims == simulations@,
            p == endpoint_repeated(sims),
            forall|k: int| 0 <= k < i ==> !#[trigger] p(k),
            names_view(endpoints@) == endpoints_of(sims).take(i as int),
        decreases sims.len() - i,
    {
        let ghost seen = endpoints_of(sims).take(i as int);
        if name_listed(&endpoints, &simulations[i].endpoint) {
            proof {
                let j = choose|j: int| 0 <= j < seen.len() && seen[j] == sims[i as int].endpoint@;
                assert(sims[j].endpoint@ == seen[j]);
                assert(p(i as int));
                lemma_first_index_found(sims.len() as int, p, i as int);
            }
            return Err(CoreError::DuplicateEndpoint { endpoint: simulations[i].endpoint.clone() });
        }
        proof {
            assert forall|j: int| 0 <= j < i implies sims[j].endpoint@ != sims[i as int].endpoint@ by {
                assert(seen[j] == sims[j].endpoint@);
            }
        }
        endpoints.push(simulations[i].endpoint.clone());
        proof {
            assert(names_view(endpoints@) =~= endpoints_of(sims).take(i + 1));
        }
        i += 1;
    }
    proof {
        lemma_first_index_none(sims.len() as int, p);
        assert(endpoints_of(sims).take(i as int) =~= endpoints_of(sims));
    }
    let ghost ins = instruments@;
    let ghost q = instrument_repeated(ins);
    let mut names: Vec<String> = Vec::new();
    let mut i: usize = 0;
    while i < instruments.len()
        invariant
            i <= ins.len(),
            ins == instruments@,
            q == instrument_repeated(ins),
            forall|k: int| 0 <= k < i ==> !#[trigger] q(k),
            first_index(sims.len() as int, p) is None,
            p == endpoint_repeated(sims),
            sims == simulations@,
            names_view(names@) == instrument_names_of(ins).take(i as int),
            names_view(endpoints@) == endpoints_of(sims),
        decreases ins.len() - i,
    {
        let ghost seen = instrument_names_of(ins).take(i as int);
        if name_listed(&names, &instruments[i].value) {
            proof {
                let j = choose|j: int| 0 <= j < seen.len() && seen[j] == ins[i as int].value@;
                assert(ins[j].value@ == seen[j]);
                assert(q(i as int));
                lemma_first_index_found(ins.len() as int, q, i as int);
            }
            return Err(CoreError::DuplicateInstrument { instrument: instruments[i].value.clone() });
        }
        proof {
            assert forall|j: int| 0 <= j < i implies ins[j].value@ != ins[i as int].value@ by {
                assert(seen[j] == ins[j].value@);
            }
        }
        names.push(instruments[i].value.clone());
        proof {
            assert(names_view(names@) =~= instrument_names_of(ins).take(i + 1));
        }
        i += 1;
    }
    proof {
        lemma_first_index_none(ins.len() as int, q);
        assert(instrument_names_of(ins).take(i as int) =~= instrument_names_of(ins));
    }
    Ok(ManifestDeclarations { endpoints, instruments: names })
}

/// Checks every flow in order against the declarations and reports the
/// first issue found.
fn validate_flows(
    flows: &[InstrumentFlow],
    declarations: &ManifestDeclarations,
    Ghost(simulations): Ghost<Seq<SimulationConfig>>,
    Ghost(instruments): Ghost<Seq<InstrumentConfig>>,
) -> (r: Result<(), CoreError>)
    requires
        declarations.describes(simulations, instruments),
    ensures
        reports(r, flows_issue(flows@, simulations, instruments)),
{
    let ghost p = flow_rejected(flows@, simulations, instruments);
    let mut i: usize = 0;
    while i < flows.len()
        invariant
            i <= flows@.len(),
            declarations.describes(simulations, instruments),
            p == flow_rejected(flows@, simulations, instruments),
            forall|k: int| 0 <= k < i ==> !#[trigger] p(k),
        decreases flows@.len() - i,
    {
        let r = validate_flow(&flows[i], declarations, Ghost(simulations), Ghost(instruments));
        if r.is_err() {
            proof {
                lemma_first_index_found(flows@.len() as int, p, i as int);
            }
            return r;
        }
        i += 1;
    }
    proof {
        lemma_first_index_none(flows@.len() as int, p);
    }
    Ok(())
}

/// Checks that a flow leaves a declared endpoint and carries a declared
/// instrument.
fn validate_flow(
    flow: &InstrumentFlow,
    declarations: &ManifestDeclarations,
    Ghost(simulations): Ghost<Seq<SimulationConfig>>,
    Ghost(instruments): Ghost<Seq<InstrumentConfig>>,
) -> (r: Result<(), CoreError>)
    requires
        declarations.describes(simulations, instruments),
    ensures
        reports(r, flow_issue(*flow, simulations, instruments)),
{
    proof {
        let es = endpoints_of(simulations);
        let ns = instrument_names_of(instruments);
        assert(es.contains(flow.from@) == endpoint_declared(simulations, flow.from@)) by {
            if es.contains(flow.from@) {
                let j = choose|j: int| 0 <= j < es.len() && es[j] == flow.from@;
                assert(simulations[j].endpoint@ == es[j]);
            }
            if endpoint_declared(simulations, flow.from@) {
                let j = choose|j: int| 0 <= j < simulations.len() && #[trigger] simulations[j].endpoint@ == flow.from@;
                assert(es[j] == simulations[j].endpoint@);
            }
        }
        assert(ns.contains(flow.instrument@) == instrument_declared(instruments, flow.instrument@)) by {
            if ns.contains(flow.instrument@) {
                let j = choose|j: int| 0 <= j < ns.len() && ns[j] == flow.instrument@;
                assert(instruments[j].value@ == ns[j]);
            }
            if instrument_declared(instruments, flow.instrument@) {
                let j = choose|j: int| 0 <= j < instruments.len() && #[trigger] instruments[j].value@ == flow.instrument@;
                assert(ns[j] == instruments[j].value@);
            }
        }
    }
    if !name_listed(&declarations.endpoints, &flow.from) {
        return Err(CoreError::FlowSourceNotLocal { endpoint: flow.from.clone() });
    }
    if !name_listed(&declarations.instruments, &flow.instrument) {
        return Err(CoreError::UnknownFlowInstrument { instrument: flow.instrument.clone() });
    }
    Ok(())
}

} // verus!
