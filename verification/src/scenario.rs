//! Scenario identity and the bounded simulation driver.

use crate::network::BitcoinNetwork;
use crate::network::store_extended;
use crate::network::topology_unchanged;
use crate::randomness::RandomnessSource;
use crate::simulator::Simulator;
use vstd::prelude::*;

verus! {

/// What a run is called and how big it is; observers put this into
/// their output headers.
pub struct ScenarioData {
    pub name: String,
    pub num_of_nodes: usize,
    pub network_type: String,
}

impl ScenarioData {
    pub fn new(name: String, num_of_nodes: usize, network_type: String) -> (r: ScenarioData)
        ensures
            r.name == name,
            r.num_of_nodes == num_of_nodes,
            r.network_type == network_type,
    {
        ScenarioData { name, num_of_nodes, network_type }
    }
}

/// Whether the simulated clock has run past the requested horizon.
pub fn simulation_stop_condition(simulator: &Simulator, stop_time: u64) -> (r: bool)
    ensures
        r == (simulator.simulation_time > stop_time),
{
    simulator.simulation_time > stop_time
}

/// Runs the event loop: while events remain whose firing time is
/// within the horizon, pop and execute the next one. The step bound
/// keeps every run finite; the counter-room check never trips in
/// practice. With a horizon of zero and no events due at instant
/// zero, nothing at all is executed and the world is untouched.
pub fn _simulate_propagation<R: RandomnessSource>(
    network: &mut BitcoinNetwork,
    simulator: &mut Simulator,
    rand: &mut R,
    stop_time: u64,
    max_events: u64,
) -> (executed: u64)
    requires
        old(network).wf(),
        old(simulator).wf(),
    ensures
        final(network).wf(),
        final(simulator).wf(),
        executed <= max_events,
        final(simulator).simulation_time >= old(simulator).simulation_time,
        store_extended(old(network).resource.blocks@, final(network).resource.blocks@),
        topology_unchanged(*old(network), *final(network)),
        (old(simulator).event_queue@.len() == 0 || old(simulator).event_queue@.last().time
            > stop_time) ==> {
            &&& *final(network) == *old(network)
            &&& final(simulator).event_queue@ == old(simulator).event_queue@
            &&& final(simulator).simulation_time == old(simulator).simulation_time
        },
        (old(simulator).event_queue@.len() > 0 && old(simulator).event_queue@.last().time
            <= stop_time && max_events > 0 && old(network).comfortable_room(*old(simulator)))
            ==> {
            &&& executed >= 1
            &&& final(simulator).simulation_time >= old(simulator).event_queue@.last().time
        },
{
    let ghost stalled = old(simulator).event_queue@.len() == 0 || old(
        simulator,
    ).event_queue@.last().time > stop_time;
    let ghost due_and_roomy = old(simulator).event_queue@.len() > 0 && old(
        simulator,
    ).event_queue@.last().time <= stop_time && max_events > 0 && old(network).comfortable_room(
        *old(simulator),
    );
    let mut executed: u64 = 0;
    let mut running = true;
    while running && executed < max_events
        invariant
            network.wf(),
            simulator.wf(),
            executed <= max_events,
            simulator.simulation_time >= old(simulator).simulation_time,
            store_extended(old(network).resource.blocks@, network.resource.blocks@),
            topology_unchanged(*old(network), *network),
            stalled == (old(simulator).event_queue@.len() == 0 || old(
                simulator,
            ).event_queue@.last().time > stop_time),
            stalled ==> {
                &&& *network == *old(network)
                &&& simulator.event_queue@ == old(simulator).event_queue@
                &&& simulator.simulation_time == old(simulator).simulation_time
            },
            due_and_roomy == (old(simulator).event_queue@.len() > 0 && old(
                simulator,
            ).event_queue@.last().time <= stop_time && max_events > 0 && old(
                network,
            ).comfortable_room(*old(simulator))),
            due_and_roomy && executed == 0 ==> {
                &&& running
                &&& *network == *old(network)
                &&& simulator.event_queue@ == old(simulator).event_queue@
                &&& simulator.simulation_time == old(simulator).simulation_time
                &&& simulator.inserted_events == old(simulator).inserted_events
            },
            due_and_roomy && executed >= 1 ==> simulator.simulation_time >= old(
                simulator,
            ).event_queue@.last().time,
        decreases max_events - executed, (if running { 1int } else { 0int }),
    {
        let due = match simulator.peek_event() {
            Some(se) => se.time() <= stop_time,
            None => false,
        };
        if !due {
            running = false;
        } else if !network.check_room(simulator) {
            running = false;
        } else {
            let ghost pre_blocks = network.resource.blocks@;
            simulator.execute_next_event(network, rand);
            proof {
                crate::laws::lemma_store_extended_transitive(
                    old(network).resource.blocks@,
                    pre_blocks,
                    network.resource.blocks@,
                );
            }
            executed = executed + 1;
        }
    }
    executed
}

} // verus!
