//! The configuration that the choosers, the state store and the supervisor
//! are made from.

use crate::args::Args;
use crate::bands::{EmptyCatalog, FrequencyBandMap};
use crate::hfdl::Position;
use crate::utils::systable::SystemTable;
use vstd::prelude::*;

verus! {

/// A ground station with the bands that hold its frequencies.
#[derive(Debug, Clone)]
pub struct GroundStation {
    pub id: u8,
    pub name: String,
    pub position: Position,
    pub assigned: Vec<u32>,
}

/// The static picture of the network: stations and band catalog.
#[derive(Debug, Clone)]
pub struct HFDLInfo {
    pub stations: Vec<GroundStation>,
    pub bands: FrequencyBandMap,
    pub raw: String,
}

/// What the program was asked to do, and the static picture of the
/// network.
#[derive(Debug, Clone)]
pub struct Config {
    pub bin: String,
    pub timeout: u32,
    pub spdu_timeout: u64,
    pub ac_timeout: u64,
    pub end_session_wait: u64,
    pub additional_args: Vec<String>,
    pub swarm: bool,
    pub host: String,
    pub port: u16,
    pub max_bad_child_reads: u32,
    pub info: HFDLInfo,
}

/// How many bad reads in a row end the supervisor.
pub const MAX_BAD_CHILD_READS: u32 = 1;

/// The bands that hold the frequencies `freqs`, each once, in the order in
/// which `freqs` first reaches them.
pub open spec fn spec_assigned(catalog: Map<u32, Seq<u16>>, freqs: Seq<u16>) -> Seq<u32>
    decreases freqs.len(),
{
    if freqs.len() == 0 {
        Seq::empty()
    } else {
        let before = spec_assigned(catalog, freqs.drop_last());
        match crate::bands::spec_freq_to_band(catalog, freqs.last() as int) {
            Some(id) => if before.contains(id) {
                before
            } else {
                before.push(id)
            },
            None => before,
        }
    }
}

/// Whether the sequence `s` holds `x`.
fn holds(s: &Vec<u32>, x: u32) -> (r: bool)
    ensures
        r == s@.contains(x),
{
    let mut i: usize = 0;
    while i < s.len()
        invariant
            i <= s.len(),
            forall|j: int| 0 <= j < i ==> s[j] != x,
        decreases s.len() - i,
    {
        if s[i] == x {
            return true;
        }
        i += 1;
    }
    false
}

/// The bands that hold the frequencies `freqs`.
pub fn assigned_bands(catalog: &FrequencyBandMap, freqs: &Vec<u16>) -> (r: Vec<u32>)
    requires
        catalog.wf(),
    ensures
        r@ == spec_assigned(catalog@, freqs@),
{
    let mut out: Vec<u32> = Vec::new();
    let mut i: usize = 0;
    while i < freqs.len()
        invariant
            catalog.wf(),
            i <= freqs.len(),
            out@ == spec_assigned(catalog@, freqs@.take(i as int)),
        decreases freqs.len() - i,
    {
        assert(freqs@.take(i + 1).drop_last() == freqs@.take(i as int));
        match catalog.freq_to_band(freqs[i] as u32) {
            Some(id) => {
                if !holds(&out, id) {
                    out.push(id);
                }
            },
            None => {},
        }
        i += 1;
    }
    assert(freqs@.take(freqs.len() as int) == freqs@);
    out
}

impl HFDLInfo {
    /// Whether the band catalog is well formed.
    pub open spec fn wf(&self) -> bool {
        self.bands.wf()
    }

    /// The static picture that the system table `table` gives for a maximum
    /// bandwidth of `max_bandwidth` Hz: the table's stations in their order,
    /// each with the bands of its frequencies, and the catalog of those
    /// bands.
    pub fn new(table: &SystemTable, max_bandwidth: u32, raw: String) -> (r: Result<
        HFDLInfo,
        EmptyCatalog,
    >)
        ensures
            r.is_ok() == crate::bands::spec_can_build(table.spec_stations(), max_bandwidth),
            r matches Ok(info) ==> {
                &&& info.wf()
                &&& info.raw == raw
                &&& info.bands.spec_groups(table.spec_stations(), max_bandwidth)
                &&& info.stations.len() == table.spec_stations().len()
                &&& forall|i: int|
                    0 <= i < info.stations.len() ==> {
                        let gs = #[trigger] info.stations[i];
                        let from = table.spec_stations()[i];
                        &&& gs.id == from.id
                        &&& gs.name@ == from.name@
                        &&& gs.position == from.position
                        &&& gs.assigned@ == spec_assigned(info.bands@, from.frequencies@)
                    }
            },
    {
        let bands = match table.bands(max_bandwidth) {
            Ok(b) => b,
            Err(e) => {
                return Err(e);
            },
        };
        let from = table.stations();
        let mut stations: Vec<GroundStation> = Vec::new();
        let mut i: usize = 0;
        while i < from.len()
            invariant
                bands.wf(),
                i <= from.len(),
                stations.len() == i,
                forall|j: int|
                    0 <= j < i ==> {
                        let gs = #[trigger] stations[j];
                        &&& gs.id == from[j].id
                        &&& gs.name@ == from[j].name@
                        &&& gs.position == from[j].position
                        &&& gs.assigned@ == spec_assigned(bands@, from[j].frequencies@)
                    },
            decreases from.len() - i,
        {
            let gs = &from[i];
            let assigned = assigned_bands(&bands, &gs.frequencies);
            stations.push(
                GroundStation { id: gs.id, name: gs.name.clone(), position: gs.position, assigned },
            );
            i += 1;
        }
        Ok(HFDLInfo { stations, bands, raw })
    }
}

impl Config {
    /// Whether the band catalog is well formed.
    pub open spec fn wf(&self) -> bool {
        self.info.wf()
    }

    /// The configuration that the arguments `args` and the static picture
    /// `info` give.
    pub fn from_args(args: &Args, info: HFDLInfo) -> (c: Config)
        ensures
            c.bin@ == args.bin@,
            c.timeout == args.timeout,
            c.spdu_timeout == args.spdu_timeout,
            c.ac_timeout == args.ac_timeout,
            c.end_session_wait == args.end_session_wait,
            c.swarm == args.swarm,
            c.host@ == args.host@,
            c.port == args.port,
            c.max_bad_child_reads == MAX_BAD_CHILD_READS,
            c.info == info,
            c.additional_args.len() == args.additional_args.len(),
            forall|i: int|
                0 <= i < c.additional_args.len() ==> (#[trigger] c.additional_args[i])@
                    == args.additional_args[i]@,
    {
        let mut additional_args: Vec<String> = Vec::new();
        let mut i: usize = 0;
        while i < args.additional_args.len()
            invariant
                i <= args.additional_args.len(),
                additional_args.len() == i,
                forall|j: int|
                    0 <= j < i ==> (#[trigger] additional_args[j])@ == args.additional_args[j]@,
            decreases args.additional_args.len() - i,
        {
            additional_args.push(args.additional_args[i].clone());
            i += 1;
        }
        Config {
            bin: args.bin.clone(),
            timeout: args.timeout,
            spdu_timeout: args.spdu_timeout,
            ac_timeout: args.ac_timeout,
            end_session_wait: args.end_session_wait,
            additional_args,
            swarm: args.swarm,
            host: args.host.clone(),
            port: args.port,
            max_bad_child_reads: MAX_BAD_CHILD_READS,
            info,
        }
    }
}

} // verus!
