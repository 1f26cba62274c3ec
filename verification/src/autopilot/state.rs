//! What the supervisor works with: the system table, the sampling rates of
//! the radio, and the band catalog for the maximum bandwidth that is set.

use crate::bands::{spec_can_build, FrequencyBandMap};
use crate::utils::systable::SystemTable;
use vstd::prelude::*;

verus! {

/// The maximum bandwidth allows no band catalog.
#[derive(Debug, Clone, Copy, PartialEq, Eq, Structural)]
pub struct InvalidMaxBandwidth(pub u32);

/// The system table, the maximum bandwidth, the sampling rates and the
/// band catalog.
#[derive(Debug)]
pub struct OpsState {
    systable: SystemTable,
    max_bandwidth: u32,
    pub sampling_rates: Vec<u32>,
    pub bands: FrequencyBandMap,
}

impl OpsState {
    /// The system table.
    pub closed spec fn spec_systable(&self) -> SystemTable {
        self.systable
    }

    /// The maximum bandwidth that is set, in Hz.
    pub closed spec fn spec_max_bandwidth(&self) -> u32 {
        self.max_bandwidth
    }

    /// Whether the band catalog is that of the system table for the maximum
    /// bandwidth that is set.
    pub closed spec fn wf(&self) -> bool {
        &&& self.bands.wf()
        &&& self.bands.spec_groups(self.spec_systable().spec_stations(), self.spec_max_bandwidth())
    }

    /// The sampling rates of the radio, in Hz.
    pub closed spec fn spec_sampling_rates(&self) -> Seq<u32> {
        self.sampling_rates@
    }

    /// The band catalog.
    pub closed spec fn spec_bands(&self) -> FrequencyBandMap {
        self.bands
    }

    /// The band catalog of a sound state is well formed, and groups the
    /// frequencies of the system table for the maximum bandwidth.
    pub proof fn lemma_wf(&self)
        requires
            self.wf(),
        ensures
            self.spec_bands().wf(),
            self.spec_bands().spec_groups(
                self.spec_systable().spec_stations(),
                self.spec_max_bandwidth(),
            ),
    {
    }

    /// The sampling rates of the radio, in Hz.
    pub fn sampling_rates(&self) -> (r: &Vec<u32>)
        ensures
            r@ == self.spec_sampling_rates(),
    {
        &self.sampling_rates
    }

    /// The band catalog.
    pub fn bands(&self) -> (r: &FrequencyBandMap)
        ensures
            *r == self.spec_bands(),
    {
        &self.bands
    }

    /// The state for the system table `systable`, a maximum bandwidth of
    /// `max_bandwidth` Hz and the sampling rates `sampling_rates`. Fails
    /// where the bandwidth allows no band catalog.
    pub fn init(systable: SystemTable, max_bandwidth: u32, sampling_rates: Vec<u32>) -> (r: Result<
        Self,
        InvalidMaxBandwidth,
    >)
        ensures
            r.is_ok() == spec_can_build(systable.spec_stations(), max_bandwidth),
            r matches Err(e) ==> e == InvalidMaxBandwidth(max_bandwidth),
            r matches Ok(s) ==> {
                &&& s.wf()
                &&& s.spec_systable() == systable
                &&& s.spec_max_bandwidth() == max_bandwidth
                &&& s.spec_sampling_rates() == sampling_rates@
            },
    {
        match systable.bands(max_bandwidth) {
            Ok(bands) => Ok(OpsState { systable, max_bandwidth, sampling_rates, bands }),
            Err(_) => Err(InvalidMaxBandwidth(max_bandwidth)),
        }
    }

    /// The maximum bandwidth that is set, in Hz.
    pub fn max_bandwidth(&self) -> (r: u32)
        ensures
            r == self.spec_max_bandwidth(),
    {
        self.max_bandwidth
    }

    /// The system table.
    pub fn systable(&self) -> (r: &SystemTable)
        ensures
            *r == self.spec_systable(),
    {
        &self.systable
    }

    /// Sets the maximum bandwidth to `max_bandwidth` Hz and builds the band
    /// catalog anew. Returns `false`, and changes nothing, where the
    /// bandwidth allows no band catalog.
    pub fn set_max_bandwidth(&mut self, max_bandwidth: u32) -> (r: bool)
        ensures
            r == spec_can_build(old(self).spec_systable().spec_stations(), max_bandwidth),
            final(self).spec_systable() == old(self).spec_systable(),
            final(self).spec_sampling_rates() == old(self).spec_sampling_rates(),
            r ==> final(self).wf() && final(self).spec_max_bandwidth() == max_bandwidth,
            !r ==> *final(self) == *old(self),
    {
        match self.systable.bands(max_bandwidth) {
            Ok(bands) => {
                self.max_bandwidth = max_bandwidth;
                self.bands = bands;
                true
            },
            Err(_) => false,
        }
    }
}

} // verus!
