//! The chooser that stays on one band.

use crate::args::{spec_get, Props};
use crate::bands::FrequencyBandMap;
use crate::chooser::{copy_freqs, ChooserError, ChooserPlugin};
use crate::hfdl::Frame;
use crate::state::SharedState;
use crate::text::{parse_u32, spec_parse_unsigned};
use vstd::prelude::*;

verus! {

/// The name under which the chooser is asked for.
pub const NAME: &'static str = "single";

/// The property that names the band.
pub const KEY_BAND: &'static str = "band";

/// The chooser of one band: the catalog and the properties it was made
/// with.
pub struct SingleChooserPlugin<'a> {
    bands: &'a FrequencyBandMap,
    props: &'a Props,
}

/// The band that the properties `props` name, if the catalog has it.
pub open spec fn spec_single_band(catalog: Map<u32, Seq<u16>>, props: Seq<(Seq<char>, Seq<char>)>) -> Result<
    u32,
    ChooserError,
> {
    match spec_get(props, KEY_BAND@) {
        None => Err(ChooserError::MissingProperty),
        Some(text) => match spec_parse_unsigned(text, 0xffff_ffff) {
            None => Err(ChooserError::InvalidNumber),
            Some(band) => if catalog.dom().contains(band as u32) {
                Ok(band as u32)
            } else {
                Err(ChooserError::InvalidBand(band as u32))
            },
        },
    }
}

/// Whether `r` is what the chooser returns for the catalog `catalog` and
/// the properties `props`: the frequencies of the band that the properties
/// name, or why there is none.
pub open spec fn spec_single_chose(
    catalog: Map<u32, Seq<u16>>,
    props: Seq<(Seq<char>, Seq<char>)>,
    r: Result<Vec<u16>, ChooserError>,
) -> bool {
    match spec_single_band(catalog, props) {
        Ok(band) => match r {
            Ok(freqs) => freqs@ == catalog[band],
            Err(_) => false,
        },
        Err(e) => r == Err::<Vec<u16>, ChooserError>(e),
    }
}

/// The chooser chooses the same every time: two of its answers for one
/// catalog and the same properties are the same frequencies, or the same
/// failure.
pub proof fn lemma_single_chooses_the_same(
    catalog: Map<u32, Seq<u16>>,
    props: Seq<(Seq<char>, Seq<char>)>,
    first: Result<Vec<u16>, ChooserError>,
    second: Result<Vec<u16>, ChooserError>,
)
    requires
        spec_single_chose(catalog, props, first),
        spec_single_chose(catalog, props, second),
    ensures
        match (first, second) {
            (Ok(a), Ok(b)) => a@ == b@,
            (Err(a), Err(b)) => a == b,
            _ => false,
        },
{
}

impl<'a> SingleChooserPlugin<'a> {
    /// The catalog that the chooser picks from.
    pub closed spec fn spec_bands(&self) -> Map<u32, Seq<u16>> {
        self.bands@
    }

    /// The chooser's properties.
    pub closed spec fn spec_props(&self) -> Seq<(Seq<char>, Seq<char>)> {
        self.props@
    }

    /// The chooser for the catalog `bands` with the properties `props`.
    pub fn new(bands: &'a FrequencyBandMap, props: &'a Props) -> (r: Self)
        requires
            bands.wf(),
        ensures
            r.wf(),
            r.spec_bands() == bands@,
            r.spec_props() == props@,
    {
        SingleChooserPlugin { bands, props }
    }
}

impl<'a> ChooserPlugin for SingleChooserPlugin<'a> {
    closed spec fn wf(&self) -> bool {
        self.bands.wf()
    }

    /// The frequencies of the band that the property `band` names. The
    /// chooser stays as it is.
    fn choose_band(&mut self, store: &SharedState) -> (r: Result<Vec<u16>, ChooserError>)
        ensures
            *final(self) == *old(self),
            spec_single_chose(old(self).spec_bands(), old(self).spec_props(), r),
    {
        let text = match self.props.get(KEY_BAND) {
            Some(text) => text,
            None => {
                return Err(ChooserError::MissingProperty);
            },
        };
        let band = match parse_u32(text) {
            Some(band) => band,
            None => {
                return Err(ChooserError::InvalidNumber);
            },
        };
        match self.bands.get(band) {
            Some(freqs) => Ok(copy_freqs(freqs)),
            None => Err(ChooserError::InvalidBand(band)),
        }
    }

    /// Never asks for a change.
    fn on_recv_frame(&mut self, frame: &Frame) -> (r: bool)
        ensures
            !r,
            *final(self) == *old(self),
    {
        false
    }

    /// Never asks for a change.
    fn on_timeout(&mut self) -> (r: bool)
        ensures
            !r,
            *final(self) == *old(self),
    {
        false
    }
}

} // verus!
