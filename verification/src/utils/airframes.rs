//! Feeding decoded frames to airframes.io.

use crate::text::{
    eq_ignore_ascii_case, position_ignore_case, spec_eq_ignore_case, spec_has_arg,
};
use vstd::prelude::*;

verus! {

/// The decoder's flag for an output.
pub const FLAG_OUTPUT: &'static str = "--output";

/// The decoder's flag for the name of the feeding station.
pub const FLAG_STATION_ID: &'static str = "--station-id";

/// The output that feeds airframes.io.
pub const AIRFRAMESIO_DUMPHFDL_OUTPUT: &'static str =
    "decoded:json:tcp:address=feed.acars.io,port=5556";

/// The frequencies that airframes.io reports as active for a station.
#[derive(Debug, Clone)]
pub struct GroundStationFreqInfo {
    pub active: Vec<u16>,
}

/// A ground station as airframes.io reports it; the time of its last
/// update in whole seconds.
#[derive(Debug, Clone)]
pub struct GroundStationStatus {
    pub id: u8,
    pub name: String,
    pub frequencies: GroundStationFreqInfo,
    pub last_updated: u64,
}

/// The ground stations as airframes.io reports them.
#[derive(Debug, Clone)]
pub struct HFDLGroundStationStatus {
    pub ground_stations: Vec<GroundStationStatus>,
}

/// Why the decoder's arguments cannot be extended for feeding.
#[derive(Debug, Clone, Copy, PartialEq, Eq, Structural)]
pub enum FeederError {
    /// There are fewer than four arguments.
    TooFewArguments,
    /// No argument is `--station-id`.
    MissingStationId,
    /// The feeding output is given, but not behind `--output`.
    MisplacedOutput,
}

/// The arguments `args` of the decoder, extended so that it feeds
/// airframes.io: `--output` and the feeding output are put at the end,
/// unless the feeding output is given already.
pub fn add_airframes_feeder_args(args: &Vec<String>) -> (r: Result<Vec<String>, FeederError>)
    ensures
        match r {
            Err(FeederError::TooFewArguments) => args.len() < 4,
            Err(FeederError::MissingStationId) => args.len() >= 4 && !spec_has_arg(
                args@,
                args.len() as int,
                FLAG_STATION_ID@,
            ),
            Err(FeederError::MisplacedOutput) => {
                &&& args.len() >= 4
                &&& spec_has_arg(args@, args.len() as int, FLAG_STATION_ID@)
                &&& exists|i: int|
                    {
                        &&& 0 <= i < args.len()
                        &&& spec_eq_ignore_case((#[trigger] args[i])@, AIRFRAMESIO_DUMPHFDL_OUTPUT@)
                        &&& !spec_has_arg(args@, i, AIRFRAMESIO_DUMPHFDL_OUTPUT@)
                        &&& (i == 0 || !spec_eq_ignore_case(args[i - 1]@, FLAG_OUTPUT@))
                    }
            },
            Ok(out) => {
                &&& args.len() >= 4
                &&& spec_has_arg(args@, args.len() as int, FLAG_STATION_ID@)
                &&& if spec_has_arg(args@, args.len() as int, AIRFRAMESIO_DUMPHFDL_OUTPUT@) {
                    &&& crate::text::spec_views(out@) == crate::text::spec_views(args@)
                    &&& exists|i: int|
                        {
                            &&& 0 < i < args.len()
                            &&& spec_eq_ignore_case(
                                (#[trigger] args[i])@,
                                AIRFRAMESIO_DUMPHFDL_OUTPUT@,
                            )
                            &&& !spec_has_arg(args@, i, AIRFRAMESIO_DUMPHFDL_OUTPUT@)
                            &&& spec_eq_ignore_case(args[i - 1]@, FLAG_OUTPUT@)
                        }
                } else {
                    crate::text::spec_views(out@) == crate::text::spec_views(args@) + seq![
                        FLAG_OUTPUT@,
                        AIRFRAMESIO_DUMPHFDL_OUTPUT@,
                    ]
                }
            },
        },
{
    if args.len() < 4 {
        return Err(FeederError::TooFewArguments);
    }
    if position_ignore_case(args, FLAG_STATION_ID).is_none() {
        return Err(FeederError::MissingStationId);
    }
    let mut out: Vec<String> = Vec::new();
    let mut i: usize = 0;
    while i < args.len()
        invariant
            i <= args.len(),
            out.len() == i,
            forall|j: int| 0 <= j < i ==> (#[trigger] out[j])@ == args[j]@,
        decreases args.len() - i,
    {
        out.push(args[i].clone());
        i += 1;
    }
    assert(crate::text::spec_views(out@) =~= crate::text::spec_views(args@));
    match position_ignore_case(args, AIRFRAMESIO_DUMPHFDL_OUTPUT) {
        Some(idx) => {
            if idx == 0 || !eq_ignore_ascii_case(args[idx - 1].as_str(), FLAG_OUTPUT) {
                return Err(FeederError::MisplacedOutput);
            }
        },
        None => {
            let ghost copied = crate::text::spec_views(out@);
            out.push(FLAG_OUTPUT.to_owned());
            out.push(AIRFRAMESIO_DUMPHFDL_OUTPUT.to_owned());
            assert(crate::text::spec_views(out@) =~= copied + seq![
                FLAG_OUTPUT@,
                AIRFRAMESIO_DUMPHFDL_OUTPUT@,
            ]);
        },
    }
    Ok(out)
}

} // verus!
