//! The program's arguments, as plain values, and what is read out of them.

use crate::text::{
    chars_of, find_from, position_ignore_case, spec_first_index, spec_has_arg, spec_split,
    spec_views, split, starts_with, str_eq,
};
use vstd::prelude::*;
use vstd::string::StrSliceExecFns;

verus! {

/// The flag of the decoder that names the radio.
pub const FLAG_SOAPYSDR: &'static str = "--soapysdr";

/// How the radio's driver is named among the radio's options.
pub const DRIVER_PREFIX: &'static str = "driver=";

/// The arguments of the program.
#[derive(Debug, Clone)]
pub struct Args {
    /// Verbose mode
    pub verbose: bool,
    /// Silence all output
    pub quiet: bool,
    /// Path to the decoder binary
    pub bin: String,
    /// Path to the system table file
    pub sys_table: String,
    /// Maximum bandwidth, in Hz, for splitting the spectrum into bands
    pub max_bandwidth: u32,
    /// Whether to connect to a swarm leader
    pub swarm: bool,
    /// Host to connect to or listen on
    pub host: String,
    /// Port to connect to or listen on
    pub port: u16,
    /// Seconds before a broadcast's active frequencies are stale
    pub spdu_timeout: u64,
    /// Seconds before a flight is stale
    pub ac_timeout: u64,
    /// Seconds to wait after the decoder was stopped
    pub end_session_wait: u64,
    /// Seconds to wait for a frame before the chooser is asked
    pub timeout: u32,
    /// Chooser and its properties: `NAME[:KEY=VALUE,...]`
    pub chooser: String,
    /// Further properties of the chooser: `KEY=VALUE,...`
    pub chooser_args: String,
    /// Arguments handed on to the decoder
    pub additional_args: Vec<String>,
}

/// One property of a chooser.
#[derive(Debug, Clone)]
pub struct Prop {
    pub key: String,
    pub value: String,
}

/// The properties of a chooser, in the order in which their keys were first
/// given. The view is the sequence of pairs of key and value.
#[derive(Debug)]
pub struct Props {
    entries: Vec<Prop>,
}

/// Why the sampling rates of the radio cannot be told.
#[derive(Debug, Clone, Copy, PartialEq, Eq, Structural)]
pub enum ArgsError {
    /// No argument is `--soapysdr`.
    MissingSoapySdr,
    /// `--soapysdr` is the last argument.
    MissingSoapySdrValue,
    /// The radio's options name no driver.
    MissingDriver,
}

/// Where the key `key` first stands in `s`; the length of `s` where it
/// stands nowhere.
pub open spec fn spec_key_index(s: Seq<(Seq<char>, Seq<char>)>, key: Seq<char>) -> int
    decreases s.len(),
{
    if s.len() == 0 {
        0
    } else {
        let before = spec_key_index(s.drop_last(), key);
        if before < s.len() - 1 {
            before
        } else if s.last().0 == key {
            s.len() - 1
        } else {
            s.len() as int
        }
    }
}

/// The value that `s` holds for `key`.
pub open spec fn spec_get(s: Seq<(Seq<char>, Seq<char>)>, key: Seq<char>) -> Option<Seq<char>> {
    let i = spec_key_index(s, key);
    if 0 <= i < s.len() {
        Some(s[i].1)
    } else {
        None
    }
}

/// `s` with `value` for `key`: in the place of the key's old value, or at
/// the end where it had none.
pub open spec fn spec_insert(s: Seq<(Seq<char>, Seq<char>)>, key: Seq<char>, value: Seq<char>) -> Seq<
    (Seq<char>, Seq<char>),
> {
    let i = spec_key_index(s, key);
    if 0 <= i < s.len() {
        s.update(i, (key, value))
    } else {
        s.push((key, value))
    }
}

/// The key and the value that `piece` gives: what stands before and behind
/// its first `=`; the whole piece and no value where it has none.
pub open spec fn spec_prop_of(piece: Seq<char>) -> (Seq<char>, Seq<char>) {
    let k = spec_first_index(piece, '=');
    if 0 <= k < piece.len() {
        (piece.take(k), piece.skip(k + 1))
    } else {
        (piece, Seq::empty())
    }
}

/// The properties that `pieces` give, each taken in as `spec_insert` does.
pub open spec fn spec_props_of(pieces: Seq<Seq<char>>) -> Seq<(Seq<char>, Seq<char>)>
    decreases pieces.len(),
{
    if pieces.len() == 0 {
        Seq::empty()
    } else {
        let p = spec_prop_of(pieces.last());
        spec_insert(spec_props_of(pieces.drop_last()), p.0, p.1)
    }
}

/// The properties that the text `KEY=VALUE,...` gives.
pub open spec fn spec_parse_props(text: Seq<char>) -> Seq<(Seq<char>, Seq<char>)> {
    spec_props_of(spec_split(text, ','))
}

/// The chooser's name and properties that the text `NAME[:KEY=VALUE,...]`
/// gives.
pub open spec fn spec_chooser_params(chooser: Seq<char>) -> (Seq<char>, Seq<(Seq<char>, Seq<char>)>) {
    let k = spec_first_index(chooser, ':');
    if 0 <= k < chooser.len() {
        (chooser.take(k), spec_parse_props(chooser.skip(k + 1)))
    } else {
        (chooser, Seq::empty())
    }
}

impl Props {
    /// The pairs of key and value, in order.
    pub closed spec fn view(&self) -> Seq<(Seq<char>, Seq<char>)> {
        Seq::new(self.entries.len() as nat, |i: int| (self.entries[i].key@, self.entries[i].value@))
    }

    /// No properties.
    pub fn new() -> (r: Props)
        ensures
            r@ == Seq::<(Seq<char>, Seq<char>)>::empty(),
    {
        let r = Props { entries: Vec::new() };
        assert(r@ =~= Seq::<(Seq<char>, Seq<char>)>::empty());
        r
    }

    /// The number of properties.
    pub fn len(&self) -> (n: usize)
        ensures
            n == self@.len(),
    {
        self.entries.len()
    }

    /// The property at the place `i`.
    pub fn entry(&self, i: usize) -> (r: &Prop)
        requires
            i < self@.len(),
        ensures
            (r.key@, r.value@) == self@[i as int],
    {
        &self.entries[i]
    }

    fn find(&self, key: &str) -> (r: usize)
        ensures
            r as int == spec_key_index(self@, key@),
            r <= self.entries.len(),
    {
        let mut i: usize = 0;
        assert(self@.take(0) =~= Seq::empty());
        while i < self.entries.len()
            invariant
                i <= self.entries.len(),
                spec_key_index(self@.take(i as int), key@) == i,
            decreases self.entries.len() - i,
        {
            proof {
                assert(self@.take(i + 1).drop_last() == self@.take(i as int));
                assert(self@.take(i + 1).last() == self@[i as int]);
            }
            if str_eq(self.entries[i].key.as_str(), key) {
                proof {
                    lemma_key_prefix(self@, i + 1, key@);
                }
                return i;
            }
            i += 1;
        }
        assert(self@.take(self.entries.len() as int) == self@);
        i
    }

    /// The value of the property `key`.
    pub fn get(&self, key: &str) -> (r: Option<&str>)
        ensures
            r.is_some() == spec_get(self@, key@).is_some(),
            r matches Some(v) ==> spec_get(self@, key@) == Some(v@),
    {
        let i = self.find(key);
        if i < self.entries.len() {
            Some(self.entries[i].value.as_str())
        } else {
            None
        }
    }

    /// Whether there is a property `key`.
    pub fn contains_key(&self, key: &str) -> (r: bool)
        ensures
            r == spec_get(self@, key@).is_some(),
    {
        self.find(key) < self.entries.len()
    }

    /// Gives the property `key` the value `value`.
    pub fn insert(&mut self, key: String, value: String)
        ensures
            final(self)@ == spec_insert(old(self)@, key@, value@),
    {
        let i = self.find(key.as_str());
        if i < self.entries.len() {
            self.entries.set(i, Prop { key, value });
            assert(self@ =~= spec_insert(old(self)@, key@, value@));
        } else {
            self.entries.push(Prop { key, value });
            assert(self@ =~= spec_insert(old(self)@, key@, value@));
        }
    }

    /// The properties that the text `KEY=VALUE,...` gives.
    pub fn parse(text: &str) -> (r: Props)
        ensures
            r@ == spec_parse_props(text@),
    {
        let pieces = split(text, ',');
        let ghost all = spec_split(text@, ',');
        let mut props = Props::new();
        let mut i: usize = 0;
        assert(all.take(0) =~= Seq::empty());
        while i < pieces.len()
            invariant
                i <= pieces.len(),
                spec_views(pieces@) == all,
                props@ == spec_props_of(all.take(i as int)),
            decreases pieces.len() - i,
        {
            let piece = pieces[i].as_str();
            proof {
                assert(all.take(i + 1).drop_last() == all.take(i as int));
                assert(all.take(i + 1).last() == piece@);
                assert(spec_views(pieces@)[i as int] == pieces[i as int]@);
            }
            let chars = chars_of(piece);
            let k = find_from(&chars, 0, '=');
            assert(chars@.skip(0) == chars@);
            if k < chars.len() {
                let key = piece.substring_char(0, k).to_owned();
                let value = piece.substring_char(k + 1, chars.len()).to_owned();
                assert(key@ == piece@.take(k as int));
                assert(value@ == piece@.skip(k + 1));
                props.insert(key, value);
            } else {
                props.insert(piece.to_owned(), String::new());
            }
            i += 1;
        }
        assert(all.take(pieces.len() as int) == all);
        props
    }
}

/// A key found among the first `n` entries is the key's first place in all
/// of them.
proof fn lemma_key_prefix(s: Seq<(Seq<char>, Seq<char>)>, n: int, key: Seq<char>)
    requires
        0 <= n <= s.len(),
        spec_key_index(s.take(n), key) < n,
    ensures
        spec_key_index(s, key) == spec_key_index(s.take(n), key),
    decreases s.len() - n,
{
    if n < s.len() {
        assert(s.take(n + 1).drop_last() == s.take(n));
        lemma_key_prefix(s, n + 1, key);
    } else {
        assert(s.take(n) == s);
    }
}

/// The radio's sampling rates, in Hz, in ascending order.
pub open spec fn spec_sample_rates() -> Seq<u32> {
    seq![250000u32, 500000u32, 5000000u32, 6000000u32]
}

/// Whether one of the first `n` of `pieces` begins with `prefix`.
pub open spec fn spec_has_prefixed(pieces: Seq<Seq<char>>, n: int, prefix: Seq<char>) -> bool {
    exists|i: int|
        0 <= i < n && i < pieces.len() && prefix.len() <= (#[trigger] pieces[i]).len()
            && pieces[i].take(prefix.len() as int) == prefix
}

/// Whether one of `pieces` begins with `prefix`.
fn any_prefixed(pieces: &Vec<String>, prefix: &str) -> (r: bool)
    ensures
        r == spec_has_prefixed(spec_views(pieces@), pieces.len() as int, prefix@),
{
    let mut i: usize = 0;
    while i < pieces.len()
        invariant
            i <= pieces.len(),
            !spec_has_prefixed(spec_views(pieces@), i as int, prefix@),
        decreases pieces.len() - i,
    {
        assert(spec_views(pieces@)[i as int] == pieces[i as int]@);
        if starts_with(pieces[i].as_str(), prefix) {
            return true;
        }
        i += 1;
    }
    false
}

impl Args {
    /// The chooser's name and properties, from `NAME[:KEY=VALUE,...]`.
    pub fn chooser_params(&self) -> (r: (String, Props))
        ensures
            (r.0@, r.1@) == spec_chooser_params(self.chooser@),
    {
        let text = self.chooser.as_str();
        let chars = chars_of(text);
        let k = find_from(&chars, 0, ':');
        assert(chars@.skip(0) == chars@);
        if k < chars.len() {
            let name = text.substring_char(0, k).to_owned();
            let rest = text.substring_char(k + 1, chars.len());
            assert(name@ == text@.take(k as int));
            assert(rest@ == text@.skip(k + 1));
            (name, Props::parse(rest))
        } else {
            (text.to_owned(), Props::new())
        }
    }

    /// The chooser's name, and the properties that `chooser_args` gives.
    pub fn chooser_config(&self) -> (r: (String, Props))
        ensures
            r.0@ == self.chooser@,
            r.1@ == spec_parse_props(self.chooser_args@),
    {
        (self.chooser.clone(), Props::parse(self.chooser_args.as_str()))
    }

    /// The sampling rates of the radio that the decoder's arguments name.
    /// The radio is named by the argument behind the first `--soapysdr`,
    /// a list of options between commas, one of which has to begin with
    /// `driver=`.
    pub fn soapysdr_sample_rates(&self) -> (r: Result<Vec<u32>, ArgsError>)
        ensures
            match r {
                Err(ArgsError::MissingSoapySdr) => !spec_has_arg(
                    self.additional_args@,
                    self.additional_args.len() as int,
                    FLAG_SOAPYSDR@,
                ),
                Err(ArgsError::MissingSoapySdrValue) => exists|i: int|
                    {
                        &&& i == self.additional_args.len() - 1
                        &&& 0 <= i
                        &&& crate::text::spec_eq_ignore_case(
                            (#[trigger] self.additional_args[i])@,
                            FLAG_SOAPYSDR@,
                        )
                        &&& !spec_has_arg(self.additional_args@, i, FLAG_SOAPYSDR@)
                    },
                Err(ArgsError::MissingDriver) => exists|i: int|
                    {
                        &&& 0 <= i < self.additional_args.len() - 1
                        &&& crate::text::spec_eq_ignore_case(
                            (#[trigger] self.additional_args[i])@,
                            FLAG_SOAPYSDR@,
                        )
                        &&& !spec_has_arg(self.additional_args@, i, FLAG_SOAPYSDR@)
                        &&& !spec_has_prefixed(
                            spec_split(self.additional_args[i + 1]@, ','),
                            spec_split(self.additional_args[i + 1]@, ',').len() as int,
                            DRIVER_PREFIX@,
                        )
                    },
                Ok(rates) => {
                    &&& rates@ == spec_sample_rates()
                    &&& exists|i: int|
                        {
                            &&& 0 <= i < self.additional_args.len() - 1
                            &&& crate::text::spec_eq_ignore_case(
                                (#[trigger] self.additional_args[i])@,
                                FLAG_SOAPYSDR@,
                            )
                            &&& !spec_has_arg(self.additional_args@, i, FLAG_SOAPYSDR@)
                            &&& spec_has_prefixed(
                                spec_split(self.additional_args[i + 1]@, ','),
                                spec_split(self.additional_args[i + 1]@, ',').len() as int,
                                DRIVER_PREFIX@,
                            )
                        }
                },
            },
    {
        let idx = match position_ignore_case(&self.additional_args, FLAG_SOAPYSDR) {
            Some(idx) => idx,
            None => {
                return Err(ArgsError::MissingSoapySdr);
            },
        };
        if idx + 1 >= self.additional_args.len() {
            return Err(ArgsError::MissingSoapySdrValue);
        }
        let options = split(self.additional_args[idx + 1].as_str(), ',');
        let ghost all = spec_split(self.additional_args[idx + 1]@, ',');
        if !any_prefixed(&options, DRIVER_PREFIX) {
            return Err(ArgsError::MissingDriver);
        }
        let mut rates: Vec<u32> = Vec::new();
        rates.push(250000);
        rates.push(500000);
        rates.push(5000000);
        rates.push(6000000);
        assert(rates@ =~= spec_sample_rates());
        Ok(rates)
    }
}

} // verus!
