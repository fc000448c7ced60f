//! The settings of a prover that a request changes.
use crate::text::{decimal, decimal_text, law_decimal_round_trip, parse_usize, parsed, parsed_usize};
use std::time::Duration;
use vstd::prelude::*;

verus! {

/// The settings of one proof.
pub struct NetworkProve {
    /// What the setting of the shard size is to be while the options are made; left
    /// alone if nothing.
    pub shard_size: Option<String>,
    /// How many Keccak permutations a shard is to hold; left alone if nothing.
    pub keccak_per_shard: Option<usize>,
    /// How long the proof may take; any time if nothing.
    pub timeout: Option<Duration>,
}

/// How many Keccak permutations the machine's setting asks for; zero where it is
/// missing or no number.
pub open spec fn keccaks(setting: Option<Seq<char>>) -> usize {
    match setting {
        Some(text) => match parsed_usize(text) {
            Some(n) => n,
            None => 0,
        },
        None => 0,
    }
}

/// What a [`NetworkProve`] says.
#[verifier::ext_equal]
pub struct SettingsView {
    pub shard_size: Option<Seq<char>>,
    pub keccak_per_shard: Option<usize>,
    pub timeout: Option<Duration>,
}

impl View for NetworkProve {
    type V = SettingsView;

    open spec fn view(&self) -> SettingsView {
        SettingsView {
            shard_size: match self.shard_size {
                Some(text) => Some(text@),
                None => None,
            },
            keccak_per_shard: self.keccak_per_shard,
            timeout: self.timeout,
        }
    }
}

/// The settings for a shard size and the machine's setting of Keccak permutations.
pub open spec fn settings_for(shard_size: u32, keccak_setting: Option<Seq<char>>) -> SettingsView {
    SettingsView {
        shard_size: if shard_size > 0 {
            Some(decimal(shard_size as nat))
        } else {
            None
        },
        keccak_per_shard: if keccaks(keccak_setting) > 0 {
            Some(keccaks(keccak_setting))
        } else {
            None
        },
        timeout: None,
    }
}

impl Default for NetworkProve {
    /// Settings that change nothing.
    fn default() -> (r: Self)
        ensures
            r.shard_size is None,
            r.keccak_per_shard is None,
            r.timeout is None,
    {
        NetworkProve { shard_size: None, keccak_per_shard: None, timeout: None }
    }
}

impl NetworkProve {
    /// The settings for a shard size and the machine's setting of Keccak permutations
    /// per shard. Zero of either changes nothing.
    pub fn new(shard_size: u32, keccak_setting: Option<&str>) -> (r: Self)
        ensures
            r@ == settings_for(
                shard_size,
                match keccak_setting {
                    Some(text) => Some(text@),
                    None => None,
                },
            ),
            r.timeout is None,
            match r.shard_size {
                Some(text) => shard_size > 0 && text@ == decimal(shard_size as nat),
                None => shard_size == 0,
            },
            ({
                let n = keccaks(
                    match keccak_setting {
                        Some(text) => Some(text@),
                        None => None,
                    },
                );
                r.keccak_per_shard == if n > 0 {
                    Some(n)
                } else {
                    None
                }
            }),
    {
        let wanted: Option<String> = if shard_size > 0 {
            Some(decimal_text(shard_size as u64))
        } else {
            None
        };
        let keccaks: usize = match keccak_setting {
            Some(text) => match parse_usize(text) {
                Some(n) => n,
                None => 0,
            },
            None => 0,
        };
        let keccak_per_shard: Option<usize> = if keccaks > 0 {
            Some(keccaks)
        } else {
            None
        };
        NetworkProve { shard_size: wanted, keccak_per_shard, timeout: None }
    }

    /// How many Keccak permutations a shard holds, where the options say `default`.
    pub fn keccak_or(&self, default: usize) -> (r: usize)
        ensures
            r == (match self.keccak_per_shard {
                Some(n) => n,
                None => default,
            }),
    {
        match self.keccak_per_shard {
            Some(n) => n,
            None => default,
        }
    }
}

/// The setting of the shard size reads as the shard size.
pub proof fn law_shard_size_is_read_back(shard_size: u32)
    ensures
        parsed(decimal(shard_size as nat)) == Some(shard_size as nat),
{
    law_decimal_round_trip(shard_size as nat);
}

/// The setting of Keccak permutations counts where it is a number, and only there.
pub proof fn law_keccaks_are_the_setting(setting: Seq<char>, n: usize)
    ensures
        keccaks(None) == 0,
        keccaks(Some(decimal(n as nat))) == n,
        keccaks(Some(setting)) > 0 ==> parsed_usize(setting) == Some(keccaks(Some(setting))),
        parsed_usize(setting) matches Some(m) ==> keccaks(Some(setting)) == m,
        parsed_usize(setting) is None ==> keccaks(Some(setting)) == 0,
{
    law_decimal_round_trip(n as nat);
}

/// A shard size is set exactly where one is asked for, and is then read back from what is
/// set. Keccak permutations are set exactly where the machine's setting is a number above
/// zero, to that number. There is no time limit.
pub proof fn law_settings_are_what_is_asked(shard_size: u32, keccak_setting: Seq<char>)
    ensures
        ({
            let set = settings_for(shard_size, Some(keccak_setting));
            let plain = settings_for(shard_size, None);
            &&& set.shard_size is Some <==> shard_size > 0
            &&& set.shard_size matches Some(text) ==> parsed(text) == Some(shard_size as nat)
                && text == decimal(shard_size as nat)
            &&& plain.shard_size == set.shard_size
            &&& plain.keccak_per_shard is None
            &&& set.keccak_per_shard is Some <==> parsed_usize(keccak_setting) is Some
                && parsed_usize(keccak_setting) != Some(0usize)
            &&& set.keccak_per_shard is Some ==> set.keccak_per_shard == parsed_usize(
                keccak_setting,
            )
            &&& set.timeout is None && plain.timeout is None
        }),
{
    law_decimal_round_trip(shard_size as nat);
}

/// Settings say what they hold.
pub proof fn law_settings_say_what_they_hold(settings: NetworkProve)
    ensures
        settings.shard_size matches Some(text) ==> settings@.shard_size == Some(text@),
        settings.shard_size is None ==> settings@.shard_size is None,
        settings@.keccak_per_shard == settings.keccak_per_shard,
        settings@.timeout == settings.timeout,
{
}

} // verus!
