//! Runtime configuration: the default polling interval, per-exchange
//! interval overrides written `exchange:seconds`, and the allow-list of
//! monitored exchanges.

use vstd::prelude::*;

use crate::digits::{parse_uint_spec, parse_uint};
use crate::text::{chars_of, split_once_exactly, split_single, string_of_chars};

verus! {

/// Command-line arguments, as plain values.
pub struct CliArgs {
    /// Exchanges to monitor; empty means all available exchanges.
    pub exchanges: Vec<String>,
    /// Default polling interval in seconds.
    pub interval: u64,
    /// Per-exchange overrides, each written `exchange:seconds`.
    pub exchange_intervals: Vec<String>,
    /// Log verbosity.
    pub log_level: String,
    /// Optional path of an environment file.
    pub env_file: Option<String>,
}

/// Configuration for the monitoring process.
pub struct Config {
    /// Interval in seconds between polls, for exchanges without an override.
    pub default_polling_interval: u64,
    /// Per-exchange interval overrides, in the order they were given.
    pub exchange_intervals: Vec<(String, u64)>,
    /// Monitor only these exchanges; empty means monitor all.
    pub enabled_exchanges: Vec<String>,
    /// Log verbosity.
    pub log_level: String,
}

/// The views of a sequence of name/interval pairs.
pub open spec fn pair_views(pairs: Seq<(String, u64)>) -> Seq<(Seq<char>, u64)> {
    pairs.map_values(|p: (String, u64)| (p.0@, p.1))
}

/// The views of a sequence of strings.
pub open spec fn str_views(v: Seq<String>) -> Seq<Seq<char>> {
    v.map_values(|s: String| s@)
}

/// The parsed form of one `exchange:seconds` override, defined exactly when
/// there is a single colon and the seconds parse.
pub open spec fn parse_override(s: Seq<char>) -> Option<(Seq<char>, u64)> {
    match split_once_exactly(s, ':') {
        Some((name, secs)) => match parse_uint_spec(secs, 0x1_0000_0000_0000_0000) {
            Some(v) => Some((name, v as u64)),
            None => None,
        },
        None => None,
    }
}

/// The parsed overrides of a list of `exchange:seconds` strings, invalid
/// entries skipped.
pub open spec fn parse_overrides(specs: Seq<Seq<char>>) -> Seq<(Seq<char>, u64)>
    decreases specs.len(),
{
    if specs.len() == 0 {
        Seq::empty()
    } else {
        parse_overrides(specs.drop_last()) + match parse_override(specs.last()) {
            Some(p) => seq![p],
            None => Seq::empty(),
        }
    }
}

/// The interval configured for `name`: the last matching override, or the
/// default.
pub open spec fn interval_for(pairs: Seq<(Seq<char>, u64)>, name: Seq<char>, dflt: u64) -> u64
    decreases pairs.len(),
{
    if pairs.len() == 0 {
        dflt
    } else if pairs.last().0 == name {
        pairs.last().1
    } else {
        interval_for(pairs.drop_last(), name, dflt)
    }
}

/// Parses a list of `exchange:seconds` overrides, skipping invalid entries.
pub fn parse_exchange_intervals(specs: &Vec<String>) -> (r: Vec<(String, u64)>)
    ensures
        pair_views(r@) == parse_overrides(str_views(specs@)),
{
    let mut r: Vec<(String, u64)> = Vec::new();
    let mut i: usize = 0;
    proof {
        assert(str_views(specs@.subrange(0, 0)) =~= Seq::<Seq<char>>::empty());
        assert(pair_views(r@) =~= parse_overrides(str_views(specs@.subrange(0, 0))));
    }
    while i < specs.len()
        invariant
            i <= specs@.len(),
            pair_views(r@) == parse_overrides(str_views(specs@.subrange(0, i as int))),
        decreases specs@.len() - i,
    {
        let sc = chars_of(specs[i].as_str());
        match split_single(&sc, ':') {
            Some((name, secs)) => {
                match parse_uint(&secs, u64::MAX) {
                    Some(v) => {
                        let key = string_of_chars(&name);
                        r.push((key, v));
                    },
                    None => {},
                }
            },
            None => {},
        }
        proof {
            let pre = str_views(specs@.subrange(0, i as int));
            let cur = str_views(specs@.subrange(0, i + 1 as int));
            assert(cur.drop_last() =~= pre);
            assert(cur.last() == specs@[i as int]@);
            assert(pair_views(r@) =~= parse_overrides(cur));
        }
        i = i + 1;
    }
    proof {
        assert(specs@.subrange(0, specs@.len() as int) =~= specs@);
    }
    r
}

impl Config {
    /// Builds the configuration from parsed command-line arguments.
    pub fn from_args(args: CliArgs) -> (r: Config)
        ensures
            r.default_polling_interval == args.interval,
            pair_views(r.exchange_intervals@) == parse_overrides(
                str_views(args.exchange_intervals@),
            ),
            r.enabled_exchanges == args.exchanges,
            r.log_level == args.log_level,
    {
        let exchange_intervals = parse_exchange_intervals(&args.exchange_intervals);
        Config {
            default_polling_interval: args.interval,
            exchange_intervals,
            enabled_exchanges: args.exchanges,
            log_level: args.log_level,
        }
    }

    /// Returns the polling interval for an exchange: its last configured
    /// override, or the process-wide default.
    pub fn get_polling_interval(&self, exchange_name: &str) -> (r: u64)
        ensures
            r == interval_for(
                pair_views(self.exchange_intervals@),
                exchange_name@,
                self.default_polling_interval,
            ),
    {
        let name = exchange_name.to_owned();
        let mut i: usize = self.exchange_intervals.len();
        proof {
            assert(pair_views(self.exchange_intervals@).subrange(0, i as int) =~= pair_views(
                self.exchange_intervals@,
            ));
        }
        while i > 0
            invariant
                name@ == exchange_name@,
                i <= self.exchange_intervals@.len(),
                interval_for(
                    pair_views(self.exchange_intervals@),
                    exchange_name@,
                    self.default_polling_interval,
                ) == interval_for(
                    pair_views(self.exchange_intervals@).subrange(0, i as int),
                    exchange_name@,
                    self.default_polling_interval,
                ),
            decreases i,
        {
            i = i - 1;
            let ghost pairs = pair_views(self.exchange_intervals@);
            proof {
                assert(pairs.subrange(0, i + 1 as int).last() == pairs[i as int]);
                assert(pairs.subrange(0, i + 1 as int).drop_last() =~= pairs.subrange(0, i as int));
            }
            if self.exchange_intervals[i].0.eq(&name) {
                return self.exchange_intervals[i].1;
            }
        }
        proof {
            assert(pair_views(self.exchange_intervals@).subrange(0, 0) =~= Seq::<(
                Seq<char>,
                u64,
            )>::empty());
        }
        self.default_polling_interval
    }

    /// An exchange is monitored when the allow-list is empty or names it.
    pub fn should_monitor_exchange(&self, exchange_name: &str) -> (r: bool)
        ensures
            r == (self.enabled_exchanges@.len() == 0 || str_views(self.enabled_exchanges@).contains(
                exchange_name@,
            )),
    {
        if self.enabled_exchanges.len() == 0 {
            return true;
        }
        let name = exchange_name.to_owned();
        let mut i: usize = 0;
        while i < self.enabled_exchanges.len()
            invariant
                name@ == exchange_name@,
                i <= self.enabled_exchanges@.len(),
                forall|k: int| 0 <= k < i ==> str_views(self.enabled_exchanges@)[k] != exchange_name@,
            decreases self.enabled_exchanges@.len() - i,
        {
            if self.enabled_exchanges[i].eq(&name) {
                proof {
                    assert(str_views(self.enabled_exchanges@)[i as int] == exchange_name@);
                }
                return true;
            }
            i = i + 1;
        }
        false
    }
}

} // verus!
