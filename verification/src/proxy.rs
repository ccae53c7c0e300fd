//! Outbound proxy selection: deterministic round-robin rotation through a
//! configured port range, uniform random selection, and the precedence of a
//! fixed system proxy over ranged rotation.

use vstd::prelude::*;
use vstd::string::StringExecFns;

use crate::digits::{decimal, parse_uint_spec, parse_uint};
use crate::text::{chars_of, split_once_exactly, split_single};

verus! {

/// A proxy endpoint URL for the given host and port.
pub open spec fn proxy_url_spec(host: Seq<char>, port: int) -> Seq<char> {
    "http://"@ + host + ":"@ + decimal(port)
}

/// The parsed form of a port range written `start-end`, defined exactly when
/// both parts are ports and the range is non-empty.
pub open spec fn parse_port_range(s: Seq<char>) -> Option<(u16, u16)> {
    match split_once_exactly(s, '-') {
        Some((a, b)) => match (parse_uint_spec(a, 65536), parse_uint_spec(b, 65536)) {
            (Some(lo), Some(hi)) => if lo < hi {
                Some((lo as u16, hi as u16))
            } else {
                None
            },
            _ => None,
        },
        None => None,
    }
}

/// The cursor following `cur` in a rotation over `count` ports.
pub open spec fn next_cursor(cur: int, count: int) -> int {
    if cur + 1 >= count {
        0
    } else {
        cur + 1
    }
}

/// The cursor reached after `k` rotation steps from `c0`.
pub open spec fn cursor_after(c0: int, count: int, k: nat) -> int
    decreases k,
{
    if k == 0 {
        c0
    } else {
        next_cursor(cursor_after(c0, count, (k - 1) as nat), count)
    }
}

/// From a fresh rotation, the first `count` steps walk the cursors in order.
pub proof fn lemma_fresh_cursor_walk(count: int, k: nat)
    requires
        0 < count,
        k < count,
    ensures
        cursor_after(0, count, k) == k,
    decreases k,
{
    if k > 0 {
        lemma_fresh_cursor_walk(count, (k - 1) as nat);
    }
}

/// The port emitted by the `k`-th call of `next_proxy_url` on a fresh
/// configuration with ports `start..start + count`.
pub open spec fn emitted_port(start: int, count: int, k: nat) -> int {
    start + cursor_after(0, count, k)
}

/// Law: within the first `count` calls on a fresh configuration, no port is
/// emitted twice.
pub proof fn lemma_rotation_no_repeats(start: int, count: int, k1: nat, k2: nat)
    requires
        0 < count,
        k1 < k2 < count,
    ensures
        emitted_port(start, count, k1) != emitted_port(start, count, k2),
{
    lemma_fresh_cursor_walk(count, k1);
    lemma_fresh_cursor_walk(count, k2);
}

/// Law: within the first `count` calls on a fresh configuration, every port
/// of the range is emitted.
pub proof fn lemma_rotation_covers(start: int, count: int, p: int)
    requires
        0 < count,
        start <= p < start + count,
    ensures
        exists|k: nat| k < count && emitted_port(start, count, k) == p,
{
    let k = (p - start) as nat;
    lemma_fresh_cursor_walk(count, k);
    assert(k < count && emitted_port(start, count, k) == p);
}

/// Proxy settings: a host, an inclusive port range, an optional fixed system
/// proxy that overrides ranged rotation, and the rotation cursor.
pub struct ProxyConfig {
    /// Host name shared by every ranged proxy endpoint.
    pub host: String,
    /// Inclusive port range; the start is strictly below the end.
    pub port_range: (u16, u16),
    /// When set, always selected in place of ranged rotation.
    pub system_proxy: Option<String>,
    /// Rotation cursor, always below the port count.
    pub current_index: usize,
}

impl ProxyConfig {
    /// Number of ports in the configured range.
    pub open spec fn port_count(&self) -> int {
        self.port_range.1 - self.port_range.0 + 1
    }

    /// Well-formed settings: a non-empty range and an in-range cursor.
    pub open spec fn wf(&self) -> bool {
        self.port_range.0 < self.port_range.1 && self.current_index < self.port_count()
    }

    /// Builds settings from a host, a port range written `start-end`, and an
    /// optional system proxy; rotation starts at the first port.
    pub fn from_parts(host: String, port_range: &str, system_proxy: Option<String>) -> (r: Option<
        ProxyConfig,
    >)
        ensures
            r matches Some(c) ==> {
                &&& parse_port_range(port_range@) == Some(c.port_range)
                &&& c.host == host
                &&& c.system_proxy == system_proxy
                &&& c.current_index == 0
                &&& c.wf()
            },
            r is None ==> parse_port_range(port_range@) is None,
    {
        let range_chars = chars_of(port_range);
        match split_single(&range_chars, '-') {
            Some((a, b)) => {
                match (parse_uint(&a, 65535), parse_uint(&b, 65535)) {
                    (Some(lo), Some(hi)) => {
                        if lo < hi {
                            Some(
                                ProxyConfig {
                                    host,
                                    port_range: (lo as u16, hi as u16),
                                    system_proxy,
                                    current_index: 0,
                                },
                            )
                        } else {
                            None
                        }
                    },
                    _ => None,
                }
            },
            None => None,
        }
    }

    /// Renders the ranged proxy URL for the port at the given offset.
    fn ranged_url(&self, offset: usize) -> (r: String)
        requires
            self.wf(),
            offset < self.port_count(),
        ensures
            r@ == proxy_url_spec(self.host@, self.port_range.0 + offset),
    {
        let port = self.port_range.0 as u64 + offset as u64;
        let digits = crate::digits::u64_to_string(port);
        let mut url = String::new();
        url.append("http://");
        url.append(self.host.as_str());
        url.append(":");
        url.append(digits.as_str());
        proof {
            assert(url@ =~= proxy_url_spec(self.host@, self.port_range.0 + offset));
        }
        url
    }

    /// Returns the ranged proxy URL at the cursor and advances the cursor,
    /// wrapping at the end of the range.
    pub fn next_proxy_url(&mut self) -> (r: String)
        requires
            old(self).wf(),
        ensures
            final(self).wf(),
            r@ == proxy_url_spec(old(self).host@, old(self).port_range.0 + old(
                self,
            ).current_index),
            final(self).current_index == next_cursor(
                old(self).current_index as int,
                old(self).port_count(),
            ),
            final(self).host == old(self).host,
            final(self).port_range == old(self).port_range,
            final(self).system_proxy == old(self).system_proxy,
    {
        let url = self.ranged_url(self.current_index);
        let count = (self.port_range.1 - self.port_range.0) as usize + 1;
        self.current_index = if self.current_index + 1 >= count {
            0
        } else {
            self.current_index + 1
        };
        url
    }

    /// Draws an index below `count`.
    ///
    /// Relies on `rand::Rng::gen_range`: the result lies in the given range.
    #[verifier::external_body]
    fn random_index(count: usize) -> (r: usize)
        requires
            count >= 1,
        ensures
            r < count,
    {
        rand::Rng::gen_range(&mut rand::thread_rng(), 0..count)
    }

    /// Returns a ranged proxy URL for a uniformly sampled port, without
    /// touching the cursor.
    pub fn random_proxy_url(&self) -> (r: String)
        requires
            self.wf(),
        ensures
            exists|i: int|
                0 <= i < self.port_count() && r@ == #[trigger] proxy_url_spec(
                    self.host@,
                    self.port_range.0 + i,
                ),
    {
        let count = (self.port_range.1 - self.port_range.0) as usize + 1;
        let offset = Self::random_index(count);
        let url = self.ranged_url(offset);
        proof {
            assert(0 <= offset < self.port_count() && url@ == proxy_url_spec(
                self.host@,
                self.port_range.0 + offset,
            ));
        }
        url
    }

    /// Selects the proxy for a fresh client: the system proxy when one is
    /// configured, otherwise the next URL of the rotation.
    pub fn select_next(&mut self) -> (r: String)
        requires
            old(self).wf(),
        ensures
            final(self).wf(),
            match old(self).system_proxy {
                Some(sys) => r == sys && *final(self) == *old(self),
                None => r@ == proxy_url_spec(old(self).host@, old(self).port_range.0 + old(
                    self,
                ).current_index) && final(self).current_index == next_cursor(
                    old(self).current_index as int,
                    old(self).port_count(),
                ) && final(self).host == old(self).host && final(self).port_range == old(
                    self,
                ).port_range && final(self).system_proxy == old(self).system_proxy,
            },
    {
        match &self.system_proxy {
            Some(sys) => {
                let r = sys.clone();
                proof {
                    assert(r == old(self).system_proxy.unwrap());
                }
                r
            },
            None => self.next_proxy_url(),
        }
    }

    /// Selects the proxy for a retry client: the system proxy when one is
    /// configured, otherwise a randomly sampled URL of the range.
    pub fn select_random(&self) -> (r: String)
        requires
            self.wf(),
        ensures
            match self.system_proxy {
                Some(sys) => r == sys,
                None => exists|i: int|
                    0 <= i < self.port_count() && r@ == #[trigger] proxy_url_spec(
                        self.host@,
                        self.port_range.0 + i,
                    ),
            },
    {
        match &self.system_proxy {
            Some(sys) => sys.clone(),
            None => self.random_proxy_url(),
        }
    }
}

impl Clone for ProxyConfig {
    /// Copies the settings and the current cursor position.
    fn clone(&self) -> (r: Self)
        ensures
            r.host == self.host,
            r.port_range == self.port_range,
            r.system_proxy == self.system_proxy,
            r.current_index == self.current_index,
    {
        ProxyConfig {
            host: self.host.clone(),
            port_range: self.port_range,
            system_proxy: match &self.system_proxy {
                Some(s) => Some(s.clone()),
                None => None,
            },
            current_index: self.current_index,
        }
    }
}

} // verus!
