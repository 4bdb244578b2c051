//! Command-line model of the `malkuth` watchdog binary: its options and the
//! `--proxy PUBLIC:LO-HI` spec.
use vstd::prelude::*;
use vstd::string::*;
use crate::text::{
    dec_text, lemma_dec_text_lacks, lemma_parse_u16_dec_text, lemma_split_once_joined, parse_u16, parse_u16_spec,
    push_decimal_text, spec_split_once, str_split_once, string_of,
};

verus! {

/// A filesystem path (`std::path::PathBuf`); opaque here.
#[verifier::external_type_specification]
#[verifier::external_body]
pub struct ExPathBuf(std::path::PathBuf);

/// `malkuth` — watchdog-style process supervisor + sticky reverse proxy.
#[derive(Debug)]
pub struct Args {
    /// Paths to watch for changes (repeatable). A change triggers a rolling
    /// restart of the pods, one at a time.
    pub watch: Vec<std::path::PathBuf>,
    /// Reverse-proxy spec `PUBLIC:LO-HI`, e.g. `3000:3000-3999`.
    pub proxy: Option<String>,
    /// Number of parallel pod instances to run.
    pub pod_count: usize,
    /// Host the proxy binds and that pods report as their backend address.
    pub host: String,
    /// Environment variable through which the assigned backend port is handed
    /// to the wrapped program.
    pub port_env: String,
    /// Seconds a sticky client→backend mapping is preserved.
    pub sticky_ttl_secs: u64,
    /// Graceful drain budget (seconds) given to a pod before SIGKILL on restart.
    pub drain_secs: u64,
    /// The command to run (everything after `--`).
    pub command: Vec<String>,
}

/// Parsed `--proxy` spec.
#[derive(Debug, Clone, Copy, PartialEq, Eq, Structural)]
pub struct ProxySpec {
    /// Public-facing port the proxy listens on.
    pub public_port: u16,
    /// Inclusive lower bound of the backend port range.
    pub range_lo: u16,
    /// Inclusive upper bound of the backend port range.
    pub range_hi: u16,
}

/// `prefix`, then `item` in backticks, then `suffix`.
pub open spec fn quoted(prefix: Seq<char>, item: Seq<char>, suffix: Seq<char>) -> Seq<char> {
    prefix + item + suffix
}

/// What `ProxySpec::parse` yields for `s`: the spec, or the error message.
pub open spec fn spec_parse_proxy(s: Seq<char>) -> Result<ProxySpec, Seq<char>> {
    match spec_split_once(s, ':') {
        None => Err(quoted("--proxy must look like PUBLIC:LO-HI (got `"@, s, "`)"@)),
        Some((pub_s, range_s)) => match parse_u16_spec(pub_s) {
            None => Err(quoted("invalid public port `"@, pub_s, "`"@)),
            Some(public_port) => match spec_split_once(range_s, '-') {
                None => Err(quoted("backend range must look like LO-HI (got `"@, range_s, "`)"@)),
                Some((lo_s, hi_s)) => match parse_u16_spec(lo_s) {
                    None => Err(quoted("invalid range lo `"@, lo_s, "`"@)),
                    Some(range_lo) => match parse_u16_spec(hi_s) {
                        None => Err(quoted("invalid range hi `"@, hi_s, "`"@)),
                        Some(range_hi) => if range_hi < range_lo {
                            Err("range hi "@ + dec_text(range_hi as nat) + " < lo "@ + dec_text(range_lo as nat))
                        } else {
                            Ok(ProxySpec { public_port, range_lo, range_hi })
                        },
                    },
                },
            },
        },
    }
}

/// The text `PUBLIC:LO-HI` of a spec.
pub open spec fn proxy_text(p: ProxySpec) -> Seq<char> {
    dec_text(p.public_port as nat) + seq![':'] + dec_text(p.range_lo as nat) + seq!['-'] + dec_text(
        p.range_hi as nat,
    )
}

/// Parsing the decimal text `PUBLIC:LO-HI` of any ports whose range is not
/// inverted gives those ports back.
pub proof fn law_proxy_text_round_trip(p: ProxySpec)
    requires
        p.range_lo <= p.range_hi,
    ensures
        spec_parse_proxy(proxy_text(p)) == Ok::<ProxySpec, Seq<char>>(p),
{
    let pub_s = dec_text(p.public_port as nat);
    let lo_s = dec_text(p.range_lo as nat);
    let hi_s = dec_text(p.range_hi as nat);
    let range_s = lo_s + seq!['-'] + hi_s;
    lemma_dec_text_lacks(p.public_port as nat, ':');
    lemma_dec_text_lacks(p.range_lo as nat, '-');
    assert(proxy_text(p) =~= pub_s + seq![':'] + range_s);
    lemma_split_once_joined(pub_s, ':', range_s);
    lemma_split_once_joined(lo_s, '-', hi_s);
    lemma_parse_u16_dec_text(p.public_port);
    lemma_parse_u16_dec_text(p.range_lo);
    lemma_parse_u16_dec_text(p.range_hi);
}

/// `prefix ++ item ++ suffix` as a new string.
fn quote(prefix: &str, item: &str, suffix: &str) -> (r: String)
    ensures
        r@ == quoted(prefix@, item@, suffix@),
{
    let mut m = string_of(prefix);
    m.append(item);
    m.append(suffix);
    m
}

impl ProxySpec {
    /// Parse `PUBLIC:LO-HI`: the public port, then the inclusive backend port
    /// range, which must not be inverted.
    pub fn parse(s: &str) -> (r: Result<ProxySpec, String>)
        ensures
            match r {
                Ok(p) => spec_parse_proxy(s@) == Ok::<ProxySpec, Seq<char>>(p),
                Err(m) => spec_parse_proxy(s@) == Err::<ProxySpec, Seq<char>>(m@),
            },
    {
        let (pub_s, range_s) = match str_split_once(s, ':') {
            Some(parts) => parts,
            None => {
                return Err(quote("--proxy must look like PUBLIC:LO-HI (got `", s, "`)"));
            },
        };
        let public_port = match parse_u16(pub_s) {
            Some(v) => v,
            None => {
                return Err(quote("invalid public port `", pub_s, "`"));
            },
        };
        let (lo_s, hi_s) = match str_split_once(range_s, '-') {
            Some(parts) => parts,
            None => {
                return Err(quote("backend range must look like LO-HI (got `", range_s, "`)"));
            },
        };
        let range_lo = match parse_u16(lo_s) {
            Some(v) => v,
            None => {
                return Err(quote("invalid range lo `", lo_s, "`"));
            },
        };
        let range_hi = match parse_u16(hi_s) {
            Some(v) => v,
            None => {
                return Err(quote("invalid range hi `", hi_s, "`"));
            },
        };
        if range_hi < range_lo {
            let mut m = string_of("range hi ");
            push_decimal_text(&mut m, range_hi as u64);
            m.append(" < lo ");
            push_decimal_text(&mut m, range_lo as u64);
            return Err(m);
        }
        Ok(ProxySpec { public_port, range_lo, range_hi })
    }

    /// The candidate backend ports, ascending: every port of the inclusive
    /// range except the public port.
    pub fn backend_ports(&self) -> (r: Vec<u16>)
        ensures
            forall|i: int, j: int| 0 <= i < j < r@.len() ==> r@[i] < r@[j],
            forall|p: u16| r@.contains(p) <==> (self.range_lo <= p <= self.range_hi && p != self.public_port),
    {
        let mut out: Vec<u16> = Vec::new();
        let mut p: u32 = self.range_lo as u32;
        while p <= self.range_hi as u32
            invariant
                self.range_lo <= p,
                p <= self.range_hi as u32 + 1 || p == self.range_lo,
                forall|i: int, j: int| 0 <= i < j < out@.len() ==> out@[i] < out@[j],
                forall|i: int| 0 <= i < out@.len() ==> out@[i] < p,
                forall|q: u16| out@.contains(q) <==> (self.range_lo <= q < p && q != self.public_port),
            decreases self.range_hi as u32 + 1 - p,
        {
            let port = p as u16;
            if port != self.public_port {
                proof {
                    assert forall|q: u16| out@.push(port).contains(q) <==> (self.range_lo <= q < p + 1 && q != self.public_port) by {
                        let np = out@.push(port);
                        if q == port {
                            assert(np[out@.len() as int] == port);
                        } else {
                            if out@.contains(q) {
                                let k = choose|k: int| 0 <= k < out@.len() && out@[k] == q;
                                assert(np[k] == q);
                            }
                            if np.contains(q) {
                                let k = choose|k: int| 0 <= k < np.len() && np[k] == q;
                                assert(k < out@.len());
                                assert(out@[k] == q);
                            }
                        }
                    }
                }
                out.push(port);
            } else {
                proof {
                    assert forall|q: u16| out@.contains(q) <==> (self.range_lo <= q < p + 1 && q != self.public_port) by {
                        if q == port {
                            assert(q == self.public_port);
                        }
                    }
                }
            }
            p = p + 1;
        }
        out
    }
}

} // verus!
