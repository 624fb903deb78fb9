use vstd::prelude::*;
use vstd::string::StringExecFns;

use crate::scan::ScanError;

verus! {

/// Which address families a lookup asks for, and in what order.
#[derive(Clone, Copy, Debug, PartialEq, Eq, Structural)]
pub enum IpStrategy {
    Ipv4AndIpv6,
    Ipv6Only,
    Ipv4Only,
    Ipv6thenIpv4,
    Ipv4thenIpv6,
}

/// `both`, `6`, `4`, `6f` and `4f` name the strategies; anything else asks
/// for both families.
pub open spec fn strategy_of(s: Seq<char>) -> IpStrategy {
    if s == seq!['6'] {
        IpStrategy::Ipv6Only
    } else if s == seq!['4'] {
        IpStrategy::Ipv4Only
    } else if s == seq!['6', 'f'] {
        IpStrategy::Ipv6thenIpv4
    } else if s == seq!['4', 'f'] {
        IpStrategy::Ipv4thenIpv6
    } else {
        IpStrategy::Ipv4AndIpv6
    }
}

/// Reads the lookup strategy from its short name.
pub fn get_strategy(strategy: &str) -> (r: IpStrategy)
    ensures
        r == strategy_of(strategy@),
{
    proof {
        reveal_strlit("6");
        reveal_strlit("4");
        reveal_strlit("6f");
        reveal_strlit("4f");
        assert("6"@ =~= seq!['6']);
        assert("4"@ =~= seq!['4']);
        assert("6f"@ =~= seq!['6', 'f']);
        assert("4f"@ =~= seq!['4', 'f']);
    }
    let s = String::from_str(strategy);
    if s == String::from_str("6") {
        IpStrategy::Ipv6Only
    } else if s == String::from_str("4") {
        IpStrategy::Ipv4Only
    } else if s == String::from_str("6f") {
        IpStrategy::Ipv6thenIpv4
    } else if s == String::from_str("4f") {
        IpStrategy::Ipv4thenIpv6
    } else {
        IpStrategy::Ipv4AndIpv6
    }
}

/// The name server to query: a well-known provider, or an address given as
/// text, which the caller parses.
#[derive(Clone, Debug)]
pub enum NameServer {
    Google,
    Cloudflare,
    Quad9,
    Address(String),
}

pub open spec fn google() -> Seq<char> {
    seq!['g', 'o', 'o', 'g', 'l', 'e']
}

pub open spec fn cloudflare() -> Seq<char> {
    seq!['c', 'l', 'o', 'u', 'd', 'f', 'l', 'a', 'r', 'e']
}

pub open spec fn quad9() -> Seq<char> {
    seq!['q', 'u', 'a', 'd', '9']
}

/// Reads the name-server selection: `google`, `cloudflare`, `quad9`, or an
/// address; none given means Google.
pub fn name_server(choice: Option<&str>) -> (r: NameServer)
    ensures
        match choice {
            None => r is Google,
            Some(s) => if s@ == google() {
                r is Google
            } else if s@ == cloudflare() {
                r is Cloudflare
            } else if s@ == quad9() {
                r is Quad9
            } else {
                (r matches NameServer::Address(a) && a@ == s@)
            },
        },
{
    match choice {
        None => NameServer::Google,
        Some(dns) => {
            proof {
                reveal_strlit("google");
                reveal_strlit("cloudflare");
                reveal_strlit("quad9");
                assert("google"@ =~= google());
                assert("cloudflare"@ =~= cloudflare());
                assert("quad9"@ =~= quad9());
            }
            let s = String::from_str(dns);
            if s == String::from_str("google") {
                NameServer::Google
            } else if s == String::from_str("cloudflare") {
                NameServer::Cloudflare
            } else if s == String::from_str("quad9") {
                NameServer::Quad9
            } else {
                NameServer::Address(s)
            }
        },
    }
}

/// The concurrency budget: one when none is given; zero is refused.
pub fn concurrency_budget(j: Option<usize>) -> (r: Result<usize, ScanError>)
    ensures
        j is None ==> r == Ok::<usize, ScanError>(1),
        j == Some(0usize) ==> r == Err::<usize, ScanError>(ScanError::ZeroBudget),
        (j matches Some(n) && n > 0) ==> r == Ok::<usize, ScanError>(j.unwrap()),
{
    match j {
        None => Ok(1),
        Some(n) => if n == 0 {
            Err(ScanError::ZeroBudget)
        } else {
            Ok(n)
        },
    }
}

} // verus!
