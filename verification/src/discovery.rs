//! Zero-configuration peer discovery over UDP broadcast.
//!
//! Every two seconds a process broadcasts the ASCII line
//! `MACWINCTRL|name|ip|kind`; the listener parses each datagram by
//! splitting on `|`, rejects anything that does not start with the magic
//! tag or has fewer than four fields, suppresses its own echo by local IP,
//! and upserts the peer registry keyed by IP.

use vstd::prelude::*;
use crate::text::{chars_to_string, str_chars};

verus! {

/// The UDP port the discovery listener binds.
pub const UDP_PORT: u16 = 52526;

/// A peer seen on the LAN, keyed by its IP address.
#[derive(Clone, Debug, PartialEq)]
pub struct DiscoveredPeer {
    pub name: String,
    pub ip: String,
    pub computer_type: String,
    /// Seconds since the epoch when its beacon was last heard.
    pub last_seen: u64,
}

/// The fields of `s` split on `|`, exactly as an iterator over `|`-separated
/// substrings yields them: always at least one field, an empty input giving
/// one empty field.
pub open spec fn spec_split(s: Seq<char>) -> Seq<Seq<char>>
    decreases s.len(),
{
    if s.len() == 0 {
        seq![Seq::empty()]
    } else {
        let rest = spec_split(s.drop_last());
        if s.last() == '|' {
            rest.push(Seq::empty())
        } else {
            rest.update(rest.len() - 1, rest.last().push(s.last()))
        }
    }
}

/// The beacon line for a host, as broadcast: the magic tag and the three
/// fields, separated by `|`.
pub open spec fn spec_beacon(name: Seq<char>, ip: Seq<char>, kind: Seq<char>) -> Seq<char> {
    "MACWINCTRL"@ + seq!['|'] + name + seq!['|'] + ip + seq!['|'] + kind
}

/// `s` contains no field separator.
pub open spec fn no_pipe(s: Seq<char>) -> bool {
    forall|i: int| 0 <= i < s.len() ==> s[i] != '|'
}

/// Builds the beacon line this host broadcasts. The fields may not
/// contain the separator.
pub fn beacon_payload(name: &str, ip: &str, kind: &str) -> (r: String)
    requires
        no_pipe(name@),
        no_pipe(ip@),
        no_pipe(kind@),
    ensures
        r@ == spec_beacon(name@, ip@, kind@),
{
    let mut out: Vec<char> = Vec::new();
    crate::codec::push_str(&mut out, "MACWINCTRL");
    crate::codec::push_str(&mut out, "|");
    crate::codec::push_str(&mut out, name);
    crate::codec::push_str(&mut out, "|");
    crate::codec::push_str(&mut out, ip);
    crate::codec::push_str(&mut out, "|");
    crate::codec::push_str(&mut out, kind);
    proof {
        reveal_strlit("|");
        assert("|"@ =~= seq!['|']);
        assert(out@ =~= spec_beacon(name@, ip@, kind@));
    }
    chars_to_string(&out)
}

/// Whether the chars of `v` spell out `s`.
pub(crate) fn chars_eq_str(v: &Vec<char>, s: &str) -> (r: bool)
    ensures
        r == (v@ == s@),
{
    let n = s.unicode_len();
    if v.len() != n {
        assert(v@.len() != s@.len());
        return false;
    }
    let mut i: usize = 0;
    while i < n
        invariant
            0 <= i <= n,
            n as nat == s@.len(),
            v@.len() == n,
            forall|j: int| 0 <= j < i ==> v@[j] == s@[j],
        decreases n - i,
    {
        if v[i] != s.get_char(i) {
            return false;
        }
        i = i + 1;
    }
    proof {
        assert(v@ =~= s@);
    }
    true
}

/// The view of each field.
pub open spec fn fields_view(fs: Seq<Vec<char>>) -> Seq<Seq<char>> {
    fs.map_values(|f: Vec<char>| f@)
}

/// Splits `s` on `|` into its fields.
fn split_fields(s: &Vec<char>) -> (fields: Vec<Vec<char>>)
    ensures
        fields_view(fields@) == spec_split(s@),
        fields@.len() >= 1,
{
    let mut fields: Vec<Vec<char>> = Vec::new();
    let mut cur: Vec<char> = Vec::new();
    let mut i: usize = 0;
    while i < s.len()
        invariant
            0 <= i <= s@.len(),
            fields_view(fields@).push(cur@) == spec_split(s@.subrange(0, i as int)),
        decreases s@.len() - i,
    {
        let ghost prev_fields = fields@;
        let ghost prev_cur = cur@;
        let c = s[i];
        if c == '|' {
            let done = cur;
            cur = Vec::new();
            fields.push(done);
            proof {
                assert(fields_view(fields@) =~= fields_view(prev_fields).push(prev_cur));
            }
        } else {
            cur.push(c);
        }
        proof {
            let sub1 = s@.subrange(0, i + 1);
            assert(sub1.drop_last() =~= s@.subrange(0, i as int));
            assert(sub1.last() == s@[i as int]);
            assert(fields_view(fields@).push(cur@) =~= spec_split(sub1));
        }
        i = i + 1;
    }
    proof {
        assert(s@.subrange(0, s@.len() as int) =~= s@);
    }
    fields.push(cur);
    proof {
        assert(fields_view(fields@) =~= spec_split(s@));
    }
    fields
}

/// `ipv` is already registered.
pub open spec fn has_ip(peers: Seq<DiscoveredPeer>, ipv: Seq<char>) -> bool {
    exists|j: int| 0 <= j < peers.len() && peers[j].ip@ == ipv
}

/// Refreshes `last_seen` of the peer registered under `ip`, or registers
/// a new peer. The registry stays keyed by IP: nothing else changes.
pub fn upsert_peer(
    peers: &mut Vec<DiscoveredPeer>,
    name: &String,
    ip: &String,
    kind: &String,
    now: u64,
)
    ensures
        has_ip(old(peers)@, ip@) ==> {
            &&& final(peers)@.len() == old(peers)@.len()
            &&& exists|j: int| {
                &&& 0 <= j < old(peers)@.len()
                &&& old(peers)@[j].ip@ == ip@
                &&& final(peers)@[j].name == old(peers)@[j].name
                &&& final(peers)@[j].ip == old(peers)@[j].ip
                &&& final(peers)@[j].computer_type == old(peers)@[j].computer_type
                &&& final(peers)@[j].last_seen == now
                &&& forall|k: int| 0 <= k < old(peers)@.len() && k != j
                    ==> final(peers)@[k] == old(peers)@[k]
            }
        },
        !has_ip(old(peers)@, ip@) ==> {
            &&& final(peers)@.len() == old(peers)@.len() + 1
            &&& final(peers)@.drop_last() == old(peers)@
            &&& final(peers)@.last().name@ == name@
            &&& final(peers)@.last().ip@ == ip@
            &&& final(peers)@.last().computer_type@ == kind@
            &&& final(peers)@.last().last_seen == now
        },
{
    let mut i: usize = 0;
    while i < peers.len()
        invariant
            0 <= i <= peers@.len(),
            peers@.len() == old(peers)@.len(),
            forall|j: int| 0 <= j < peers@.len() ==> peers@[j] == old(peers)@[j],
            forall|j: int| 0 <= j < i ==> old(peers)@[j].ip@ != ip@,
        decreases peers@.len() - i,
    {
        if crate::messages::str_eq(peers[i].ip.as_str(), ip.as_str()) {
            let ghost jj = i as int;
            let updated = DiscoveredPeer {
                name: peers[i].name.clone(),
                ip: peers[i].ip.clone(),
                computer_type: peers[i].computer_type.clone(),
                last_seen: now,
            };
            peers[i] = updated;
            assert(peers@[jj].last_seen == now);
            assert(forall|k: int| 0 <= k < old(peers)@.len() && k != jj
                ==> peers@[k] == old(peers)@[k]);
            return ;
        }
        i = i + 1;
    }
    peers.push(DiscoveredPeer {
        name: name.clone(),
        ip: ip.clone(),
        computer_type: kind.clone(),
        last_seen: now,
    });
    proof {
        assert(final(peers)@.drop_last() =~= old(peers)@);
    }
}

/// Handles one discovery datagram: parse, validate, suppress the local
/// echo, upsert the registry, and decide whether to dial the peer.
///
/// The returned address, present only when the caller has no write
/// endpoint yet, is the accepted peer's IP to dial. A datagram that does
/// not carry the magic tag, has fewer than four fields, or echoes the
/// local IP leaves the registry untouched and triggers no dial.
pub fn handle_datagram(
    peers: &mut Vec<DiscoveredPeer>,
    data: &str,
    local_ip: &str,
    has_write: bool,
    now: u64,
) -> (dial: Option<String>)
    ensures
        ({
            let fs = spec_split(data@);
            let accepted = fs.len() >= 4 && fs[0] == "MACWINCTRL"@ && fs[2] != local_ip@;
            &&& !accepted ==> final(peers)@ == old(peers)@ && dial is None
            &&& accepted ==> {
                &&& has_ip(old(peers)@, fs[2]) ==> {
                    &&& final(peers)@.len() == old(peers)@.len()
                    &&& exists|j: int| {
                        &&& 0 <= j < old(peers)@.len()
                        &&& old(peers)@[j].ip@ == fs[2]
                        &&& final(peers)@[j].name == old(peers)@[j].name
                        &&& final(peers)@[j].ip == old(peers)@[j].ip
                        &&& final(peers)@[j].computer_type == old(peers)@[j].computer_type
                        &&& final(peers)@[j].last_seen == now
                        &&& forall|k: int| 0 <= k < old(peers)@.len() && k != j
                            ==> final(peers)@[k] == old(peers)@[k]
                    }
                }
                &&& !has_ip(old(peers)@, fs[2]) ==> {
                    &&& final(peers)@.len() == old(peers)@.len() + 1
                    &&& final(peers)@.drop_last() == old(peers)@
                    &&& final(peers)@.last().name@ == fs[1]
                    &&& final(peers)@.last().ip@ == fs[2]
                    &&& final(peers)@.last().computer_type@ == fs[3]
                    &&& final(peers)@.last().last_seen == now
                }
                &&& has_ip(final(peers)@, fs[2])
                &&& (dial matches Some(d) ==> d@ == fs[2])
                &&& (dial is Some <==> !has_write)
            }
        }),
        // the local IP never enters the registry off its own echo
        spec_split(data@).len() >= 4 && spec_split(data@)[2] == local_ip@
            ==> final(peers)@ == old(peers)@,
{
    let chars = str_chars(data);
    let fields = split_fields(&chars);
    if fields.len() < 4 {
        return None;
    }
    if !chars_eq_str(&fields[0], "MACWINCTRL") {
        return None;
    }
    if chars_eq_str(&fields[2], local_ip) {
        return None;
    }
    let name = chars_to_string(&fields[1]);
    let ip = chars_to_string(&fields[2]);
    let kind = chars_to_string(&fields[3]);
    let ghost ipv = ip@;
    upsert_peer(peers, &name, &ip, &kind, now);
    proof {
        if has_ip(old(peers)@, ipv) {
            let j = choose|j: int| {
                &&& 0 <= j < old(peers)@.len()
                &&& old(peers)@[j].ip@ == ipv
                &&& final(peers)@[j].ip == old(peers)@[j].ip
                &&& final(peers)@[j].last_seen == now
                &&& final(peers)@[j].name == old(peers)@[j].name
                &&& final(peers)@[j].computer_type == old(peers)@[j].computer_type
                &&& forall|k: int| 0 <= k < old(peers)@.len() && k != j
                    ==> final(peers)@[k] == old(peers)@[k]
            };
            assert(final(peers)@[j].ip@ == ipv);
            assert(has_ip(final(peers)@, ipv));
        } else {
            assert(final(peers)@.last().ip@ == ipv);
            assert(has_ip(final(peers)@, ipv));
        }
    }
    if !has_write {
        Some(ip)
    } else {
        None
    }
}

} // verus!
