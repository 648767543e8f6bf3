//! Network interface discovery, SSID lookup and traffic counters.
//!
//! The calling program lists the network class directory, runs the two
//! wireless-name commands and reads the statistics files; everything done
//! with their text stands here.

use vstd::prelude::*;
use vstd::string::StrSliceExecFns;
use vstd::string::StringExecFns;

use crate::text;

verus! {

/// The machine's one wired and one wireless interface, by name.
#[derive(Debug, Clone)]
pub struct Networks {
    pub wired: Option<String>,
    pub wireless: Option<String>,
}

impl Default for Networks {
    /// No interface of either kind.
    fn default() -> (r: Self)
        ensures
            r.wired is None && r.wireless is None,
    {
        Networks { wired: None, wireless: None }
    }
}

/// Bytes a network interface has received and sent.
#[derive(Debug, Copy, Clone, PartialEq, Eq, Structural)]
pub struct NetworkIo {
    pub received: u64,
    pub sent: u64,
}

/// Classify the listed entry names front to back: an entry starting with
/// `e` becomes the wired interface, one starting with `w` the wireless
/// one, each later hit overwriting the earlier.
pub open spec fn networks_scan(
    names: Seq<Seq<char>>,
    wired: Option<Seq<char>>,
    wireless: Option<Seq<char>>,
) -> (Option<Seq<char>>, Option<Seq<char>>)
    decreases names.len(),
{
    if names.len() == 0 {
        (wired, wireless)
    } else {
        let t = text::trim_spec(names[0]);
        if t.len() > 0 && t[0] == 'e' {
            networks_scan(names.drop_first(), Some(t), wireless)
        } else if t.len() > 0 && t[0] == 'w' {
            networks_scan(names.drop_first(), wired, Some(t))
        } else {
            networks_scan(names.drop_first(), wired, wireless)
        }
    }
}

/// Pick the wired and wireless interface out of the directory listing.
pub fn get_networks(names: &Vec<String>) -> (r: Networks)
    ensures
        (r.wired.deep_view(), r.wireless.deep_view()) == networks_scan(
            names.deep_view(),
            None::<Seq<char>>,
            None::<Seq<char>>,
        ),
{
    let n = names.len();
    let mut r = Networks { wired: None, wireless: None };
    let mut i: usize = 0;
    proof {
        assert(names.deep_view().skip(0) =~= names.deep_view());
    }
    while i < n
        invariant
            n == names.len(),
            i <= n,
            networks_scan(names.deep_view().skip(i as int), r.wired.deep_view(), r.wireless.deep_view())
                == networks_scan(names.deep_view(), None::<Seq<char>>, None::<Seq<char>>),
        decreases n - i,
    {
        let ghost nv = names.deep_view();
        proof {
            assert(nv.skip(i as int)[0] == nv[i as int]);
            assert(nv.skip(i as int).drop_first() =~= nv.skip(i + 1));
        }
        let t = text::trim(names[i].as_str());
        if t.unicode_len() > 0 {
            let c = t.get_char(0);
            if c == 'e' {
                r.wired = Some(String::from_str(t));
            } else if c == 'w' {
                r.wireless = Some(String::from_str(t));
            }
        }
        i = i + 1;
    }
    r
}

/// The statistics counter file of one interface.
pub fn net_stat_path(interface: &str, stat: &str) -> (r: String)
    ensures
        r@ == "/sys/class/net/"@ + interface@ + "/statistics/"@ + stat@,
{
    let mut r = String::from_str("/sys/class/net/");
    r.append(interface);
    r.append("/statistics/");
    r.append(stat);
    r
}

/// One traffic counter file's content read as a number.
pub fn read_stat(content: &str) -> (r: Option<u64>)
    ensures
        r == text::parse_trimmed_u64_spec(content@),
{
    text::parse_trimmed_u64(content)
}

/// Combine the received- and sent-bytes counter files' contents; nothing
/// when either is not a number.
pub fn get_network_io(received: &str, sent: &str) -> (r: Option<NetworkIo>)
    ensures
        r == match (
            text::parse_trimmed_u64_spec(received@),
            text::parse_trimmed_u64_spec(sent@),
        ) {
            (Some(a), Some(b)) => Some(NetworkIo { received: a, sent: b }),
            _ => None::<NetworkIo>,
        },
{
    match (read_stat(received), read_stat(sent)) {
        (Some(a), Some(b)) => Some(NetworkIo { received: a, sent: b }),
        _ => None,
    }
}

/// The name of the wireless network, from the info command's output: the
/// rest of the line after the first `ssid ` marker, whitespace-trimmed.
pub open spec fn iw_name_spec(out: Seq<char>) -> Option<Seq<char>> {
    if text::has_first_match(out, "ssid "@) {
        let rest = out.skip(text::first_match_at(out, "ssid "@) + 5);
        if rest.len() == 0 {
            None
        } else {
            let line = if text::has_first_char(rest, '\n') {
                rest.take(text::first_char_at(rest, '\n'))
            } else {
                rest
            };
            Some(text::trim_spec(line))
        }
    } else {
        None
    }
}

fn iw_name(out: &str) -> (r: Option<String>)
    ensures
        r.deep_view() == iw_name_spec(out@),
{
    let idx = match text::find_str(out, "ssid ") {
        Some(i) => i,
        None => {
            proof {
                assert(!text::has_first_match(out@, "ssid "@));
            }
            return None;
        },
    };
    proof {
        reveal_strlit("ssid ");
        assert(text::found_first_match(out@, "ssid "@, idx as int));
        assert(text::has_first_match(out@, "ssid "@));
        assert(text::first_match_at(out@, "ssid "@) == idx as int);
    }
    let n = out.unicode_len();
    let rest = out.substring_char(idx + 5, n);
    proof {
        assert(rest@ =~= out@.skip(idx + 5));
    }
    if rest.unicode_len() == 0 {
        return None;
    }
    let line_end = match text::find_char(rest, '\n') {
        Some(j) => {
            proof {
                assert(text::found_first_char(rest@, '\n', j as int));
                assert(text::has_first_char(rest@, '\n'));
                assert(text::first_char_at(rest@, '\n') == j as int);
            }
            j
        },
        None => {
            proof {
                assert(!text::has_first_char(rest@, '\n'));
            }
            rest.unicode_len()
        },
    };
    let line = rest.substring_char(0, line_end);
    proof {
        assert(line@ =~= (if text::has_first_char(rest@, '\n') {
            rest@.take(text::first_char_at(rest@, '\n'))
        } else {
            rest@
        }));
    }
    Some(String::from_str(text::trim(line)))
}

/// What the two command outputs yield: the info command's parsed name when
/// it has one, else the fallback command's trimmed output; and no name at
/// all rather than an empty one.
pub open spec fn wifi_name_spec(iw: Option<Seq<char>>, iwgetid: Option<Seq<char>>) -> Option<
    Seq<char>,
> {
    let first = match iw {
        Some(o) => iw_name_spec(o),
        None => None,
    };
    let combined = if first is Some {
        first
    } else {
        match iwgetid {
            Some(o) => Some(text::trim_spec(o)),
            None => None,
        }
    };
    match combined {
        Some(name) => if name.len() > 0 {
            Some(name)
        } else {
            None
        },
        None => None,
    }
}

/// The wireless network's name, from the outputs of the info command and
/// the fallback command, either of which may not have run at all.
pub fn get_wifi_name(iw_output: Option<&str>, iwgetid_output: Option<&str>) -> (r: Option<String>)
    ensures
        r.deep_view() == wifi_name_spec(iw_output.deep_view(), iwgetid_output.deep_view()),
{
    let first = match iw_output {
        Some(o) => iw_name(o),
        None => None,
    };
    let combined = match first {
        Some(name) => Some(name),
        None => match iwgetid_output {
            Some(o) => Some(String::from_str(text::trim(o))),
            None => None,
        },
    };
    match combined {
        Some(name) => {
            if name.as_str().unicode_len() > 0 {
                Some(name)
            } else {
                None
            }
        },
        None => None,
    }
}

} // verus!
