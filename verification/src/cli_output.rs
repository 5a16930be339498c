//! What the command line prints for the response to a command: the
//! version, the device list, the capture table, or, when verbose, a line
//! that says what was done. The coordinates of a move come as text, already
//! written with two decimals.

use crate::cli::{Command, OnOffState, Pcap, RadioType, UpDownStatus};
use crate::device_list::{capture_word, device_response, device_response_text, DeviceInfo};
use crate::display::{pad, pad_left, push_padded, push_padded_left};
use crate::response::{filter_pcaps, key_texts, matches_all, PcapInfo};
use crate::text::{decimal, push_decimal, push_signed, push_str, signed_decimal};
use vstd::prelude::*;
use vstd::utf8::encode_utf8;

verus! {

/// The text that `{:?}` gives of a list of patterns.
pub uninterp spec fn debug_list(patterns: Seq<Seq<char>>) -> Seq<char>;

/// `format!("{:?}", patterns)`: the list in brackets, each pattern quoted
/// with its special characters escaped, as std's `Debug` writes it. The
/// result is the name `debug_list` of the patterns.
#[verifier::external_body]
fn patterns_debug(patterns: &Vec<String>) -> (r: String)
    ensures
        r@ == debug_list(patterns.deep_view()),
{
    format!("{:?}", patterns)
}

/// The decoded response to a command.
#[derive(Debug)]
pub enum ResponseInfo {
    /// The daemon's version.
    Version(String),
    /// The devices.
    Devices(Vec<DeviceInfo>),
    /// The packet captures.
    Pcaps(Vec<PcapInfo>),
    /// A response with nothing to show.
    Empty,
}

/// The response as the command line sees it.
pub enum ResponseModel {
    Version(Seq<char>),
    Devices(Seq<DeviceInfo>),
    Pcaps(Seq<PcapInfo>),
    Empty,
}

impl View for ResponseInfo {
    type V = ResponseModel;

    open spec fn view(&self) -> ResponseModel {
        match self {
            ResponseInfo::Version(v) => ResponseModel::Version(v@),
            ResponseInfo::Devices(d) => ResponseModel::Devices(d@),
            ResponseInfo::Pcaps(p) => ResponseModel::Pcaps(p@),
            ResponseInfo::Empty => ResponseModel::Empty,
        }
    }
}

/// The bytes of a capture's device name in UTF-8, as `str::len` counts
/// them.
pub open spec fn name_bytes(p: PcapInfo) -> nat {
    (encode_utf8(p.device_name@).len() as usize) as nat
}

/// The longest device name of the captures, in bytes; zero for none.
pub open spec fn max_name_bytes(ps: Seq<PcapInfo>) -> nat
    decreases ps.len(),
{
    if ps.len() == 0 {
        0
    } else {
        let m = max_name_bytes(ps.drop_last());
        if name_bytes(ps.last()) > m {
            name_bytes(ps.last())
        } else {
            m
        }
    }
}

/// The largest size of the captures; zero for none.
pub open spec fn max_size(ps: Seq<PcapInfo>) -> u64
    decreases ps.len(),
{
    if ps.len() == 0 {
        0
    } else {
        let m = max_size(ps.drop_last());
        if ps.last().size > m {
            ps.last().size
        } else {
            m
        }
    }
}

/// The larger of two numbers.
pub open spec fn max_nat(a: nat, b: nat) -> nat {
    if a > b {
        a
    } else {
        b
    }
}

/// A row of the capture table: the cells between ` | `, each padded to its
/// column's width, the size on the right, the row closed by ` |`.
pub open spec fn table_row(
    id: Seq<char>,
    name: Seq<char>,
    kind: Seq<char>,
    state: Seq<char>,
    size: Seq<char>,
    name_w: nat,
    size_w: nat,
    size_right: bool,
) -> Seq<char> {
    pad(id, 4) + " | "@ + pad(name, name_w) + " | "@ + pad(kind, 11) + " | "@ + pad(state, 7)
        + " | "@ + (if size_right {
        pad_left(size, size_w)
    } else {
        pad(size, size_w)
    }) + " |\n"@
}

/// The rows of the captures.
pub open spec fn pcap_rows(ps: Seq<PcapInfo>, name_w: nat, size_w: nat) -> Seq<char>
    decreases ps.len(),
{
    if ps.len() == 0 {
        Seq::empty()
    } else {
        pcap_rows(ps.drop_last(), name_w, size_w) + table_row(
            signed_decimal(ps.last().id as int),
            ps.last().device_name@,
            ps.last().chip_kind.name(),
            capture_word(ps.last().state),
            decimal(ps.last().size as nat),
            name_w,
            size_w,
            true,
        )
    }
}

/// The capture table: nothing, or when verbose a line that there is none,
/// for no capture; else a heading (naming the patterns where there are
/// any), a header row and a row per capture that every pattern matches.
/// The name column is as wide as the longest name in bytes, and at least
/// its header; the size column as the largest size, and at least its header.
pub open spec fn pcap_list(ps: Seq<PcapInfo>, verbose: bool, patterns: Seq<Seq<char>>) -> Seq<char> {
    if ps.len() == 0 {
        if verbose {
            "No available Pcap found.\n"@
        } else {
            Seq::empty()
        }
    } else {
        let f = if patterns.len() == 0 {
            ps
        } else {
            ps.filter(|p: PcapInfo| matches_all(p, patterns))
        };
        let name_w = max_nat(max_name_bytes(f), 11);
        let size_w = max_nat(decimal(max_size(f) as nat).len(), 4);
        (if patterns.len() == 0 {
            "List of Pcaps:\n"@
        } else {
            "List of Pcaps matching pattern(s) `"@ + debug_list(patterns) + "`:\n"@
        }) + table_row(
            "ID"@,
            "Device Name"@,
            "Chip Kind"@,
            "State"@,
            "Size"@,
            name_w,
            size_w,
            false,
        ) + pcap_rows(f, name_w, size_w)
    }
}

/// The word for an on/off state.
pub open spec fn on_off_word(s: OnOffState) -> Seq<char> {
    match s {
        OnOffState::On => "on"@,
        OnOffState::Off => "off"@,
    }
}

/// Whether a command's response can be printed: not for the web interface
/// or a capture download, which have none to print here.
pub open spec fn has_output(cmd: Command) -> bool {
    match cmd {
        Command::Gui => false,
        Command::Pcap(Pcap::Get(_)) => false,
        _ => true,
    }
}

/// What the command line prints for the response to a command: the
/// version; the device list (see `device_response`); the capture table
/// (see `pcap_list`), with the list's patterns; and, when verbose, a line
/// for a radio change, a move, a capture change, a reset or a capture
/// patch. A response of another shape than the command expects prints
/// nothing.
pub open spec fn response_output(
    cmd: Command,
    resp: ResponseModel,
    verbose: bool,
    coordinates: Seq<char>,
) -> Seq<char> {
    match cmd {
        Command::Version => match resp {
            ResponseModel::Version(v) => "Netsim version: "@ + v + "\n"@,
            _ => Seq::empty(),
        },
        Command::Radio(c) => if verbose {
            "Radio "@ + c.radio_type.name() + " is "@ + c.status.name() + " for "@ + c.name@
                + "\n"@
        } else {
            Seq::empty()
        },
        Command::Move(c) => if verbose {
            "Moved device:"@ + c.name@ + " to "@ + coordinates + "\n"@
        } else {
            Seq::empty()
        },
        Command::Devices(_) => match resp {
            ResponseModel::Devices(d) => device_response(d, verbose),
            _ => Seq::empty(),
        },
        Command::Capture(c) => if verbose {
            "Turned "@ + on_off_word(c.state) + " packet capture for "@ + c.name@ + "\n"@
        } else {
            Seq::empty()
        },
        Command::Reset => if verbose {
            "All devices have been reset.\n"@
        } else {
            Seq::empty()
        },
        Command::Pcap(Pcap::List(c)) => match resp {
            ResponseModel::Pcaps(p) => pcap_list(p, verbose, c.patterns.deep_view()),
            _ => Seq::empty(),
        },
        Command::Pcap(Pcap::Patch(c)) => if verbose {
            "Patched Pcap state to "@ + on_off_word(c.state) + "\n"@
        } else {
            Seq::empty()
        },
        _ => Seq::empty(),
    }
}

/// The longest device name in bytes and the largest size of the captures.
fn column_maxima(ps: &Vec<PcapInfo>) -> (r: (usize, u64))
    ensures
        r.0 == max_name_bytes(ps@),
        r.1 == max_size(ps@),
{
    let mut name_max: usize = 0;
    let mut size_max: u64 = 0;
    let mut i: usize = 0;
    while i < ps.len()
        invariant
            i <= ps@.len(),
            name_max == max_name_bytes(ps@.take(i as int)),
            size_max == max_size(ps@.take(i as int)),
        decreases ps@.len() - i,
    {
        let name = ps[i].device_name.as_str();
        let n = name.len();
        assert(n == name_bytes(ps@[i as int]));
        assert(ps@.take(i + 1).drop_last() =~= ps@.take(i as int));
        if n > name_max {
            name_max = n;
        }
        if ps[i].size > size_max {
            size_max = ps[i].size;
        }
        i = i + 1;
    }
    assert(ps@.take(i as int) =~= ps@);
    (name_max, size_max)
}

/// Appends a row of the capture table.
fn push_row(s: &mut String, p: &PcapInfo, name_w: usize, size_w: usize)
    ensures
        final(s)@ == old(s)@ + table_row(
            signed_decimal(p.id as int),
            p.device_name@,
            p.chip_kind.name(),
            capture_word(p.state),
            decimal(p.size as nat),
            name_w as nat,
            size_w as nat,
            true,
        ),
{
    let ghost start = s@;
    let mut id = String::new();
    push_signed(&mut id, p.id);
    push_padded(s, id.as_str(), 4);
    push_str(s, " | ");
    push_padded(s, p.device_name.as_str(), name_w);
    push_str(s, " | ");
    let kind = p.chip_kind.to_string();
    push_padded(s, kind.as_str(), 11);
    push_str(s, " | ");
    let word = match p.state {
        crate::display::State::On => "on",
        crate::display::State::Off => "off",
        crate::display::State::Unknown => "unknown",
    };
    proof {
        reveal_strlit("on");
        reveal_strlit("off");
        reveal_strlit("unknown");
    }
    push_padded(s, word, 7);
    push_str(s, " | ");
    let mut size = String::new();
    push_decimal(&mut size, p.size, 0);
    push_padded_left(s, size.as_str(), size_w);
    push_str(s, " |\n");
    assert(s@ =~= start + table_row(
        signed_decimal(p.id as int),
        p.device_name@,
        p.chip_kind.name(),
        capture_word(p.state),
        decimal(p.size as nat),
        name_w as nat,
        size_w as nat,
        true,
    ));
}

/// The captures that every pattern matches, all where there is no pattern.
fn selected(pcaps: &Vec<PcapInfo>, patterns: &Vec<String>) -> (r: Vec<PcapInfo>)
    ensures
        r@ == (if patterns@.len() == 0 {
            pcaps@
        } else {
            pcaps@.filter(|p: PcapInfo| matches_all(p, patterns.deep_view()))
        }),
{
    let mut f: Vec<PcapInfo> = Vec::new();
    let mut i: usize = 0;
    while i < pcaps.len()
        invariant
            i <= pcaps@.len(),
            f@ == pcaps@.take(i as int),
        decreases pcaps@.len() - i,
    {
        let p = &pcaps[i];
        f.push(
            PcapInfo {
                id: p.id,
                chip_kind: p.chip_kind,
                device_name: p.device_name.clone(),
                state: p.state,
                size: p.size,
            },
        );
        i = i + 1;
        assert(f@ =~= pcaps@.take(i as int));
    }
    assert(f@ =~= pcaps@);
    if patterns.len() != 0 {
        filter_pcaps(&mut f, patterns.as_slice());
        assert(key_texts(patterns@) =~= patterns.deep_view());
    }
    f
}

/// The widths of the name and size columns (see `pcap_list`).
fn column_widths(f: &Vec<PcapInfo>) -> (r: (usize, usize))
    ensures
        r.0 == max_nat(max_name_bytes(f@), 11),
        r.1 == max_nat(decimal(max_size(f@) as nat).len(), 4),
{
    let (name_max, size_max) = column_maxima(f);
    let name_w: usize = if name_max > 11 { name_max } else { 11 };
    let mut size_text = String::new();
    push_decimal(&mut size_text, size_max, 0);
    let size_len = size_text.unicode_len();
    let size_w: usize = if size_len > 4 { size_len } else { 4 };
    (name_w, size_w)
}

/// Appends the header row of the capture table.
fn push_header(s: &mut String, name_w: usize, size_w: usize)
    ensures
        final(s)@ == old(s)@ + table_row(
            "ID"@,
            "Device Name"@,
            "Chip Kind"@,
            "State"@,
            "Size"@,
            name_w as nat,
            size_w as nat,
            false,
        ),
{
    let ghost start = s@;
    push_padded(s, "ID", 4);
    push_str(s, " | ");
    push_padded(s, "Device Name", name_w);
    push_str(s, " | ");
    push_padded(s, "Chip Kind", 11);
    push_str(s, " | ");
    push_padded(s, "State", 7);
    push_str(s, " | ");
    push_padded(s, "Size", size_w);
    push_str(s, " |\n");
    assert(s@ =~= start + table_row(
        "ID"@,
        "Device Name"@,
        "Chip Kind"@,
        "State"@,
        "Size"@,
        name_w as nat,
        size_w as nat,
        false,
    ));
}

/// Appends the rows of the captures.
fn push_rows(s: &mut String, f: &Vec<PcapInfo>, name_w: usize, size_w: usize)
    ensures
        final(s)@ == old(s)@ + pcap_rows(f@, name_w as nat, size_w as nat),
{
    let ghost rows_start = s@;
    let mut j: usize = 0;
    while j < f.len()
        invariant
            j <= f@.len(),
            s@ == rows_start + pcap_rows(f@.take(j as int), name_w as nat, size_w as nat),
        decreases f@.len() - j,
    {
        push_row(s, &f[j], name_w, size_w);
        assert(f@.take(j + 1).drop_last() =~= f@.take(j as int));
        j = j + 1;
    }
    assert(f@.take(j as int) =~= f@);
}

/// Appends the capture table (see `pcap_list`).
fn push_pcap_list(s: &mut String, pcaps: &Vec<PcapInfo>, verbose: bool, patterns: &Vec<String>)
    ensures
        final(s)@ == old(s)@ + pcap_list(pcaps@, verbose, patterns.deep_view()),
{
    let ghost start = s@;
    let ghost keys = patterns.deep_view();
    if pcaps.len() == 0 {
        if verbose {
            push_str(s, "No available Pcap found.\n");
        }
        assert(s@ =~= start + pcap_list(pcaps@, verbose, keys));
        return;
    }
    if patterns.len() == 0 {
        push_str(s, "List of Pcaps:\n");
    } else {
        push_str(s, "List of Pcaps matching pattern(s) `");
        let d = patterns_debug(patterns);
        push_str(s, d.as_str());
        push_str(s, "`:\n");
    }
    let ghost heading = s@;
    let f = selected(pcaps, patterns);
    let (name_w, size_w) = column_widths(&f);
    push_header(s, name_w, size_w);
    let ghost h = s@;
    push_rows(s, &f, name_w, size_w);
    assert(s@ =~= start + pcap_list(pcaps@, verbose, keys));
}

/// Appends a text.
fn push_text(s: &mut String, t: &String)
    ensures
        final(s)@ == old(s)@ + t@,
{
    push_str(s, t.as_str());
}

impl Command {
    /// What the command line prints for the response (see
    /// `response_output`).
    pub fn response_text(&self, resp: &ResponseInfo, verbose: bool, coordinates: &str) -> (r: String)
        requires
            has_output(*self),
        ensures
            r@ == response_output(*self, resp@, verbose, coordinates@),
    {
        let mut s = String::new();
        match self {
            Command::Version => match resp {
                ResponseInfo::Version(v) => {
                    push_str(&mut s, "Netsim version: ");
                    push_text(&mut s, v);
                    push_str(&mut s, "\n");
                },
                _ => {},
            },
            Command::Radio(c) => if verbose {
                push_str(&mut s, "Radio ");
                let t = c.radio_type.to_string();
                push_text(&mut s, &t);
                push_str(&mut s, " is ");
                let u = c.status.to_string();
                push_text(&mut s, &u);
                push_str(&mut s, " for ");
                push_text(&mut s, &c.name);
                push_str(&mut s, "\n");
            },
            Command::Move(c) => if verbose {
                push_str(&mut s, "Moved device:");
                push_text(&mut s, &c.name);
                push_str(&mut s, " to ");
                push_str(&mut s, coordinates);
                push_str(&mut s, "\n");
            },
            Command::Devices(_) => match resp {
                ResponseInfo::Devices(d) => {
                    s = device_response_text(d, verbose);
                },
                _ => {},
            },
            Command::Capture(c) => if verbose {
                push_str(&mut s, "Turned ");
                match c.state {
                    OnOffState::On => push_str(&mut s, "on"),
                    OnOffState::Off => push_str(&mut s, "off"),
                }
                push_str(&mut s, " packet capture for ");
                push_text(&mut s, &c.name);
                push_str(&mut s, "\n");
            },
            Command::Reset => if verbose {
                push_str(&mut s, "All devices have been reset.\n");
            },
            Command::Pcap(Pcap::List(c)) => match resp {
                ResponseInfo::Pcaps(p) => push_pcap_list(&mut s, p, verbose, &c.patterns),
                _ => {},
            },
            Command::Pcap(Pcap::Patch(c)) => if verbose {
                push_str(&mut s, "Patched Pcap state to ");
                match c.state {
                    OnOffState::On => push_str(&mut s, "on"),
                    OnOffState::Off => push_str(&mut s, "off"),
                }
                push_str(&mut s, "\n");
            },
            _ => {},
        }
        proof {
            reveal_strlit("on");
            reveal_strlit("off");
        }
        assert(s@ =~= response_output(*self, resp@, verbose, coordinates@));
        s
    }
}

} // verus!
