//! Detection of a connection to the LPU WiFi network.
//!
//! Which network the machine is on is learnt from system tools (nmcli,
//! iwconfig, iw and `/proc/net/wireless` on Linux, netsh on Windows, the
//! airport utility and networksetup on macOS). Running them is left to the
//! caller; this module reads their output and decides, probe by probe, in
//! the order the tools are tried, whether the machine is connected to an LPU
//! network: one whose SSID starts with "LPU" or "Block". A tool that cannot
//! be run, or whose output names no connection, hands the check on to the
//! next one. The last Linux resort, `/proc/net/wireless`, names no SSID: it
//! tells only whether some wireless link is up, and its answer decides.

use vstd::prelude::*;
use vstd::string::*;
use crate::text;

verus! {

broadcast use vstd::string::group_string_axioms;

/// The operating system the check runs on.
#[derive(Clone, Copy, Debug, PartialEq, Eq)]
pub enum Platform {
    Windows,
    MacOs,
    Linux,
}

/// One way of asking the system which network it is connected to.
#[derive(Clone, Copy, Debug, PartialEq, Eq)]
pub enum WifiProbe {
    /// `netsh wlan show interfaces` (Windows)
    Netsh,
    /// `airport -I` (macOS)
    Airport,
    /// `networksetup -listallhardwareports` and `-getairportnetwork` (macOS)
    NetworkSetup,
    /// `nmcli -t -f active,ssid dev wifi` (Linux)
    Nmcli,
    /// `iwconfig` (Linux)
    Iwconfig,
    /// `iw dev` and `iw dev <interface> link` (Linux)
    Iw,
    /// a wireless link of quality above zero in `/proc/net/wireless`
    /// (Linux), the last resort
    ProcWireless,
}

/// What the check needs next: a verdict, or the outcome of one more probe.
#[derive(Clone, Copy, Debug, PartialEq, Eq)]
pub enum WifiCheck {
    Decided(bool),
    Run(WifiProbe),
}

/// The probes of a platform, in the order in which they are tried.
pub open spec fn probe_order(platform: Platform) -> Seq<WifiProbe> {
    match platform {
        Platform::Windows => seq![WifiProbe::Netsh],
        Platform::MacOs => seq![WifiProbe::Airport, WifiProbe::NetworkSetup],
        Platform::Linux => seq![
            WifiProbe::Nmcli,
            WifiProbe::Iwconfig,
            WifiProbe::Iw,
            WifiProbe::ProcWireless,
        ],
    }
}

/// The first verdict among probe outcomes (`None`: the probe could not tell).
pub open spec fn first_verdict(results: Seq<Option<bool>>) -> Option<bool>
    decreases results.len(),
{
    if results.len() == 0 {
        None
    } else if results[0] is Some {
        results[0]
    } else {
        first_verdict(results.drop_first())
    }
}

/// The next step of the check, given the outcomes of the probes tried so
/// far (in `probe_order`): the first outcome that tells decides; while none
/// does, the next probe is run; when none is left, the machine is not on
/// LPU WiFi.
pub open spec fn next_check(platform: Platform, results: Seq<Option<bool>>) -> WifiCheck {
    match first_verdict(results) {
        Some(b) => WifiCheck::Decided(b),
        None => if results.len() < probe_order(platform).len() {
            WifiCheck::Run(probe_order(platform)[results.len() as int])
        } else {
            WifiCheck::Decided(false)
        },
    }
}

fn probe_at(platform: Platform, i: usize) -> (p: WifiProbe)
    requires
        i < probe_order(platform).len(),
    ensures
        p == probe_order(platform)[i as int],
{
    match platform {
        Platform::Windows => WifiProbe::Netsh,
        Platform::MacOs => if i == 0 {
            WifiProbe::Airport
        } else {
            WifiProbe::NetworkSetup
        },
        Platform::Linux => if i == 0 {
            WifiProbe::Nmcli
        } else if i == 1 {
            WifiProbe::Iwconfig
        } else if i == 2 {
            WifiProbe::Iw
        } else {
            WifiProbe::ProcWireless
        },
    }
}

fn probe_count(platform: Platform) -> (n: usize)
    ensures
        n == probe_order(platform).len(),
{
    match platform {
        Platform::Windows => 1,
        Platform::MacOs => 2,
        Platform::Linux => 4,
    }
}

/// Decides whether the machine is connected to LPU WiFi, or names the probe
/// to run next; `results` holds the outcomes of the probes of `platform`
/// run so far, in `probe_order`.
pub fn check_lpu_wifi(platform: Platform, results: &Vec<Option<bool>>) -> (r: WifiCheck)
    ensures
        r == next_check(platform, results@),
{
    let mut i: usize = 0;
    assert(results@.skip(0) =~= results@);
    while i < results.len()
        invariant
            i <= results.len(),
            forall|k: int| 0 <= k < i ==> results@[k] is None,
            first_verdict(results@) == first_verdict(results@.skip(i as int)),
        decreases results.len() - i,
    {
        let ghost rest = results@.skip(i as int);
        assert(rest.drop_first() =~= results@.skip(i + 1));
        match results[i] {
            Some(b) => {
                return WifiCheck::Decided(b);
            },
            None => {},
        }
        i = i + 1;
    }
    assert(results@.skip(i as int).len() == 0);
    let n = probe_count(platform);
    if results.len() < n {
        WifiCheck::Run(probe_at(platform, results.len()))
    } else {
        WifiCheck::Decided(false)
    }
}

/// The check on Linux: nmcli, then iwconfig, then iw, then, as a last
/// resort, the link quality in `/proc/net/wireless`.
pub fn check_lpu_wifi_linux(results: &Vec<Option<bool>>) -> (r: WifiCheck)
    ensures
        r == next_check(Platform::Linux, results@),
{
    check_lpu_wifi(Platform::Linux, results)
}

/// The check on macOS: the airport utility, then networksetup.
pub fn check_lpu_wifi_macos(results: &Vec<Option<bool>>) -> (r: WifiCheck)
    ensures
        r == next_check(Platform::MacOs, results@),
{
    check_lpu_wifi(Platform::MacOs, results)
}

/// Whether the network name `s` is an LPU one: it starts with "LPU" or
/// "Block".
pub open spec fn starts_lpu(s: Seq<char>) -> bool {
    text::starts_with(s, "LPU"@) || text::starts_with(s, "Block"@)
}

/// The value of the field `key` on the line `l`, for a line of the form
/// `key : value`: what follows the first colon, trimmed, when what precedes
/// it, trimmed, is `key`.
pub open spec fn field_value(l: Seq<char>, key: Seq<char>) -> Option<Seq<char>> {
    match text::find(l, ":"@) {
        Some(i) => if text::trim(l.take(i)) == key {
            Some(text::trim(l.skip(i + 1)))
        } else {
            None
        },
        None => None,
    }
}

/// Whether the line `l` is the field `key` with an LPU network name as its
/// value.
pub open spec fn lpu_field(l: Seq<char>, key: Seq<char>) -> bool {
    field_value(l, key) matches Some(v) && starts_lpu(v)
}

/// A line of `nmcli -t -f active,ssid dev wifi` for an active LPU network.
pub open spec fn nmcli_line(l: Seq<char>) -> bool {
    text::starts_with(l, "yes:"@) && starts_lpu(l.skip(4))
}

/// A line of `iwconfig` whose ESSID (what follows the first `ESSID:"`) is an
/// LPU network name.
pub open spec fn iwconfig_line(l: Seq<char>) -> bool {
    text::find(l, "ESSID:\""@) matches Some(i) && starts_lpu(l.skip(i + 7))
}

/// A line of `iw dev <interface> link` or of `netsh wlan show interfaces`
/// whose `SSID` field is an LPU network name.
pub open spec fn ssid_line(l: Seq<char>) -> bool {
    lpu_field(l, "SSID"@)
}

/// A line of `networksetup -getairportnetwork <device>` naming an LPU
/// network as the current one.
pub open spec fn networksetup_line(l: Seq<char>) -> bool {
    lpu_field(l, "Current Wi-Fi Network"@) || lpu_field(l, "Current AirPort Network"@)
}

/// Whether some line of `s` satisfies `test`.
pub open spec fn some_line(s: Seq<char>, test: spec_fn(Seq<char>) -> bool) -> bool {
    exists|k: int| 0 <= k < text::lines(s).len() && test(#[trigger] text::lines(s)[k])
}

/// Which line test a scan applies.
#[derive(Clone, Copy)]
enum LineTest {
    Nmcli,
    Iwconfig,
    Ssid,
    NetworkSetup,
}

spec fn line_test(t: LineTest) -> spec_fn(Seq<char>) -> bool {
    match t {
        LineTest::Nmcli => |l: Seq<char>| nmcli_line(l),
        LineTest::Iwconfig => |l: Seq<char>| iwconfig_line(l),
        LineTest::Ssid => |l: Seq<char>| ssid_line(l),
        LineTest::NetworkSetup => |l: Seq<char>| networksetup_line(l),
    }
}

fn starts_lpu_exec(l: &str) -> (b: bool)
    ensures
        b == starts_lpu(l@),
{
    text::str_starts_with(l, "LPU") || text::str_starts_with(l, "Block")
}

fn field_value_of(l: &str, key: &str) -> (r: Option<String>)
    ensures
        text::opt_view(r) == field_value(l@, key@),
{
    let cs = text::chars_of(l);
    let colon = text::chars_of(":");
    match text::find_chars(&cs, &colon) {
        None => None,
        Some(i) => {
            proof {
                text::lemma_find_from(l@, ":"@, 0);
                assert(text::occurs_at(l@, ":"@, i as int));
                assert(i + colon@.len() <= cs@.len());
                reveal_strlit(":");
                assert(l@.subrange(0, i as int) =~= l@.take(i as int));
                assert(l@.subrange(i + 1, cs@.len() as int) =~= l@.skip(i + 1));
                assert(i + 1 <= cs.len());
                assert(cs.len() <= usize::MAX);
            }
            let k = text::trim_str(l.substring_char(0, i));
            if text::str_eq(k.as_str(), key) {
                Some(text::trim_str(l.substring_char(i + 1, cs.len())))
            } else {
                None
            }
        },
    }
}

fn lpu_field_exec(l: &str, key: &str) -> (b: bool)
    ensures
        b == lpu_field(l@, key@),
{
    match field_value_of(l, key) {
        Some(v) => starts_lpu_exec(v.as_str()),
        None => false,
    }
}

fn passes(t: LineTest, l: &str) -> (b: bool)
    ensures
        b == (line_test(t))(l@),
{
    match t {
        LineTest::Nmcli => {
            if text::str_starts_with(l, "yes:") {
                proof {
                    reveal_strlit("yes:");
                }
                let n = text::chars_of(l).len();
                starts_lpu_exec(l.substring_char(4, n))
            } else {
                false
            }
        },
        LineTest::Iwconfig => {
            let cs = text::chars_of(l);
            let p = text::chars_of("ESSID:\"");
            match text::find_chars(&cs, &p) {
                None => false,
                Some(i) => {
                    proof {
                        text::lemma_find_from(l@, "ESSID:\""@, 0);
                        assert(text::occurs_at(l@, "ESSID:\""@, i as int));
                        reveal_strlit("ESSID:\"");
                        assert(i + 7 <= cs@.len());
                        assert(l@.subrange(i + 7, cs@.len() as int) =~= l@.skip(i + 7));
                        assert(i + 7 <= cs.len());
                        assert(cs.len() <= usize::MAX);
                    }
                    starts_lpu_exec(l.substring_char(i + 7, cs.len()))
                },
            }
        },
        LineTest::Ssid => lpu_field_exec(l, "SSID"),
        LineTest::NetworkSetup => lpu_field_exec(l, "Current Wi-Fi Network") || lpu_field_exec(
            l,
            "Current AirPort Network",
        ),
    }
}

fn scan_lines(s: &str, t: LineTest) -> (b: bool)
    ensures
        b == some_line(s@, line_test(t)),
{
    let ls = text::split_lines(s);
    let mut i: usize = 0;
    while i < ls.len()
        invariant
            i <= ls.len(),
            ls.len() == text::lines(s@).len(),
            forall|k: int| 0 <= k < ls.len() ==> #[trigger] ls[k]@ == text::lines(s@)[k],
            forall|k: int| 0 <= k < i ==> !(line_test(t))(#[trigger] text::lines(s@)[k]),
        decreases ls.len() - i,
    {
        if passes(t, ls[i].as_str()) {
            assert((line_test(t))(text::lines(s@)[i as int]));
            return true;
        }
        i = i + 1;
    }
    false
}

/// What nmcli tells: `None` where it could not be run (`output` is its
/// standard output, `None` where it failed or was not UTF-8), else whether
/// an active connection is to an SSID starting with "LPU" or "Block".
pub fn check_wifi_nmcli(output: Option<String>) -> (r: Option<bool>)
    ensures
        output is None ==> r is None,
        output matches Some(o) ==> r == Some(some_line(o@, |l: Seq<char>| nmcli_line(l))),
        output matches Some(o) ==> r == Some(
            exists|k: int|
                0 <= k < text::lines(o@).len() && text::starts_with(
                    #[trigger] text::lines(o@)[k],
                    "yes:"@,
                ) && (text::starts_with(text::lines(o@)[k].skip(4), "LPU"@) || text::starts_with(
                    text::lines(o@)[k].skip(4),
                    "Block"@,
                )),
        ),
{
    match output {
        None => None,
        Some(o) => {
            let b = scan_lines(o.as_str(), LineTest::Nmcli);
            assert(line_test(LineTest::Nmcli) =~= (|l: Seq<char>| nmcli_line(l)));
            Some(b)
        },
    }
}

/// What iwconfig tells: `None` where it could not be run, else whether a
/// line's ESSID starts with "LPU" or "Block".
pub fn check_wifi_iwconfig(output: Option<String>) -> (r: Option<bool>)
    ensures
        output is None ==> r is None,
        output matches Some(o) ==> r == Some(some_line(o@, |l: Seq<char>| iwconfig_line(l))),
        output matches Some(o) ==> r == Some(
            exists|k: int|
                0 <= k < text::lines(o@).len() && (text::find(
                    #[trigger] text::lines(o@)[k],
                    "ESSID:\""@,
                ) matches Some(i) && (text::starts_with(text::lines(o@)[k].skip(i + 7), "LPU"@)
                    || text::starts_with(text::lines(o@)[k].skip(i + 7), "Block"@))),
        ),
{
    match output {
        None => None,
        Some(o) => {
            let b = scan_lines(o.as_str(), LineTest::Iwconfig);
            assert(line_test(LineTest::Iwconfig) =~= (|l: Seq<char>| iwconfig_line(l)));
            Some(b)
        },
    }
}

/// The first line of `ls` from index `i` on that contains `p`.
pub open spec fn first_line_with(ls: Seq<Seq<char>>, p: Seq<char>, i: int) -> Option<Seq<char>>
    decreases ls.len() - i,
{
    if i < 0 || i >= ls.len() {
        None
    } else if text::contains(ls[i], p) {
        Some(ls[i])
    } else {
        first_line_with(ls, p, i + 1)
    }
}

/// The wireless interface that `iw dev` lists first: the second word of the
/// first line that contains "Interface".
pub open spec fn iw_interface_of(s: Seq<char>) -> Option<Seq<char>> {
    match first_line_with(text::lines(s), "Interface"@, 0) {
        None => None,
        Some(l) => text::second_word(l),
    }
}

#[verifier::loop_isolation(false)]
/// The interface whose link `iw` is asked about next: `None` where `iw dev`
/// could not be run (`dev_output`) or lists no interface.
pub fn iw_interface(dev_output: Option<String>) -> (r: Option<String>)
    ensures
        dev_output is None ==> r is None,
        dev_output matches Some(o) ==> (r matches Some(i) ==> iw_interface_of(o@) == Some(i@)),
        dev_output matches Some(o) ==> (r is None ==> iw_interface_of(o@) is None),
{
    match dev_output {
        None => None,
        Some(o) => {
            let ls = text::split_lines(o.as_str());
            let mut i: usize = 0;
            while i < ls.len()
                invariant
                    i <= ls.len(),
                    ls.len() == text::lines(o@).len(),
                    forall|k: int| 0 <= k < ls.len() ==> #[trigger] ls[k]@ == text::lines(o@)[k],
                    first_line_with(text::lines(o@), "Interface"@, 0) == first_line_with(
                        text::lines(o@),
                        "Interface"@,
                        i as int,
                    ),
                decreases ls.len() - i,
            {
                if text::str_contains(ls[i].as_str(), "Interface") {
                    return text::second_word_of(ls[i].as_str());
                }
                i = i + 1;
            }
            None
        },
    }
}

/// What `iw dev <interface> link` tells: `None` where it could not be run,
/// else whether its `SSID` field names an LPU network.
pub fn check_wifi_iw_link(link_output: Option<String>) -> (r: Option<bool>)
    ensures
        link_output is None ==> r is None,
        link_output matches Some(o) ==> r == Some(
            some_line(o@, |l: Seq<char>| ssid_line(l)),
        ),
{
    match link_output {
        None => None,
        Some(o) => {
            let b = scan_lines(o.as_str(), LineTest::Ssid);
            assert(line_test(LineTest::Ssid) =~= (|l: Seq<char>| ssid_line(l)));
            Some(b)
        },
    }
}

/// The check on Windows: whether the `SSID` field of
/// `netsh wlan show interfaces` names an LPU network; `false` where netsh
/// could not be run.
pub fn check_lpu_wifi_windows(output: Option<String>) -> (r: bool)
    ensures
        output is None ==> !r,
        output matches Some(o) ==> r == some_line(o@, |l: Seq<char>| ssid_line(l)),
{
    match output {
        None => false,
        Some(o) => {
            let b = scan_lines(o.as_str(), LineTest::Ssid);
            assert(line_test(LineTest::Ssid) =~= (|l: Seq<char>| ssid_line(l)));
            b
        },
    }
}

/// The verdict of `airport -I` from its `i`-th line on: the first line that
/// contains " SSID: " decides, by whether what follows "SSID: " (trimmed)
/// starts with "LPU" or "Block".
pub open spec fn airport_from(ls: Seq<Seq<char>>, i: int) -> Option<bool>
    decreases ls.len() - i,
{
    if i < 0 || i >= ls.len() {
        None
    } else if text::contains(ls[i], " SSID: "@) {
        let ssid = match text::split_second(ls[i], "SSID: "@) {
            Some(x) => text::trim(x),
            None => Seq::<char>::empty(),
        };
        Some(starts_lpu(ssid))
    } else {
        airport_from(ls, i + 1)
    }
}

#[verifier::loop_isolation(false)]
/// What the airport utility tells: `None` where it could not be run or
/// printed no SSID line.
pub fn check_wifi_airport(output: Option<String>) -> (r: Option<bool>)
    ensures
        output is None ==> r is None,
        output matches Some(o) ==> r == airport_from(text::lines(o@), 0),
{
    match output {
        None => None,
        Some(o) => {
            let ls = text::split_lines(o.as_str());
            let mut i: usize = 0;
            while i < ls.len()
                invariant
                    i <= ls.len(),
                    ls.len() == text::lines(o@).len(),
                    forall|k: int| 0 <= k < ls.len() ==> #[trigger] ls[k]@ == text::lines(o@)[k],
                    airport_from(text::lines(o@), 0) == airport_from(text::lines(o@), i as int),
                decreases ls.len() - i,
            {
                if text::str_contains(ls[i].as_str(), " SSID: ") {
                    proof {
                        reveal_strlit("SSID: ");
                    }
                    let ssid = match text::split_second_of(ls[i].as_str(), "SSID: ") {
                        Some(x) => text::trim_str(x.as_str()),
                        None => String::new(),
                    };
                    proof {
                        assert(text::trim(Seq::<char>::empty()) =~= Seq::<char>::empty());
                    }
                    return Some(starts_lpu_exec(ssid.as_str()));
                }
                i = i + 1;
            }
            None
        },
    }
}

/// The Wi-Fi device in `networksetup -listallhardwareports` from line `i`
/// on: the line after the first line that mentions "Wi-Fi" or "AirPort"
/// and is followed by a "Device: " line, without that prefix.
pub open spec fn wifi_device_from(ls: Seq<Seq<char>>, i: int) -> Option<Seq<char>>
    decreases ls.len() - i,
{
    if i < 0 || i >= ls.len() {
        None
    } else if (text::contains(ls[i], "Wi-Fi"@) || text::contains(ls[i], "AirPort"@)) && i + 1
        < ls.len() && text::starts_with(ls[i + 1], "Device: "@) {
        Some(ls[i + 1].skip(8))
    } else {
        wifi_device_from(ls, i + 1)
    }
}

#[verifier::loop_isolation(false)]
/// The Wi-Fi device that networksetup is asked about next: `None` where
/// the hardware port listing (`ports_output`) could not be had or names none.
pub fn networksetup_wifi_device(ports_output: Option<String>) -> (r: Option<String>)
    ensures
        ports_output is None ==> r is None,
        ports_output matches Some(o) ==> (r matches Some(d) ==> wifi_device_from(
            text::lines(o@),
            0,
        ) == Some(d@)),
        ports_output matches Some(o) ==> (r is None ==> wifi_device_from(text::lines(o@), 0) is None),
{
    match ports_output {
        None => None,
        Some(o) => {
            let ls = text::split_lines(o.as_str());
            let mut i: usize = 0;
            while i < ls.len()
                invariant
                    i <= ls.len(),
                    ls.len() == text::lines(o@).len(),
                    forall|k: int| 0 <= k < ls.len() ==> #[trigger] ls[k]@ == text::lines(o@)[k],
                    wifi_device_from(text::lines(o@), 0) == wifi_device_from(
                        text::lines(o@),
                        i as int,
                    ),
                decreases ls.len() - i,
            {
                let l = ls[i].as_str();
                if (text::str_contains(l, "Wi-Fi") || text::str_contains(l, "AirPort")) && i + 1
                    < ls.len() && text::str_starts_with(ls[i + 1].as_str(), "Device: ") {
                    proof {
                        reveal_strlit("Device: ");
                    }
                    let next = ls[i + 1].as_str();
                    let n = text::chars_of(next).len();
                    return Some(String::from_str(next.substring_char(8, n)));
                }
                i = i + 1;
            }
            None
        },
    }
}

/// What `networksetup -getairportnetwork <device>` tells: whether its output
/// (`ssid_output`) names an LPU network as the current one; `false` where it
/// could not be run.
pub fn check_wifi_networksetup(ssid_output: Option<String>) -> (r: bool)
    ensures
        ssid_output is None ==> !r,
        ssid_output matches Some(o) ==> r == some_line(o@, |l: Seq<char>| networksetup_line(l)),
{
    match ssid_output {
        None => false,
        Some(o) => {
            let b = scan_lines(o.as_str(), LineTest::NetworkSetup);
            assert(line_test(LineTest::NetworkSetup) =~= (|l: Seq<char>| networksetup_line(l)));
            b
        },
    }
}

proof fn lemma_first_verdict_append(results: Seq<Option<bool>>, later: Seq<Option<bool>>)
    requires
        first_verdict(results) is Some,
    ensures
        first_verdict(results + later) == first_verdict(results),
    decreases results.len(),
{
    if results[0] is None {
        assert((results + later).drop_first() =~= results.drop_first() + later);
        lemma_first_verdict_append(results.drop_first(), later);
    }
}

/// Once a probe has told whether the network is an LPU one, that verdict
/// stands: whatever later probes would report, the check decides by it.
pub proof fn law_verdict_stands(platform: Platform, results: Seq<Option<bool>>, later: Seq<Option<bool>>)
    requires
        first_verdict(results) is Some,
    ensures
        next_check(platform, results + later) == WifiCheck::Decided(first_verdict(results)->0),
{
    lemma_first_verdict_append(results, later);
}

/// Once every probe of the platform has been run, the check has decided.
pub proof fn law_check_ends(platform: Platform, results: Seq<Option<bool>>)
    requires
        results.len() >= probe_order(platform).len(),
    ensures
        next_check(platform, results) is Decided,
{
}

/// A probe that cannot tell hands the check on to the next probe of the
/// platform, if there is one.
pub proof fn law_failed_probe_moves_on(platform: Platform, results: Seq<Option<bool>>)
    requires
        first_verdict(results) is None,
        results.len() + 1 < probe_order(platform).len(),
    ensures
        next_check(platform, results.push(None)) == WifiCheck::Run(
            probe_order(platform)[results.len() + 1 as int],
        ),
{
    lemma_first_verdict_push_none(results);
}

proof fn lemma_first_verdict_push_none(results: Seq<Option<bool>>)
    requires
        first_verdict(results) is None,
    ensures
        first_verdict(results.push(None)) is None,
    decreases results.len(),
{
    if results.len() > 0 {
        assert(results[0] is None);
        assert(results.push(None).drop_first() =~= results.drop_first().push(None));
        lemma_first_verdict_push_none(results.drop_first());
        assert(results.push(None)[0] is None);
    } else {
        let r = results.push(None);
        assert(r.len() == 1 && r[0] is None);
        assert(r.drop_first() =~= Seq::<Option<bool>>::empty());
        assert(first_verdict(r.drop_first()) is None);
    }
}

proof fn lemma_first_verdict_true(results: Seq<Option<bool>>)
    ensures
        first_verdict(results) == Some(true) ==> exists|k: int|
            0 <= k < results.len() && #[trigger] results[k] == Some(true),
    decreases results.len(),
{
    if results.len() > 0 && results[0] is None {
        lemma_first_verdict_true(results.drop_first());
        if first_verdict(results) == Some(true) {
            let k = choose|k: int|
                0 <= k < results.drop_first().len() && #[trigger] results.drop_first()[k] == Some(
                    true,
                );
            assert(results[k + 1] == Some(true));
        }
    } else if results.len() > 0 {
        if first_verdict(results) == Some(true) {
            assert(results[0] == Some(true));
        }
    }
}

/// The check finds the machine on LPU WiFi only when one of the probes run
/// reported it so: an unusable or silent tool, or running out of tools,
/// never yields `true`.
pub proof fn law_connected_only_when_reported(platform: Platform, results: Seq<Option<bool>>)
    ensures
        next_check(platform, results) == WifiCheck::Decided(true) ==> exists|k: int|
            0 <= k < results.len() && #[trigger] results[k] == Some(true),
{
    lemma_first_verdict_true(results);
}

/// What the first `iw` command leads to.
pub enum IwStep {
    /// `iw dev` could not be run or lists no interface: iw cannot tell.
    NoVerdict,
    /// Ask `iw dev <interface> link` about this interface.
    AskLink(String),
}

/// The step after `iw dev` (`dev_output`, `None` where it could not be run):
/// ask about the link of the first interface listed, or give no verdict.
pub fn iw_step(dev_output: Option<String>) -> (s: IwStep)
    ensures
        dev_output is None ==> s is NoVerdict,
        dev_output matches Some(o) ==> match iw_interface_of(o@) {
            None => s is NoVerdict,
            Some(i) => s matches IwStep::AskLink(x) && x@ == i,
        },
{
    match iw_interface(dev_output) {
        Some(i) => IwStep::AskLink(i),
        None => IwStep::NoVerdict,
    }
}

/// What the hardware-port listing of networksetup leads to.
pub enum NetworkSetupStep {
    /// No Wi-Fi device is listed (or the listing could not be had): not on
    /// LPU WiFi, and no further command is run.
    NotConnected,
    /// Ask `networksetup -getairportnetwork <device>` about this device.
    AskNetwork(String),
}

/// The step after `networksetup -listallhardwareports` (`ports_output`,
/// `None` where it could not be had): ask about the Wi-Fi device, or decide
/// "not connected" at once when there is none.
pub fn networksetup_step(ports_output: Option<String>) -> (s: NetworkSetupStep)
    ensures
        ports_output is None ==> s is NotConnected,
        ports_output matches Some(o) ==> match wifi_device_from(text::lines(o@), 0) {
            None => s is NotConnected,
            Some(d) => s matches NetworkSetupStep::AskNetwork(x) && x@ == d,
        },
{
    match networksetup_wifi_device(ports_output) {
        Some(d) => NetworkSetupStep::AskNetwork(d),
        None => NetworkSetupStep::NotConnected,
    }
}

/// The platform the program was built for: Windows, else macOS, else
/// Linux (and every other system).
pub open spec fn platform_of(windows: bool, macos: bool) -> Platform {
    if windows {
        Platform::Windows
    } else if macos {
        Platform::MacOs
    } else {
        Platform::Linux
    }
}

/// The platform whose check runs, given whether the program was built for
/// Windows and whether for macOS.
pub fn current_platform(windows: bool, macos: bool) -> (p: Platform)
    ensures
        p == platform_of(windows, macos),
{
    if windows {
        Platform::Windows
    } else if macos {
        Platform::MacOs
    } else {
        Platform::Linux
    }
}

/// The check runs the probes of exactly one platform, the one the program
/// was built for: netsh on Windows, the macOS check on macOS, the Linux
/// check elsewhere; every probe it asks for is one of that platform's.
pub proof fn law_one_platform_check(windows: bool, macos: bool, results: Seq<Option<bool>>)
    ensures
        next_check(platform_of(windows, macos), results) == if windows {
            next_check(Platform::Windows, results)
        } else if macos {
            next_check(Platform::MacOs, results)
        } else {
            next_check(Platform::Linux, results)
        },
        next_check(platform_of(windows, macos), results) matches WifiCheck::Run(p)
            ==> probe_order(platform_of(windows, macos)).contains(p),
{
    let pl = platform_of(windows, macos);
    if let WifiCheck::Run(p) = next_check(pl, results) {
        assert(probe_order(pl)[results.len() as int] == p);
    }
}

/// A network name is an LPU one exactly when it starts with "LPU" or with
/// "Block": every name that begins so counts, whatever follows.
pub proof fn law_lpu_network_names(name: Seq<char>, rest: Seq<char>)
    ensures
        starts_lpu(name) <==> text::starts_with(name, "LPU"@) || text::starts_with(
            name,
            "Block"@,
        ),
        starts_lpu("LPU"@ + rest),
        starts_lpu("Block"@ + rest),
{
    assert(("LPU"@ + rest).subrange(0, "LPU"@.len() as int) =~= "LPU"@);
    assert(("Block"@ + rest).subrange(0, "Block"@.len() as int) =~= "Block"@);
}

/// What each probe's line test asks of a line: nmcli, an active ("yes:")
/// line whose SSID starts with "LPU" or "Block"; iwconfig, a line whose
/// ESSID (what follows the first `ESSID:"`) starts with "LPU" or "Block";
/// iw and netsh, an `SSID` field whose value starts with "LPU" or "Block";
/// networksetup, a current-network field whose value does.
pub proof fn law_probe_line_tests(l: Seq<char>)
    ensures
        nmcli_line(l) <==> text::starts_with(l, "yes:"@) && (text::starts_with(l.skip(4), "LPU"@)
            || text::starts_with(l.skip(4), "Block"@)),
        iwconfig_line(l) <==> (text::find(l, "ESSID:\""@) matches Some(i) && (text::starts_with(
            l.skip(i + 7),
            "LPU"@,
        ) || text::starts_with(l.skip(i + 7), "Block"@))),
        ssid_line(l) <==> (field_value(l, "SSID"@) matches Some(v) && (text::starts_with(
            v,
            "LPU"@,
        ) || text::starts_with(v, "Block"@))),
        networksetup_line(l) <==> (field_value(l, "Current Wi-Fi Network"@) matches Some(v) && (
        text::starts_with(v, "LPU"@) || text::starts_with(v, "Block"@))) || (field_value(
            l,
            "Current AirPort Network"@,
        ) matches Some(v) && (text::starts_with(v, "LPU"@) || text::starts_with(v, "Block"@))),
{
}

/// The airport utility's verdict is given by the first line that contains
/// " SSID: ": whether what follows "SSID: " on it, trimmed, starts with
/// "LPU" or "Block"; lines before it do not count.
pub proof fn law_airport_first_ssid_line(ls: Seq<Seq<char>>, i: int)
    requires
        0 <= i < ls.len(),
        text::contains(ls[i], " SSID: "@),
        forall|k: int| 0 <= k < i ==> !text::contains(#[trigger] ls[k], " SSID: "@),
    ensures
        airport_from(ls, 0) == Some(
            {
                let ssid = match text::split_second(ls[i], "SSID: "@) {
                    Some(x) => text::trim(x),
                    None => Seq::<char>::empty(),
                };
                text::starts_with(ssid, "LPU"@) || text::starts_with(ssid, "Block"@)
            },
        ),
{
    lemma_airport_from_skips(ls, 0, i);
}

proof fn lemma_airport_from_skips(ls: Seq<Seq<char>>, j: int, i: int)
    requires
        0 <= j <= i < ls.len(),
        forall|k: int| 0 <= k < i ==> !text::contains(#[trigger] ls[k], " SSID: "@),
    ensures
        airport_from(ls, j) == airport_from(ls, i),
    decreases i - j,
{
    if j < i {
        assert(!text::contains(ls[j], " SSID: "@));
        lemma_airport_from_skips(ls, j + 1, i);
    }
}

/// An iwconfig line counts as LPU WiFi exactly when the network name after
/// its `ESSID:"` starts with "LPU" or "Block", whatever precedes the field
/// (provided nothing before it reads `ESSID:"`) and whatever follows the
/// name: a "Block" network counts just as an "LPU" one does.
pub proof fn law_iwconfig_essid_line(pre: Seq<char>, name: Seq<char>)
    requires
        !text::contains(pre, "ESSID:\""@),
    ensures
        iwconfig_line(pre + "ESSID:\""@ + name) <==> text::starts_with(name, "LPU"@)
            || text::starts_with(name, "Block"@),
{
    let lit = "ESSID:\""@;
    let l = pre + lit + name;
    reveal_strlit("ESSID:\"");
    text::lemma_contains_within(pre, lit, name);
    text::lemma_find_from(l, lit, 0);
    match text::find(l, lit) {
        None => {
            assert(text::occurs_at(l, lit, pre.len() as int));
        },
        Some(k) => {
            if k < pre.len() {
                assert(text::occurs_at(l, lit, k));
                if k + 7 <= pre.len() {
                    assert(pre.subrange(k, k + 7) =~= l.subrange(k, k + 7));
                    assert(text::occurs_at(pre, lit, k));
                } else {
                    let m = pre.len() - k;
                    assert(l.subrange(k, k + 7)[m] == l[pre.len() as int]);
                    assert(l[pre.len() as int] == 'E');
                    assert(1 <= m <= 6);
                    assert(lit[m] != 'E');
                }
            }
            if k > pre.len() {
                assert(text::occurs_at(l, lit, pre.len() as int));
            }
            assert(k == pre.len());
            assert(l.skip(k + 7) =~= name);
        },
    }
}

/// The value of a `key : value` line is what follows its first colon,
/// trimmed, for any padding around the key.
pub proof fn law_field_value_of_line(head: Seq<char>, key: Seq<char>, value: Seq<char>)
    requires
        !text::contains(head, ":"@),
        text::trim(head) == key,
    ensures
        field_value(head + ":"@ + value, key) == Some(text::trim(value)),
{
    let lit = ":"@;
    let l = head + lit + value;
    reveal_strlit(":");
    text::lemma_contains_within(head, lit, value);
    text::lemma_find_from(l, lit, 0);
    match text::find(l, lit) {
        None => {
            assert(text::occurs_at(l, lit, head.len() as int));
        },
        Some(k) => {
            if k < head.len() {
                assert(text::occurs_at(l, lit, k));
                assert(head.subrange(k, k + 1) =~= l.subrange(k, k + 1));
                assert(text::occurs_at(head, lit, k));
            }
            if k > head.len() {
                assert(text::occurs_at(l, lit, head.len() as int));
            }
            assert(k == head.len());
            assert(l.take(k) =~= head);
            assert(l.skip(k + 1) =~= value);
        },
    }
}

/// A netsh or iw line `SSID : <name>` counts as LPU WiFi exactly when the
/// name, trimmed, starts with "LPU" or "Block", whatever padding surrounds
/// the key.
pub proof fn law_ssid_line(head: Seq<char>, name: Seq<char>)
    requires
        !text::contains(head, ":"@),
        text::trim(head) == "SSID"@,
    ensures
        ssid_line(head + ":"@ + name) <==> text::starts_with(text::trim(name), "LPU"@)
            || text::starts_with(text::trim(name), "Block"@),
{
    law_field_value_of_line(head, "SSID"@, name);
}

} // verus!
