use vstd::prelude::*;
use crate::text::{bytes_eq, contains_seq, owned, str_contains, str_eq, to_upper, unicode_upper};

verus! {

/// The OS family that an observed IP TTL suggests, by the initial TTL that
/// each family uses (hop counts are not corrected for).
pub open spec fn ttl_family(ttl: u8) -> Option<Seq<char>> {
    if 113 <= ttl && ttl <= 128 {
        Some("Windows"@)
    } else if 49 <= ttl && ttl <= 64 {
        Some("Linux"@)
    } else if 240 <= ttl {
        Some("Network Equipment"@)
    } else if ttl == 239 {
        Some("Unix"@)
    } else {
        None
    }
}

/// Estimate the OS family from an IP header TTL.
pub fn os_from_ttl(ttl: u8) -> (r: Option<&'static str>)
    ensures
        r.is_some() == ttl_family(ttl).is_some(),
        r matches Some(s) ==> s@ == ttl_family(ttl).unwrap(),
{
    if 113 <= ttl && ttl <= 128 {
        Some("Windows")
    } else if 49 <= ttl && ttl <= 64 {
        Some("Linux")
    } else if 240 <= ttl {
        Some("Network Equipment")
    } else if ttl == 239 {
        Some("Unix")
    } else {
        None
    }
}


/// Confidence in an identification.
#[derive(Debug, Clone, Copy, PartialEq, Eq, Structural)]
pub enum Confidence {
    Low,
    Medium,
    High,
}

/// A device identification.
#[derive(Debug)]
pub struct Fingerprint {
    pub os_family: Option<String>,
    pub os_version: Option<String>,
    pub device_type: Option<String>,
    pub vendor: Option<String>,
    pub confidence: Confidence,
}

/// Signals collected during device discovery.
#[derive(Debug, Default)]
pub struct FingerprintSignals {
    /// MAC OUI, the first three bytes in hex (e.g. "001122").
    pub oui: Option<String>,
    /// DHCP option 55 parameter request list.
    pub dhcp_prl: Option<Vec<u8>>,
    /// HTTP User-Agent, if captured.
    pub user_agent: Option<String>,
    /// TCP initial window size.
    pub tcp_win_size: Option<u16>,
    /// TCP options fingerprint (e.g. "MSS,NOP,WS,NOP,NOP,TS,SACK").
    pub tcp_options: Option<String>,
}

/// An identification as a value.
pub struct FingerprintV {
    pub os_family: Option<Seq<char>>,
    pub os_version: Option<Seq<char>>,
    pub device_type: Option<Seq<char>>,
    pub vendor: Option<Seq<char>>,
    pub confidence: Confidence,
}

pub open spec fn opt_text(o: Option<String>) -> Option<Seq<char>> {
    match o {
        Some(s) => Some(s@),
        None => None,
    }
}

impl View for Fingerprint {
    type V = FingerprintV;

    open spec fn view(&self) -> FingerprintV {
        FingerprintV {
            os_family: opt_text(self.os_family),
            os_version: opt_text(self.os_version),
            device_type: opt_text(self.device_type),
            vendor: opt_text(self.vendor),
            confidence: self.confidence,
        }
    }
}

/// The parameter request list that Windows DHCP clients send.
pub open spec fn windows_prl() -> Seq<u8> {
    seq![1u8, 3, 6, 15, 31, 33, 43, 44, 46, 47, 119, 121, 249, 252]
}

/// The parameter request list that Linux DHCP clients send.
pub open spec fn linux_prl() -> Seq<u8> {
    seq![1u8, 28, 2, 3, 15, 6, 119, 12, 44, 47, 26, 121, 42]
}

/// Vendor guess from the OUI (upper-cased): Apple OUIs suggest iOS/macOS,
/// the Cisco OUI network equipment; both with medium confidence.
pub open spec fn after_oui(oui: Option<String>, fp: FingerprintV) -> FingerprintV {
    match oui {
        Some(o) => {
            let u = unicode_upper(o@);
            if u == "ACDE48"@ || u == "A4C361"@ {
                FingerprintV {
                    vendor: Some("Apple"@),
                    os_family: Some("iOS/macOS"@),
                    confidence: Confidence::Medium,
                    ..fp
                }
            } else if u == "001A2B"@ {
                FingerprintV {
                    vendor: Some("Cisco"@),
                    device_type: Some("Network Equipment"@),
                    confidence: Confidence::Medium,
                    ..fp
                }
            } else {
                fp
            }
        },
        None => fp,
    }
}

/// OS from the DHCP parameter request list: the exact Windows or Linux list
/// gives that OS with high confidence.
pub open spec fn after_prl(prl: Option<Vec<u8>>, fp: FingerprintV) -> FingerprintV {
    match prl {
        Some(p) => if p@ == windows_prl() {
            FingerprintV { os_family: Some("Windows"@), confidence: Confidence::High, ..fp }
        } else if p@ == linux_prl() {
            FingerprintV { os_family: Some("Linux"@), confidence: Confidence::High, ..fp }
        } else {
            fp
        },
        None => fp,
    }
}

/// OS from the User-Agent, the first marker found deciding: "Windows NT",
/// "iPhone"/"iPad" (mobile), "Android" (mobile), "Macintosh" (all high
/// confidence), "Linux" (medium).
pub open spec fn after_user_agent(ua: Option<String>, fp: FingerprintV) -> FingerprintV {
    match ua {
        Some(u) => {
            let s = u@;
            if contains_seq(s, "Windows NT"@) {
                FingerprintV { os_family: Some("Windows"@), confidence: Confidence::High, ..fp }
            } else if contains_seq(s, "iPhone"@) || contains_seq(s, "iPad"@) {
                FingerprintV {
                    os_family: Some("iOS"@),
                    device_type: Some("Mobile"@),
                    confidence: Confidence::High,
                    ..fp
                }
            } else if contains_seq(s, "Android"@) {
                FingerprintV {
                    os_family: Some("Android"@),
                    device_type: Some("Mobile"@),
                    confidence: Confidence::High,
                    ..fp
                }
            } else if contains_seq(s, "Macintosh"@) {
                FingerprintV { os_family: Some("macOS"@), confidence: Confidence::High, ..fp }
            } else if contains_seq(s, "Linux"@) {
                FingerprintV { os_family: Some("Linux"@), confidence: Confidence::Medium, ..fp }
            } else {
                fp
            }
        },
        None => fp,
    }
}

/// Nothing known yet: no OS, version, device type or vendor, low confidence.
pub open spec fn initial_fingerprint() -> FingerprintV {
    FingerprintV { os_family: None, os_version: None, device_type: None, vendor: None, confidence: Confidence::Low }
}

/// The identification of a set of signals: the OUI, then the DHCP list, then
/// the User-Agent, each later signal overriding what it sets.
pub open spec fn identify_spec(s: FingerprintSignals) -> FingerprintV {
    after_user_agent(
        s.user_agent,
        after_prl(
            s.dhcp_prl,
            after_oui(
                s.oui,
                FingerprintV {
                    os_family: None,
                    os_version: None,
                    device_type: None,
                    vendor: None,
                    confidence: Confidence::Low,
                },
            ),
        ),
    )
}

/// What a User-Agent decides, whatever the OUI and DHCP list said before:
/// "Windows NT" means Windows; otherwise "iPhone" or "iPad" means a mobile
/// iOS device; otherwise "Android" means a mobile Android device (whether or
/// not the agent also says "Linux"); otherwise "Macintosh" means macOS; all
/// with high confidence. Only an agent with none of these but "Linux" is a
/// Linux host, with medium confidence. The vendor is never set by it, and
/// an agent with none of the markers changes nothing.
pub proof fn law_user_agent_decides(s: FingerprintSignals)
    ensures
        s.user_agent matches Some(u) ==> {
            let a = u@;
            let fp = identify_spec(s);
            let win = contains_seq(a, "Windows NT"@);
            let ios = contains_seq(a, "iPhone"@) || contains_seq(a, "iPad"@);
            let android = contains_seq(a, "Android"@);
            let mac = contains_seq(a, "Macintosh"@);
            let linux = contains_seq(a, "Linux"@);
            &&& win ==> fp.os_family == Some("Windows"@) && fp.confidence == Confidence::High
            &&& (!win && ios) ==> fp.os_family == Some("iOS"@) && fp.device_type == Some("Mobile"@)
                && fp.confidence == Confidence::High
            &&& (!win && !ios && android) ==> fp.os_family == Some("Android"@) && fp.device_type == Some(
                "Mobile"@,
            ) && fp.confidence == Confidence::High
            &&& (!win && !ios && !android && mac) ==> fp.os_family == Some("macOS"@) && fp.confidence
                == Confidence::High
            &&& (!win && !ios && !android && !mac && linux) ==> fp.os_family == Some("Linux"@)
                && fp.confidence == Confidence::Medium
            &&& fp.os_family == Some("Linux"@) && fp.confidence == Confidence::Medium ==> !win && !ios && !android
                && !mac
            &&& fp.vendor == after_prl(s.dhcp_prl, after_oui(s.oui, initial_fingerprint())).vendor
            &&& (!win && !ios && !android && !mac && !linux) ==> fp == after_prl(
                s.dhcp_prl,
                after_oui(s.oui, initial_fingerprint()),
            )
        },
        s.user_agent is None ==> identify_spec(s) == after_prl(s.dhcp_prl, after_oui(s.oui, initial_fingerprint())),
{
}

/// What the DHCP list and the OUI decide when there is no User-Agent: the
/// exact Windows list means Windows and the exact Linux list Linux, both with
/// high confidence; otherwise an Apple OUI (ACDE48, A4C361, any case) means
/// an Apple iOS/macOS device and the Cisco OUI (001A2B) network equipment,
/// with medium confidence; with none of these, nothing is known (low
/// confidence).
pub proof fn law_dhcp_and_oui(s: FingerprintSignals)
    requires
        s.user_agent is None,
    ensures
        ({
            let fp = identify_spec(s);
            let win = s.dhcp_prl matches Some(p) && p@ == seq![1u8, 3, 6, 15, 31, 33, 43, 44, 46, 47, 119, 121, 249, 252];
            let lin = s.dhcp_prl matches Some(p) && p@ == seq![1u8, 28, 2, 3, 15, 6, 119, 12, 44, 47, 26, 121, 42];
            let apple = s.oui matches Some(o) && (unicode_upper(o@) == "ACDE48"@ || unicode_upper(o@) == "A4C361"@);
            let cisco = s.oui matches Some(o) && unicode_upper(o@) == "001A2B"@;
            &&& win ==> fp.os_family == Some("Windows"@) && fp.confidence == Confidence::High
            &&& lin ==> fp.os_family == Some("Linux"@) && fp.confidence == Confidence::High
            &&& apple ==> fp.vendor == Some("Apple"@)
            &&& (apple && !win && !lin) ==> fp.os_family == Some("iOS/macOS"@) && fp.confidence == Confidence::Medium
            &&& cisco ==> fp.vendor == Some("Cisco"@) && fp.device_type == Some("Network Equipment"@)
            &&& (cisco && !win && !lin) ==> fp.confidence == Confidence::Medium && fp.os_family is None
            &&& (!win && !lin && !apple && !cisco) ==> fp == initial_fingerprint()
        }),
{
    reveal_strlit("ACDE48");
    reveal_strlit("A4C361");
    reveal_strlit("001A2B");
    assert("ACDE48"@[0] != "001A2B"@[0]);
    assert("A4C361"@[0] != "001A2B"@[0]);
}

/// Identification never fails; this error is never returned.
#[derive(Debug)]
pub enum FingerprintError {
    Unidentifiable,
}

/// Identifies a device from its signals by heuristics and OUI lookups.
pub fn identify(signals: &FingerprintSignals) -> (r: Result<Fingerprint, FingerprintError>)
    ensures
        r matches Ok(fp) && fp@ == identify_spec(*signals),
{
    let mut fp = Fingerprint {
        os_family: None,
        os_version: None,
        device_type: None,
        vendor: None,
        confidence: Confidence::Low,
    };
    if let Some(oui) = &signals.oui {
        let u = to_upper(oui.as_str());
        if str_eq(u.as_str(), "ACDE48") || str_eq(u.as_str(), "A4C361") {
            fp.vendor = Some(owned("Apple"));
            fp.os_family = Some(owned("iOS/macOS"));
            fp.confidence = Confidence::Medium;
        } else if str_eq(u.as_str(), "001A2B") {
            fp.vendor = Some(owned("Cisco"));
            fp.device_type = Some(owned("Network Equipment"));
            fp.confidence = Confidence::Medium;
        }
    }
    assert(fp@ == after_oui(signals.oui, FingerprintV {
        os_family: None,
        os_version: None,
        device_type: None,
        vendor: None,
        confidence: Confidence::Low,
    }));
    let ghost fp1 = fp@;
    if let Some(prl) = &signals.dhcp_prl {
        let windows: [u8; 14] = [1, 3, 6, 15, 31, 33, 43, 44, 46, 47, 119, 121, 249, 252];
        assert(windows@ =~= windows_prl());
        let linux: [u8; 13] = [1, 28, 2, 3, 15, 6, 119, 12, 44, 47, 26, 121, 42];
        assert(linux@ =~= linux_prl());
        if bytes_eq(prl.as_slice(), windows.as_slice()) {
            fp.os_family = Some(owned("Windows"));
            fp.confidence = Confidence::High;
        }
        if bytes_eq(prl.as_slice(), linux.as_slice()) {
            fp.os_family = Some(owned("Linux"));
            fp.confidence = Confidence::High;
        }
        proof {
            if prl@ == windows_prl() {
                assert(prl@[1] != linux_prl()[1]);
            }
        }
    }
    assert(fp@ == after_prl(signals.dhcp_prl, fp1));
    let ghost fp2 = fp@;
    if let Some(ua) = &signals.user_agent {
        let u = ua.as_str();
        if str_contains(u, "Windows NT") {
            fp.os_family = Some(owned("Windows"));
            fp.confidence = Confidence::High;
        } else if str_contains(u, "iPhone") || str_contains(u, "iPad") {
            fp.os_family = Some(owned("iOS"));
            fp.device_type = Some(owned("Mobile"));
            fp.confidence = Confidence::High;
        } else if str_contains(u, "Android") {
            fp.os_family = Some(owned("Android"));
            fp.device_type = Some(owned("Mobile"));
            fp.confidence = Confidence::High;
        } else if str_contains(u, "Macintosh") {
            fp.os_family = Some(owned("macOS"));
            fp.confidence = Confidence::High;
        } else if str_contains(u, "Linux") {
            fp.os_family = Some(owned("Linux"));
            fp.confidence = Confidence::Medium;
        }
    }
    assert(fp@ == after_user_agent(signals.user_agent, fp2));
    Ok(fp)
}
} // verus!
