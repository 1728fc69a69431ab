//! Exploration of the local network: nearby devices, compared against a
//! baseline of the known network.
//!
//! The passive view only reads the neighbour table that Windows keeps; this
//! module classifies what was read, keys each device by its MAC, builds the
//! watched items for the baseline engine and reports unknown devices.

use crate::models::{
    millis, severity_rank, AnomalyEvent, AnomalyEventView, IncidentEvidence, IncidentEvidenceView,
    NetworkDevice, NetworkDeviceView, NetworkScan, NetworkScanView, PersistenceChange, strings_view, RiskLevel, Severity,
    Timestamp, WatchedItem, WatchedItemView, evidence_view, opt_view,
};
use crate::baseline::items_view;
use crate::order::{insert_pos, lemma_stable_sort_step, stable_insert, stable_sort};
use crate::text::{
    chars_of, concat2, concat_all, int_text, int_text_exec, join_all, nat_digits, parse_unsigned,
    parse_unsigned_vec, replace_char, replace_char_str, split_char, split_char_str, str_eq,
    string_from_chars, string_from_range, strs_view, to_upper, trim, trim_str, upper, vec_is, is_ws,
    lemma_split_char_head, lemma_split_char_whole, lemma_trim_ends, lemma_trim_fixed, upper_char,
};
use vstd::prelude::*;

verus! {

/// Separator packing `ip␟vendor␟hostname` into `WatchedItem.detail` (ASCII unit
/// separator 0x1F: it never appears in IPs, vendor names or host names).
pub const PACK_SEP: char = '\u{1f}';

// ---------------------------------------------------------------------------
// Specifications
// ---------------------------------------------------------------------------

/// A MAC in upper case with `-` separators.
pub open spec fn normalize_mac_spec(mac: Seq<char>) -> Seq<char> {
    upper(replace_char(trim(mac), ':', '-'))
}

/// Vendor of a normalised OUI prefix (`AA-BB-CC`), empty when unknown.
pub open spec fn vendor_of_prefix(p: Seq<char>) -> Seq<char> {
    if p == "00-1A-11"@ || p == "3C-5A-B4"@ || p == "F4-F5-E8"@ || p == "DA-A1-19"@ {
        "Google"@
    } else if p == "F0-9F-C2"@ || p == "B4-FB-E4"@ || p == "68-D7-9A"@ || p == "24-A4-3C"@ || p
        == "44-D9-E7"@ || p == "80-2A-A8"@ {
        "Ubiquiti"@
    } else if p == "00-05-69"@ || p == "00-0C-29"@ || p == "00-50-56"@ || p == "00-1C-14"@ {
        "VMware"@
    } else if p == "08-00-27"@ || p == "0A-00-27"@ {
        "VirtualBox"@
    } else if p == "00-15-5D"@ {
        "Microsoft Hyper-V"@
    } else if p == "00-1B-63"@ || p == "3C-07-54"@ || p == "A4-83-E7"@ || p == "F0-18-98"@ || p
        == "D0-81-7A"@ || p == "AC-BC-32"@ {
        "Apple"@
    } else if p == "FC-FB-FB"@ || p == "50-EB-F6"@ || p == "B8-27-EB"@ || p == "DC-A6-32"@ || p
        == "E4-5F-01"@ {
        "Raspberry Pi"@
    } else if p == "00-1D-D8"@ || p == "00-50-F2"@ || p == "60-45-BD"@ || p == "C8-3A-35"@ {
        "Microsoft"@
    } else if p == "50-C7-BF"@ || p == "AC-84-C6"@ || p == "10-BE-F5"@ || p == "34-60-F9"@ {
        "TP-Link"@
    } else if p == "00-18-4D"@ || p == "C0-56-27"@ || p == "20-E5-2A"@ {
        "NETGEAR"@
    } else if p == "2C-3A-E8"@ || p == "A0-20-A6"@ || p == "CC-50-E3"@ || p == "24-62-AB"@ {
        "Espressif (IoT)"@
    } else if p == "00-16-6C"@ || p == "78-BD-BC"@ || p == "8C-77-12"@ || p == "50-85-69"@ {
        "Samsung"@
    } else {
        ""@
    }
}

/// The first (at most) eight characters of a sequence.
pub open spec fn first8(s: Seq<char>) -> Seq<char> {
    if s.len() <= 8 {
        s
    } else {
        s.subrange(0, 8)
    }
}

/// Approximate vendor of a MAC from its OUI prefix.
pub open spec fn vendor_from_mac_spec(mac: Seq<char>) -> Seq<char> {
    vendor_of_prefix(first8(normalize_mac_spec(mac)))
}

/// Severity and reason of a device given its role and change state.
pub open spec fn device_class(d: NetworkDeviceView) -> (Severity, Seq<char>) {
    if d.is_self {
        (Severity::Healthy, "Este equipo (tú)."@)
    } else if d.change_status == PersistenceChange::Added {
        if d.is_gateway {
            (
                Severity::Critical,
                "La puerta de enlace cambió de identidad (MAC nueva): posible suplantación de router o punto de acceso pirata. Verifícalo."@,
            )
        } else {
            (
                Severity::Warning,
                "Dispositivo NUEVO en tu red respecto a la baseline conocida: confirma que lo reconoces; si no, aíslalo y revisa el punto de acceso."@,
            )
        }
    } else if d.change_status == PersistenceChange::Removed {
        (
            Severity::Healthy,
            "Estaba en la red conocida y ya no responde (equipo apagado o desconectado)."@,
        )
    } else if d.is_gateway {
        (Severity::Healthy, "Puerta de enlace (router) del segmento."@)
    } else {
        (Severity::Healthy, "Dispositivo conocido de la red local."@)
    }
}

/// A device with its severity and reason set from its role and change state.
pub open spec fn classified(d: NetworkDeviceView) -> NetworkDeviceView {
    NetworkDeviceView { severity: device_class(d).0, reason: device_class(d).1, ..d }
}

/// Stable key of a device: its MAC, or `ip:<ip>` when it has none.
pub open spec fn device_key_spec(d: NetworkDeviceView) -> Seq<char> {
    if d.mac.len() == 0 {
        "ip:"@ + d.ip
    } else {
        d.mac
    }
}

/// Display name: the host name when resolved, otherwise the IP.
pub open spec fn display_name_spec(d: NetworkDeviceView) -> Seq<char> {
    if d.hostname.len() == 0 || d.hostname == "Este equipo"@ {
        if d.is_self {
            "Este equipo"@
        } else {
            d.ip
        }
    } else {
        d.hostname
    }
}

/// The watched item of a device.
pub open spec fn watch_item_of(d: NetworkDeviceView) -> WatchedItemView {
    WatchedItemView {
        key: device_key_spec(d),
        value: Seq::empty(),
        label: display_name_spec(d),
        detail: d.ip + seq![PACK_SEP] + d.vendor + seq![PACK_SEP] + d.hostname,
        change_status: PersistenceChange::Unchanged,
    }
}

/// Whether a device takes part in the network baseline.
pub open spec fn watched(d: NetworkDeviceView) -> bool {
    !d.is_self && d.change_status != PersistenceChange::Removed
}

/// The watched items of a device list, in order.
pub open spec fn watch_items_spec(ds: Seq<NetworkDeviceView>) -> Seq<WatchedItemView>
    decreases ds.len(),
{
    if ds.len() == 0 {
        Seq::empty()
    } else {
        watch_items_spec(ds.drop_last()) + if watched(ds.last()) {
            seq![watch_item_of(ds.last())]
        } else {
            Seq::empty()
        }
    }
}

/// The `k`-th piece of `s` split at `sep`, or empty when there are fewer pieces.
pub open spec fn piece(s: Seq<char>, sep: char, k: int) -> Seq<char> {
    if k < split_char(s, sep).len() {
        split_char(s, sep)[k]
    } else {
        Seq::empty()
    }
}

/// The device a baseline item stands for, marked as removed.
pub open spec fn device_from_item_spec(item: WatchedItemView) -> NetworkDeviceView {
    classified(
        NetworkDeviceView {
            ip: piece(item.detail, PACK_SEP, 0),
            mac: if crate::text::starts_with(item.key, "ip:"@) {
                Seq::empty()
            } else {
                item.key
            },
            hostname: piece(item.detail, PACK_SEP, 2),
            vendor: piece(item.detail, PACK_SEP, 1),
            state: "Ausente"@,
            interface: Seq::empty(),
            is_self: false,
            is_gateway: false,
            change_status: PersistenceChange::Removed,
            severity: Severity::Healthy,
            reason: Seq::empty(),
        },
    )
}

/// One step of the sort key of an IPv4 address: shift left by a byte and put
/// the low byte of the next octet in.
pub open spec fn ip_key_step(key: int, part: Seq<char>) -> int {
    (key * 256) % 0x1_0000_0000 + (match parse_unsigned(part, u32::MAX as int) {
        Some(v) => v,
        None => 0,
    }) % 256
}

/// Sort key of the dot-separated parts of an address.
pub open spec fn ip_key_parts(parts: Seq<Seq<char>>) -> int
    decreases parts.len(),
{
    if parts.len() == 0 {
        0
    } else {
        ip_key_step(ip_key_parts(parts.drop_last()), parts.last())
    }
}

/// Sortable key of an IPv4 address.
pub open spec fn ip_sort_key_spec(ip: Seq<char>) -> int {
    ip_key_parts(split_char(ip, '.'))
}

/// Order of the device table: this machine first, then the gateway, then by
/// severity (highest first) and finally by address.
pub open spec fn device_less(a: NetworkDeviceView, b: NetworkDeviceView) -> bool {
    if a.is_self != b.is_self {
        a.is_self
    } else if a.is_gateway != b.is_gateway {
        a.is_gateway
    } else if severity_rank(a.severity) != severity_rank(b.severity) {
        severity_rank(a.severity) > severity_rank(b.severity)
    } else {
        ip_sort_key_spec(a.ip) < ip_sort_key_spec(b.ip)
    }
}

/// The anomaly reported for a device that is new to the known network.
pub open spec fn new_device_event_spec(at: Timestamp, d: NetworkDeviceView) -> Option<
    AnomalyEventView,
> {
    if d.change_status != PersistenceChange::Added || d.is_self {
        None
    } else {
        let vendor = if d.vendor.len() == 0 {
            "fabricante desconocido"@
        } else {
            d.vendor
        };
        Some(
            AnomalyEventView {
                event_id: "anom-"@ + int_text(millis(at)) + "-netdev-"@ + device_key_spec(d),
                detected_at: at,
                severity: if d.is_gateway {
                    RiskLevel::High
                } else {
                    RiskLevel::Medium
                },
                score: if d.is_gateway {
                    74
                } else {
                    55
                },
                status: "open"@,
                kind: "unknown-device"@,
                title: if d.is_gateway {
                    "Puerta de enlace suplantada (MAC nueva)"@
                } else {
                    "Dispositivo desconocido en la red local"@
                },
                process_name: None,
                pid: None,
                parent_pid: None,
                parent_name: None,
                user: None,
                exe_path: None,
                sha256: None,
                cpu_percent_bits: None,
                memory_mb_bits: None,
                io_write_mb_delta_bits: None,
                unique_public_remotes: None,
                unique_private_remotes: None,
                summary: "Apareció '"@ + display_name_spec(d) + "' ("@ + d.ip + ", "@ + d.mac
                    + ", "@ + vendor
                    + ") en tu segmento; no estaba en la baseline de red conocida."@,
                root_cause_hypothesis: if d.is_gateway {
                    "posible suplantación de la puerta de enlace (ARP spoofing / rogue AP)"@
                } else {
                    "un equipo no reconocido se unió al mismo segmento de red"@
                },
                recommended_action: if d.is_gateway {
                    "Verifica la MAC real de tu router; si no coincide, desconéctate de esa red y revisa posibles puntos de acceso piratas."@
                } else {
                    "Confirma que el equipo te pertenece. Si no lo reconoces, aíslalo del segmento y revisa quién tiene acceso al punto de red / Wi-Fi."@
                },
                evidence: seq![
                    IncidentEvidenceView { kind: "ip"@, label: "IP"@, value: d.ip },
                    IncidentEvidenceView { kind: "mac"@, label: "MAC"@, value: d.mac },
                    IncidentEvidenceView { kind: "vendor"@, label: "Fabricante"@, value: vendor },
                    IncidentEvidenceView { kind: "host"@, label: "Nombre"@, value: d.hostname },
                ],
            },
        )
    }
}

// ---------------------------------------------------------------------------
// Implementation
// ---------------------------------------------------------------------------

/// Sets the severity and human reason of a device from its role and its change
/// state with respect to the baseline.
pub fn classify_device(device: &mut NetworkDevice)
    ensures
        final(device)@ == classified(old(device)@),
{
    let (severity, reason) = if device.is_self {
        (Severity::Healthy, "Este equipo (tú).")
    } else if device.change_status == PersistenceChange::Added {
        if device.is_gateway {
            (
                Severity::Critical,
                "La puerta de enlace cambió de identidad (MAC nueva): posible suplantación de router o punto de acceso pirata. Verifícalo.",
            )
        } else {
            (
                Severity::Warning,
                "Dispositivo NUEVO en tu red respecto a la baseline conocida: confirma que lo reconoces; si no, aíslalo y revisa el punto de acceso.",
            )
        }
    } else if device.change_status == PersistenceChange::Removed {
        (
            Severity::Healthy,
            "Estaba en la red conocida y ya no responde (equipo apagado o desconectado).",
        )
    } else if device.is_gateway {
        (Severity::Healthy, "Puerta de enlace (router) del segmento.")
    } else {
        (Severity::Healthy, "Dispositivo conocido de la red local.")
    };
    device.severity = severity;
    device.reason = reason.to_owned();
}

/// Stable key of a device across time: its normalised MAC, or its IP when it
/// has no MAC.
pub fn device_key(device: &NetworkDevice) -> (r: String)
    ensures
        r@ == device_key_spec(device@),
{
    if device.mac.unicode_len() == 0 {
        concat2("ip:", device.ip.as_str())
    } else {
        device.mac.clone()
    }
}

/// Name to show: the host name when it was resolved, otherwise the IP.
pub fn display_name(device: &NetworkDevice) -> (r: String)
    ensures
        r@ == display_name_spec(device@),
{
    if device.hostname.unicode_len() == 0 || str_eq(device.hostname.as_str(), "Este equipo") {
        if device.is_self {
            "Este equipo".to_owned()
        } else {
            device.ip.clone()
        }
    } else {
        device.hostname.clone()
    }
}

fn watch_item(device: &NetworkDevice) -> (r: WatchedItem)
    ensures
        r@ == watch_item_of(device@),
{
    let sep = string_from_chars(&[PACK_SEP]);
    assert(sep@ =~= seq![PACK_SEP]);
    let detail = join_all(
        &[device.ip.as_str(), sep.as_str(), device.vendor.as_str(), sep.as_str(), device.hostname.as_str()],
    );
    proof {
        reveal_strlit("");
        assert(detail@ =~= device@.ip + seq![PACK_SEP] + device@.vendor + seq![PACK_SEP]
            + device@.hostname) by {
            reveal_with_fuel(concat_all, 6);
        }
    }
    WatchedItem {
        key: device_key(device),
        value: String::new(),
        label: display_name(device),
        detail,
        change_status: PersistenceChange::Unchanged,
    }
}

/// The views of a device list.
pub open spec fn devices_view(v: Seq<NetworkDevice>) -> Seq<NetworkDeviceView> {
    v.map_values(|d: NetworkDevice| d@)
}

/// The views of a list of watched items.

/// Builds the watched items (one per device, except this machine and devices
/// already marked removed) for the generic baseline engine. The value is
/// constant on purpose: a DHCP address change is not a change; what matters is
/// that a MAC appears or disappears.
pub fn device_watch_items(devices: &[NetworkDevice]) -> (r: Vec<WatchedItem>)
    ensures
        items_view(r@) == watch_items_spec(devices_view(devices@)),
{
    let mut out: Vec<WatchedItem> = Vec::new();
    let mut i: usize = 0;
    while i < devices.len()
        invariant
            i <= devices@.len(),
            items_view(out@) == watch_items_spec(devices_view(devices@.subrange(0, i as int))),
        decreases devices.len() - i,
    {
        let d = &devices[i];
        proof {
            let pre = devices_view(devices@.subrange(0, i + 1));
            assert(pre.drop_last() =~= devices_view(devices@.subrange(0, i as int)));
            assert(pre.last() == d@);
        }
        if !d.is_self && d.change_status != PersistenceChange::Removed {
            let ghost before = items_view(out@);
            let w = watch_item(d);
            out.push(w);
            assert(items_view(out@) =~= before + seq![watch_item_of(d@)]);
        } else {
            assert(items_view(out@) =~= items_view(out@) + Seq::<WatchedItemView>::empty());
        }
        i = i + 1;
    }
    assert(devices@.subrange(0, devices@.len() as int) =~= devices@);
    out
}

fn nth_piece(pieces: &Vec<String>, k: usize) -> (r: String)
    ensures
        r@ == (if k < pieces@.len() {
            pieces@[k as int]@
        } else {
            Seq::<char>::empty()
        }),
{
    if k < pieces.len() {
        pieces[k].clone()
    } else {
        let e = String::new();
        e
    }
}

/// Rebuilds a removed device from the baseline item kept for it (to show that a
/// known device stopped answering).
pub fn device_from_watch_item(item: &WatchedItem) -> (r: NetworkDevice)
    ensures
        r@ == device_from_item_spec(item@),
{
    let parts = split_char_str(item.detail.as_str(), PACK_SEP);
    let ip = nth_piece(&parts, 0);
    let vendor = nth_piece(&parts, 1);
    let hostname = nth_piece(&parts, 2);
    let mac = if crate::text::starts_with_str(item.key.as_str(), "ip:") {
        String::new()
    } else {
        item.key.clone()
    };
    let mut device = NetworkDevice {
        ip,
        mac,
        hostname,
        vendor,
        state: "Ausente".to_owned(),
        interface: String::new(),
        is_self: false,
        is_gateway: false,
        change_status: PersistenceChange::Removed,
        severity: Severity::Healthy,
        reason: String::new(),
    };
    classify_device(&mut device);
    device
}

/// Normalises a MAC to upper case with `-` separators (`aa:bb:cc` → `AA-BB-CC`).
pub fn normalize_mac(mac: &str) -> (r: String)
    ensures
        r@ == normalize_mac_spec(mac@),
{
    let t = trim_str(mac);
    let replaced = replace_char_str(t.as_str(), ':', '-');
    to_upper(replaced.as_str())
}

/// Approximate vendor from the OUI prefix (first three octets) of the MAC. A
/// small curated list of frequent home/office prefixes; empty when unknown.
pub fn vendor_from_mac(mac: &str) -> (r: &'static str)
    ensures
        r@ == vendor_from_mac_spec(mac@),
{
    let norm = normalize_mac(mac);
    let v = chars_of(norm.as_str());
    let n: usize = if v.len() <= 8 { v.len() } else { 8 };
    let p = crate::text::string_from_range(&v, 0, n);
    let pv = chars_of(p.as_str());
    assert(pv@ == first8(normalize_mac_spec(mac@)));
    if vec_is(&pv, "00-1A-11") || vec_is(&pv, "3C-5A-B4") || vec_is(&pv, "F4-F5-E8") || vec_is(
        &pv,
        "DA-A1-19",
    ) {
        "Google"
    } else if vec_is(&pv, "F0-9F-C2") || vec_is(&pv, "B4-FB-E4") || vec_is(&pv, "68-D7-9A")
        || vec_is(&pv, "24-A4-3C") || vec_is(&pv, "44-D9-E7") || vec_is(&pv, "80-2A-A8") {
        "Ubiquiti"
    } else if vec_is(&pv, "00-05-69") || vec_is(&pv, "00-0C-29") || vec_is(&pv, "00-50-56")
        || vec_is(&pv, "00-1C-14") {
        "VMware"
    } else if vec_is(&pv, "08-00-27") || vec_is(&pv, "0A-00-27") {
        "VirtualBox"
    } else if vec_is(&pv, "00-15-5D") {
        "Microsoft Hyper-V"
    } else if vec_is(&pv, "00-1B-63") || vec_is(&pv, "3C-07-54") || vec_is(&pv, "A4-83-E7")
        || vec_is(&pv, "F0-18-98") || vec_is(&pv, "D0-81-7A") || vec_is(&pv, "AC-BC-32") {
        "Apple"
    } else if vec_is(&pv, "FC-FB-FB") || vec_is(&pv, "50-EB-F6") || vec_is(&pv, "B8-27-EB")
        || vec_is(&pv, "DC-A6-32") || vec_is(&pv, "E4-5F-01") {
        "Raspberry Pi"
    } else if vec_is(&pv, "00-1D-D8") || vec_is(&pv, "00-50-F2") || vec_is(&pv, "60-45-BD")
        || vec_is(&pv, "C8-3A-35") {
        "Microsoft"
    } else if vec_is(&pv, "50-C7-BF") || vec_is(&pv, "AC-84-C6") || vec_is(&pv, "10-BE-F5")
        || vec_is(&pv, "34-60-F9") {
        "TP-Link"
    } else if vec_is(&pv, "00-18-4D") || vec_is(&pv, "C0-56-27") || vec_is(&pv, "20-E5-2A") {
        "NETGEAR"
    } else if vec_is(&pv, "2C-3A-E8") || vec_is(&pv, "A0-20-A6") || vec_is(&pv, "CC-50-E3")
        || vec_is(&pv, "24-62-AB") {
        "Espressif (IoT)"
    } else if vec_is(&pv, "00-16-6C") || vec_is(&pv, "78-BD-BC") || vec_is(&pv, "8C-77-12")
        || vec_is(&pv, "50-85-69") {
        "Samsung"
    } else {
        ""
    }
}

/// Sortable key of an IPv4 address (to order by address).
pub fn ip_sort_key(ip: &str) -> (r: u32)
    ensures
        r as int == ip_sort_key_spec(ip@),
{
    let parts = split_char_str(ip, '.');
    let ghost ps = split_char(ip@, '.');
    let mut key: u32 = 0;
    let mut i: usize = 0;
    while i < parts.len()
        invariant
            i <= parts@.len(),
            parts@.len() == ps.len(),
            forall|k: int| 0 <= k < parts@.len() ==> (#[trigger] parts@[k])@ == ps[k],
            key as int == ip_key_parts(ps.subrange(0, i as int)),
        decreases parts.len() - i,
    {
        let pv = chars_of(parts[i].as_str());
        let v: u32 = match parse_unsigned_vec(&pv, u32::MAX as u64) {
            Some(x) => x as u32,
            None => 0,
        };
        let next = key.wrapping_shl(8) | (v & 0xFF);
        proof {
            let pre = ps.subrange(0, i + 1);
            assert(pre.drop_last() =~= ps.subrange(0, i as int));
            assert(pre.last() == ps[i as int]);
            assert(key.wrapping_shl(8) == key << 8) by {
                assert((8u32 & 31u32) == 8u32) by (bit_vector);
            }
            assert(((key << 8) | (v & 0xFF)) == ((key as int * 256) % 0x1_0000_0000 + (v as int)
                % 256) as u32) by (bit_vector);
        }
        key = next;
        i = i + 1;
    }
    assert(ps.subrange(0, parts@.len() as int) =~= ps);
    key
}

/// The anomaly event for a device that is new or unknown on the segment. It
/// reports the fact rather than a suspicion, as autostart and service changes
/// do; only for additions.
pub fn new_device_event(detected_at: Timestamp, device: &NetworkDevice) -> (r: Option<AnomalyEvent>)
    ensures
        match r {
            Some(e) => new_device_event_spec(detected_at, device@) == Some(e@),
            None => new_device_event_spec(detected_at, device@) is None,
        },
{
    if device.change_status != PersistenceChange::Added || device.is_self {
        return None;
    }
    let name = display_name(device);
    let vendor = if device.vendor.unicode_len() == 0 {
        "fabricante desconocido".to_owned()
    } else {
        device.vendor.clone()
    };
    let key = device_key(device);
    let stamp = int_text_exec(detected_at.millis());
    let event_id = join_all(&["anom-", stamp.as_str(), "-netdev-", key.as_str()]);
    let summary = join_all(
        &[
            "Apareció '",
            name.as_str(),
            "' (",
            device.ip.as_str(),
            ", ",
            device.mac.as_str(),
            ", ",
            vendor.as_str(),
            ") en tu segmento; no estaba en la baseline de red conocida.",
        ],
    );
    proof {
        reveal_with_fuel(concat_all, 10);
        assert(event_id@ =~= "anom-"@ + int_text(millis(detected_at)) + "-netdev-"@
            + device_key_spec(device@));
        assert(summary@ =~= "Apareció '"@ + display_name_spec(device@) + "' ("@ + device@.ip
            + ", "@ + device@.mac + ", "@ + vendor@
            + ") en tu segmento; no estaba en la baseline de red conocida."@);
    }
    let evidence = vec![
        IncidentEvidence::new("ip", "IP", device.ip.clone()),
        IncidentEvidence::new("mac", "MAC", device.mac.clone()),
        IncidentEvidence::new("vendor", "Fabricante", vendor),
        IncidentEvidence::new("host", "Nombre", device.hostname.clone()),
    ];
    let gw = device.is_gateway;
    let e = AnomalyEvent {
        event_id,
        detected_at,
        severity: if gw {
            RiskLevel::High
        } else {
            RiskLevel::Medium
        },
        score: if gw {
            74
        } else {
            55
        },
        status: "open".to_owned(),
        kind: "unknown-device".to_owned(),
        title: if gw {
            "Puerta de enlace suplantada (MAC nueva)".to_owned()
        } else {
            "Dispositivo desconocido en la red local".to_owned()
        },
        process_name: None,
        pid: None,
        parent_pid: None,
        parent_name: None,
        user: None,
        exe_path: None,
        sha256: None,
        cpu_percent_bits: None,
        memory_mb_bits: None,
        io_write_mb_delta_bits: None,
        unique_public_remotes: None,
        unique_private_remotes: None,
        summary,
        root_cause_hypothesis: if gw {
            "posible suplantación de la puerta de enlace (ARP spoofing / rogue AP)".to_owned()
        } else {
            "un equipo no reconocido se unió al mismo segmento de red".to_owned()
        },
        recommended_action: if gw {
            "Verifica la MAC real de tu router; si no coincide, desconéctate de esa red y revisa posibles puntos de acceso piratas.".to_owned()
        } else {
            "Confirma que el equipo te pertenece. Si no lo reconoces, aíslalo del segmento y revisa quién tiene acceso al punto de red / Wi-Fi.".to_owned()
        },
        evidence,
    };
    proof {
        assert(evidence_view(e.evidence@) =~= new_device_event_spec(detected_at, device@)->0.evidence);
    }
    Some(e)
}

// ---------------------------------------------------------------------------
// Building a scan
// ---------------------------------------------------------------------------

/// A neighbour as the collector reports it (texts as read, untrimmed).
pub struct RawNeighbor {
    pub ip: String,
    pub mac: String,
    pub state: String,
    pub host: String,
}

/// What the collector reports: the adapter with the default gateway and the
/// neighbour table.
pub struct RawNetworkScan {
    pub adapter: String,
    pub local_ip: String,
    pub local_mac: String,
    pub prefix: String,
    pub gateway: String,
    pub devices: Vec<RawNeighbor>,
}

pub struct RawNeighborView {
    pub ip: Seq<char>,
    pub mac: Seq<char>,
    pub state: Seq<char>,
    pub host: Seq<char>,
}

pub struct RawNetworkScanView {
    pub adapter: Seq<char>,
    pub local_ip: Seq<char>,
    pub local_mac: Seq<char>,
    pub prefix: Seq<char>,
    pub gateway: Seq<char>,
    pub devices: Seq<RawNeighborView>,
}

impl View for RawNeighbor {
    type V = RawNeighborView;

    open spec fn view(&self) -> RawNeighborView {
        RawNeighborView { ip: self.ip@, mac: self.mac@, state: self.state@, host: self.host@ }
    }
}

impl View for RawNetworkScan {
    type V = RawNetworkScanView;

    open spec fn view(&self) -> RawNetworkScanView {
        RawNetworkScanView {
            adapter: self.adapter@,
            local_ip: self.local_ip@,
            local_mac: self.local_mac@,
            prefix: self.prefix@,
            gateway: self.gateway@,
            devices: self.devices@.map_values(|d: RawNeighbor| d@),
        }
    }
}

/// This machine, added to the table for context.
pub open spec fn self_device(r: RawNetworkScanView) -> NetworkDeviceView {
    let mac = normalize_mac_spec(r.local_mac);
    classified(
        NetworkDeviceView {
            ip: trim(r.local_ip),
            mac,
            hostname: Seq::empty(),
            vendor: vendor_from_mac_spec(mac),
            state: "Local"@,
            interface: trim(r.adapter),
            is_self: true,
            is_gateway: false,
            change_status: PersistenceChange::Unchanged,
            severity: Severity::Healthy,
            reason: Seq::empty(),
        },
    )
}

/// A neighbour as a device of the table.
pub open spec fn neighbor_device(r: RawNetworkScanView, n: RawNeighborView) -> NetworkDeviceView {
    let ip = trim(n.ip);
    let mac = normalize_mac_spec(n.mac);
    let gateway = trim(r.gateway);
    classified(
        NetworkDeviceView {
            ip,
            mac,
            hostname: trim(n.host),
            vendor: vendor_from_mac_spec(mac),
            state: trim(n.state),
            interface: trim(r.adapter),
            is_self: false,
            is_gateway: gateway.len() > 0 && ip == gateway,
            change_status: PersistenceChange::Unchanged,
            severity: Severity::Healthy,
            reason: Seq::empty(),
        },
    )
}

/// The neighbours that make a row: those with an address other than this machine's.
pub open spec fn neighbor_rows(r: RawNetworkScanView, ns: Seq<RawNeighborView>) -> Seq<NetworkDeviceView>
    decreases ns.len(),
{
    if ns.len() == 0 {
        Seq::empty()
    } else {
        let ip = trim(ns.last().ip);
        neighbor_rows(r, ns.drop_last()) + if ip.len() == 0 || ip == trim(r.local_ip) {
            Seq::empty()
        } else {
            seq![neighbor_device(r, ns.last())]
        }
    }
}

/// How many devices satisfy `p`.
pub open spec fn count_devices(ds: Seq<NetworkDeviceView>, p: spec_fn(NetworkDeviceView) -> bool) -> nat
    decreases ds.len(),
{
    if ds.len() == 0 {
        0
    } else {
        count_devices(ds.drop_last(), p) + if p(ds.last()) {
            1nat
        } else {
            0nat
        }
    }
}

/// The scan built from what the collector reported (`None` when nothing
/// could be read).
pub open spec fn scan_spec(raw: Option<RawNetworkScanView>, deep: bool, scanned_at: Seq<char>) -> NetworkScanView {
    match raw {
        None => NetworkScanView {
            scanned_at,
            deep,
            adapter_name: Seq::empty(),
            local_ip: Seq::empty(),
            local_mac: Seq::empty(),
            subnet_prefix: Seq::empty(),
            gateway_ip: Seq::empty(),
            devices: Seq::empty(),
            total_devices: 0,
            new_devices: 0,
            limitations: seq![
                "No se pudo leer la red local (¿sin adaptador con puerta de enlace, o Get-NetNeighbor no disponible?)."@,
            ],
        },
        Some(r) => {
            let local_ip = trim(r.local_ip);
            let rows = (if local_ip.len() > 0 {
                seq![self_device(r)]
            } else {
                Seq::empty()
            }) + neighbor_rows(r, r.devices);
            let devices = stable_sort(rows, |a: NetworkDeviceView, b: NetworkDeviceView| device_less(a, b));
            NetworkScanView {
                scanned_at,
                deep,
                adapter_name: trim(r.adapter),
                local_ip,
                local_mac: normalize_mac_spec(r.local_mac),
                subnet_prefix: trim(r.prefix),
                gateway_ip: trim(r.gateway),
                devices,
                total_devices: count_devices(devices, |d: NetworkDeviceView| !d.is_self) as usize,
                new_devices: count_devices(
                    devices,
                    |d: NetworkDeviceView| d.change_status == PersistenceChange::Added,
                ) as usize,
                limitations: if local_ip.len() == 0 {
                    seq![
                        "Sin adaptador activo con puerta de enlace por defecto (equipo sin red o solo con adaptadores virtuales)."@,
                    ]
                } else {
                    Seq::empty()
                },
            }
        },
    }
}

fn device_less_exec(a: &NetworkDevice, b: &NetworkDevice) -> (r: bool)
    ensures
        r == device_less(a@, b@),
{
    if a.is_self != b.is_self {
        return a.is_self;
    }
    if a.is_gateway != b.is_gateway {
        return a.is_gateway;
    }
    let ra = a.severity.rank();
    let rb = b.severity.rank();
    if ra != rb {
        return ra > rb;
    }
    ip_sort_key(a.ip.as_str()) < ip_sort_key(b.ip.as_str())
}

fn insert_device(out: &mut Vec<NetworkDevice>, x: NetworkDevice)
    ensures
        devices_view(final(out)@) == stable_insert(
            devices_view(old(out)@),
            x@,
            |a: NetworkDeviceView, b: NetworkDeviceView| device_less(a, b),
        ),
{
    let ghost less = |a: NetworkDeviceView, b: NetworkDeviceView| device_less(a, b);
    let ghost s = devices_view(out@);
    let mut p: usize = 0;
    while p < out.len() && !device_less_exec(&x, &out[p])
        invariant
            p <= out.len(),
            less == (|a: NetworkDeviceView, b: NetworkDeviceView| device_less(a, b)),
            s == devices_view(out@),
            s.len() == out@.len(),
            insert_pos(s, x@, less, 0) == insert_pos(s, x@, less, p as int),
        decreases out.len() - p,
    {
        assert(s[p as int] == out@[p as int]@);
        p = p + 1;
    }
    proof {
        if p < out.len() {
            assert(s[p as int] == out@[p as int]@);
        }
        assert(insert_pos(s, x@, less, p as int) == p as int);
    }
    let ghost xv = x@;
    out.insert(p, x);
    assert(devices_view(out@) =~= s.insert(p as int, xv));
}

fn sort_devices(v: Vec<NetworkDevice>) -> (r: Vec<NetworkDevice>)
    ensures
        devices_view(r@) == stable_sort(devices_view(v@), |a: NetworkDeviceView, b: NetworkDeviceView| device_less(a, b)),
{
    let ghost less = |a: NetworkDeviceView, b: NetworkDeviceView| device_less(a, b);
    let ghost unsorted = devices_view(v@);
    let ghost n = v@.len();
    let mut rows = v;
    assert(rows@.len() == rows.len());
    let mut out: Vec<NetworkDevice> = Vec::new();
    let mut k: usize = 0;
    while rows.len() > 0
        invariant
            k + rows@.len() == n,
            n <= usize::MAX,
            less == (|a: NetworkDeviceView, b: NetworkDeviceView| device_less(a, b)),
            n == unsorted.len(),
            devices_view(rows@) == unsorted.subrange(k as int, n as int),
            devices_view(out@) == stable_sort(unsorted.subrange(0, k as int), less),
        decreases rows.len(),
    {
        let ghost before = rows@;
        let x = rows.remove(0);
        proof {
            assert(devices_view(before)[0] == unsorted[k as int]);
            lemma_stable_sort_step(unsorted, k as int, less);
            assert forall|j: int| 0 <= j < rows@.len() implies #[trigger] devices_view(rows@)[j]
                == unsorted.subrange(k + 1, n as int)[j] by {
                assert(rows@[j] == before[j + 1]);
                assert(devices_view(before)[j + 1] == unsorted.subrange(k as int, n as int)[j + 1]);
            }
            assert(devices_view(rows@) =~= unsorted.subrange(k + 1, n as int));
        }
        insert_device(&mut out, x);
        k = k + 1;
    }
    assert(unsorted.subrange(0, n as int) =~= unsorted);
    out
}

pub(crate) fn count_where(ds: &Vec<NetworkDevice>, selfless: bool) -> (r: usize)
    ensures
        selfless ==> r == count_devices(devices_view(ds@), |d: NetworkDeviceView| !d.is_self),
        !selfless ==> r == count_devices(
            devices_view(ds@),
            |d: NetworkDeviceView| d.change_status == PersistenceChange::Added,
        ),
{
    let ghost p = if selfless {
        |d: NetworkDeviceView| !d.is_self
    } else {
        |d: NetworkDeviceView| d.change_status == PersistenceChange::Added
    };
    let ghost v = devices_view(ds@);
    let mut n: usize = 0;
    let mut i: usize = 0;
    while i < ds.len()
        invariant
            i <= ds@.len(),
            v == devices_view(ds@),
            v.len() == ds@.len(),
            p == (if selfless {
                |d: NetworkDeviceView| !d.is_self
            } else {
                |d: NetworkDeviceView| d.change_status == PersistenceChange::Added
            }),
            n == count_devices(v.subrange(0, i as int), p),
            n <= i,
        decreases ds.len() - i,
    {
        proof {
            let pre = v.subrange(0, i + 1);
            assert(pre.drop_last() =~= v.subrange(0, i as int));
            assert(pre.last() == ds@[i as int]@);
        }
        let hit = if selfless {
            !ds[i].is_self
        } else {
            ds[i].change_status == PersistenceChange::Added
        };
        if hit {
            n = n + 1;
        }
        i = i + 1;
    }
    assert(v.subrange(0, v.len() as int) =~= v);
    n
}

/// What the collector's JSON reports, as `serde_json::from_str::<Value>`
/// reads it: `None` when the text is not JSON; otherwise each field read with
/// `get` and `as_str` (absent, `null` or not a string gives the empty text),
/// the neighbours from the `devices` array (none when it is absent or not an
/// array). Texts are taken as they are, untrimmed.
pub uninterp spec fn json_raw_scan(raw: Seq<char>) -> Option<RawNetworkScanView>;

/// Reads the collector's JSON with `serde_json::from_str::<Value>` into the
/// raw scan. The contract claims only that the result is what the crate
/// computes from the text (see [`json_raw_scan`]).
#[verifier::external_body]
fn read_raw_scan(raw: &str) -> (r: Option<RawNetworkScan>)
    ensures
        match r {
            Some(x) => json_raw_scan(raw@) == Some(x@),
            None => json_raw_scan(raw@) is None,
        },
{
    let v = serde_json::from_str::<serde_json::Value>(raw).ok()?;
    let text = |e: &serde_json::Value, k: &str| e.get(k).and_then(serde_json::Value::as_str).unwrap_or("").to_owned();
    let list = v.get("devices").and_then(serde_json::Value::as_array).map(Vec::as_slice).unwrap_or(&[]);
    Some(RawNetworkScan {
        adapter: text(&v, "adapter"),
        local_ip: text(&v, "localIp"),
        local_mac: text(&v, "localMac"),
        prefix: text(&v, "prefix"),
        gateway: text(&v, "gateway"),
        devices: list.iter().map(|e| RawNeighbor { ip: text(e, "ip"), mac: text(e, "mac"), state: text(e, "state"), host: text(e, "host") }).collect(),
    })
}

/// Builds the scan from the collector's JSON, read once trimmed; a text that
/// is not JSON gives the empty scan with its limitation noted.
pub fn scan_from_json(raw: &str, deep: bool, scanned_at: &str) -> (r: NetworkScan)
    ensures
        r@ == scan_spec(json_raw_scan(trim(raw@)), deep, scanned_at@),
{
    let trimmed = trim_str(raw);
    let parsed = read_raw_scan(trimmed.as_str());
    scan_from_raw(parsed.as_ref(), deep, scanned_at)
}

/// Builds the scan from what the collector reported: this machine first (when
/// it has an address), then every neighbour with an address of its own, each
/// classified; sorted with this machine first, then the gateway, then by
/// severity and address. `None` gives an empty scan with a limitation noted.
pub fn scan_from_raw(raw: Option<&RawNetworkScan>, deep: bool, scanned_at: &str) -> (r: NetworkScan)
    ensures
        r@ == scan_spec(
            match raw {
                Some(x) => Some(x@),
                None => None,
            },
            deep,
            scanned_at@,
        ),
{
    match raw {
        None => {
            let mut limitations: Vec<String> = Vec::new();
            limitations.push(
                "No se pudo leer la red local (¿sin adaptador con puerta de enlace, o Get-NetNeighbor no disponible?).".to_owned(),
            );
            let r = NetworkScan {
                scanned_at: scanned_at.to_owned(),
                deep,
                adapter_name: String::new(),
                local_ip: String::new(),
                local_mac: String::new(),
                subnet_prefix: String::new(),
                gateway_ip: String::new(),
                devices: Vec::new(),
                total_devices: 0,
                new_devices: 0,
                limitations,
            };
            assert(r@.limitations =~= seq![
                "No se pudo leer la red local (¿sin adaptador con puerta de enlace, o Get-NetNeighbor no disponible?)."@,
            ]);
            assert(r@.devices =~= Seq::<NetworkDeviceView>::empty());
            r
        },
        Some(x) => {
            let ghost rv = x@;
            let adapter = trim_str(x.adapter.as_str());
            let local_ip = trim_str(x.local_ip.as_str());
            let local_mac = normalize_mac(x.local_mac.as_str());
            let gateway = trim_str(x.gateway.as_str());
            let mut rows: Vec<NetworkDevice> = Vec::new();
            if local_ip.as_str().unicode_len() > 0 {
                let mut me = NetworkDevice {
                    ip: local_ip.clone(),
                    mac: local_mac.clone(),
                    hostname: String::new(),
                    vendor: vendor_from_mac(local_mac.as_str()).to_owned(),
                    state: "Local".to_owned(),
                    interface: adapter.clone(),
                    is_self: true,
                    is_gateway: false,
                    change_status: PersistenceChange::Unchanged,
                    severity: Severity::Healthy,
                    reason: String::new(),
                };
                classify_device(&mut me);
                rows.push(me);
                assert(devices_view(rows@) =~= seq![self_device(rv)]);
            } else {
                assert(devices_view(rows@) =~= Seq::<NetworkDeviceView>::empty());
            }
            let ghost head = devices_view(rows@);
            let ghost ns = rv.devices;
            let mut i: usize = 0;
            while i < x.devices.len()
                invariant
                    i <= x.devices@.len(),
                    rv == x@,
                    ns == rv.devices,
                    ns.len() == x.devices@.len(),
                    adapter@ == trim(rv.adapter),
                    local_ip@ == trim(rv.local_ip),
                    gateway@ == trim(rv.gateway),
                    devices_view(rows@) == head + neighbor_rows(rv, ns.subrange(0, i as int)),
                decreases x.devices.len() - i,
            {
                let n = &x.devices[i];
                proof {
                    let pre = ns.subrange(0, i + 1);
                    assert(pre.drop_last() =~= ns.subrange(0, i as int));
                    assert(pre.last() == n@);
                }
                let ip = trim_str(n.ip.as_str());
                let ghost before = devices_view(rows@);
                if ip.as_str().unicode_len() == 0 || str_eq(ip.as_str(), local_ip.as_str()) {
                    assert(devices_view(rows@) =~= before + Seq::<NetworkDeviceView>::empty());
                } else {
                    let mac = normalize_mac(n.mac.as_str());
                    let is_gateway = gateway.as_str().unicode_len() > 0 && str_eq(ip.as_str(), gateway.as_str());
                    let mut device = NetworkDevice {
                        vendor: vendor_from_mac(mac.as_str()).to_owned(),
                        ip,
                        mac,
                        hostname: trim_str(n.host.as_str()),
                        state: trim_str(n.state.as_str()),
                        interface: adapter.clone(),
                        is_self: false,
                        is_gateway,
                        change_status: PersistenceChange::Unchanged,
                        severity: Severity::Healthy,
                        reason: String::new(),
                    };
                    classify_device(&mut device);
                    let ghost dv = device@;
                    assert(dv == neighbor_device(rv, n@));
                    rows.push(device);
                    assert(devices_view(rows@) =~= before + seq![dv]);
                }
                i = i + 1;
            }
            assert(ns.subrange(0, ns.len() as int) =~= ns);
            let devices = sort_devices(rows);
            let total = count_where(&devices, true);
            let fresh = count_where(&devices, false);
            let mut limitations: Vec<String> = Vec::new();
            if local_ip.as_str().unicode_len() == 0 {
                limitations.push(
                    "Sin adaptador activo con puerta de enlace por defecto (equipo sin red o solo con adaptadores virtuales).".to_owned(),
                );
            }
            assert(strings_view(limitations@) =~= if local_ip@.len() == 0 {
                seq![
                    "Sin adaptador activo con puerta de enlace por defecto (equipo sin red o solo con adaptadores virtuales)."@,
                ]
            } else {
                Seq::<Seq<char>>::empty()
            });
            NetworkScan {
                scanned_at: scanned_at.to_owned(),
                deep,
                adapter_name: adapter,
                local_ip,
                local_mac,
                subnet_prefix: trim_str(x.prefix.as_str()),
                gateway_ip: gateway,
                devices,
                total_devices: total,
                new_devices: fresh,
                limitations,
            }
        },
    }
}


// ---------------------------------------------------------------------------
// Laws
// ---------------------------------------------------------------------------

/// Normalising a MAC that is already normalised changes nothing.
pub proof fn lemma_normalize_mac_idempotent(mac: Seq<char>)
    ensures
        normalize_mac_spec(normalize_mac_spec(mac)) == normalize_mac_spec(mac),
{
    let t = trim(mac);
    let n = normalize_mac_spec(mac);
    lemma_trim_ends(mac);
    if n.len() > 0 {
        let c0 = if t[0] == ':' { '-' } else { t[0] };
        let cl = if t.last() == ':' { '-' } else { t.last() };
        assert(n[0] == upper_char(c0));
        assert(n.last() == upper_char(cl));
        assert(!is_ws(n[0]));
        assert(!is_ws(n.last()));
    }
    lemma_trim_fixed(n);
    assert(replace_char(n, ':', '-') =~= n);
    assert(upper(n) =~= n);
}

/// The device rebuilt from a device's watched item has the device's address,
/// MAC, vendor and host name and is marked removed, when none of address,
/// vendor and host name holds the separator and the MAC does not start with
/// `ip:`.
pub proof fn lemma_watch_item_roundtrip(d: NetworkDeviceView)
    requires
        !d.ip.contains(PACK_SEP),
        !d.vendor.contains(PACK_SEP),
        !d.hostname.contains(PACK_SEP),
        !crate::text::starts_with(d.mac, "ip:"@),
    ensures
        device_from_item_spec(watch_item_of(d)).ip == d.ip,
        device_from_item_spec(watch_item_of(d)).mac == d.mac,
        device_from_item_spec(watch_item_of(d)).vendor == d.vendor,
        device_from_item_spec(watch_item_of(d)).hostname == d.hostname,
        device_from_item_spec(watch_item_of(d)).change_status == PersistenceChange::Removed,
{
    let tail = d.vendor + seq![PACK_SEP] + d.hostname;
    let detail = d.ip + seq![PACK_SEP] + d.vendor + seq![PACK_SEP] + d.hostname;
    assert(detail =~= d.ip + seq![PACK_SEP] + tail);
    lemma_split_char_head(d.ip, PACK_SEP, tail);
    lemma_split_char_head(d.vendor, PACK_SEP, d.hostname);
    lemma_split_char_whole(d.hostname, PACK_SEP);
    assert(split_char(detail, PACK_SEP) =~= seq![d.ip, d.vendor, d.hostname]);
    if d.mac.len() == 0 {
        reveal_strlit("ip:");
        let key = "ip:"@ + d.ip;
        assert(key.subrange(0, 3) =~= "ip:"@);
        assert(crate::text::starts_with(key, "ip:"@));
        assert(d.mac =~= Seq::<char>::empty());
    }
}

} // verus!
