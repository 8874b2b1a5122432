//! The TCP port scanner's bookkeeping: well-known service names, the
//! address that is probed, and the tally of a scan.
use vstd::prelude::*;

use crate::text::{chars_of, push_all, push_str, string_of};
use crate::num::{dec, u64_dec};

verus! {

broadcast use vstd::seq_lib::group_seq_properties;

/// The well-known service on a TCP port, or the empty text.
pub open spec fn service_name(port: u16) -> Seq<char> {
    if port == 21 {
        "FTP"@
    } else if port == 22 {
        "SSH"@
    } else if port == 23 {
        "Telnet"@
    } else if port == 25 {
        "SMTP"@
    } else if port == 53 {
        "DNS"@
    } else if port == 80 {
        "HTTP"@
    } else if port == 110 {
        "POP3"@
    } else if port == 143 {
        "IMAP"@
    } else if port == 443 {
        "HTTPS"@
    } else if port == 465 {
        "SMTPS"@
    } else if port == 587 {
        "Submission"@
    } else if port == 993 {
        "IMAPS"@
    } else if port == 995 {
        "POP3S"@
    } else if port == 3306 {
        "MySQL"@
    } else if port == 3389 {
        "RDP"@
    } else if port == 5432 {
        "PostgreSQL"@
    } else if port == 5900 {
        "VNC"@
    } else if port == 6379 {
        "Redis"@
    } else if port == 8080 {
        "HTTP Alt"@
    } else if port == 8443 {
        "HTTPS Alt"@
    } else if port == 27017 {
        "MongoDB"@
    } else {
        ""@
    }
}

/// The well-known services the scanner names, by port.
pub open spec fn well_known_services() -> Seq<(u16, Seq<char>)> {
    seq![
        (21u16, "FTP"@),
        (22u16, "SSH"@),
        (23u16, "Telnet"@),
        (25u16, "SMTP"@),
        (53u16, "DNS"@),
        (80u16, "HTTP"@),
        (110u16, "POP3"@),
        (143u16, "IMAP"@),
        (443u16, "HTTPS"@),
        (465u16, "SMTPS"@),
        (587u16, "Submission"@),
        (993u16, "IMAPS"@),
        (995u16, "POP3S"@),
        (3306u16, "MySQL"@),
        (3389u16, "RDP"@),
        (5432u16, "PostgreSQL"@),
        (5900u16, "VNC"@),
        (6379u16, "Redis"@),
        (8080u16, "HTTP Alt"@),
        (8443u16, "HTTPS Alt"@),
        (27017u16, "MongoDB"@),
    ]
}

/// Every port listed among the well-known services is named as listed, and
/// every other port gets the empty name.
pub proof fn lemma_service_table(p: u16)
    ensures
        forall|i: int|
            0 <= i < well_known_services().len() ==> service_name(
                #[trigger] well_known_services()[i].0,
            ) == well_known_services()[i].1,
        (forall|i: int|
            0 <= i < well_known_services().len() ==> #[trigger] well_known_services()[i].0 != p)
            ==> service_name(p) == ""@,
{
    let t = well_known_services();
    assert(t.len() == 21);
    assert(t[0] == (21u16, "FTP"@));
    assert(t[1] == (22u16, "SSH"@));
    assert(t[2] == (23u16, "Telnet"@));
    assert(t[3] == (25u16, "SMTP"@));
    assert(t[4] == (53u16, "DNS"@));
    assert(t[5] == (80u16, "HTTP"@));
    assert(t[6] == (110u16, "POP3"@));
    assert(t[7] == (143u16, "IMAP"@));
    assert(t[8] == (443u16, "HTTPS"@));
    assert(t[9] == (465u16, "SMTPS"@));
    assert(t[10] == (587u16, "Submission"@));
    assert(t[11] == (993u16, "IMAPS"@));
    assert(t[12] == (995u16, "POP3S"@));
    assert(t[13] == (3306u16, "MySQL"@));
    assert(t[14] == (3389u16, "RDP"@));
    assert(t[15] == (5432u16, "PostgreSQL"@));
    assert(t[16] == (5900u16, "VNC"@));
    assert(t[17] == (6379u16, "Redis"@));
    assert(t[18] == (8080u16, "HTTP Alt"@));
    assert(t[19] == (8443u16, "HTTPS Alt"@));
    assert(t[20] == (27017u16, "MongoDB"@));
    if forall|i: int| 0 <= i < t.len() ==> #[trigger] t[i].0 != p {
        assert(t[0].0 != p);
        assert(t[1].0 != p);
        assert(t[2].0 != p);
        assert(t[3].0 != p);
        assert(t[4].0 != p);
        assert(t[5].0 != p);
        assert(t[6].0 != p);
        assert(t[7].0 != p);
        assert(t[8].0 != p);
        assert(t[9].0 != p);
        assert(t[10].0 != p);
        assert(t[11].0 != p);
        assert(t[12].0 != p);
        assert(t[13].0 != p);
        assert(t[14].0 != p);
        assert(t[15].0 != p);
        assert(t[16].0 != p);
        assert(t[17].0 != p);
        assert(t[18].0 != p);
        assert(t[19].0 != p);
        assert(t[20].0 != p);
    }
}

/// A number that tells the service names apart: the length, first and last
/// characters of a name.
spec fn name_key(s: Seq<char>) -> int {
    if s.len() == 0 {
        0
    } else {
        s.len() * 1000000 + (s[0] as int) * 1000 + (s[s.len() - 1] as int)
    }
}

/// The number `name_key` gives the service name of each port.
spec fn port_key(p: u16) -> int {
    if p == 21 {
        3070080int
    } else if p == 22 {
        3083072int
    } else if p == 23 {
        6084116int
    } else if p == 25 {
        4083080int
    } else if p == 53 {
        3068083int
    } else if p == 80 {
        4072080int
    } else if p == 110 {
        4080051int
    } else if p == 143 {
        4073080int
    } else if p == 443 {
        5072083int
    } else if p == 465 {
        5083083int
    } else if p == 587 {
        10083110int
    } else if p == 993 {
        5073083int
    } else if p == 995 {
        5080083int
    } else if p == 3306 {
        5077076int
    } else if p == 3389 {
        3082080int
    } else if p == 5432 {
        10080076int
    } else if p == 5900 {
        3086067int
    } else if p == 6379 {
        5082115int
    } else if p == 8080 {
        8072116int
    } else if p == 8443 {
        9072116int
    } else if p == 27017 {
        7077066int
    } else {
        0int
    }
}

proof fn lemma_port_key(p: u16)
    ensures
        name_key(service_name(p)) == port_key(p),
{
    reveal_strlit("FTP");
    reveal_strlit("SSH");
    reveal_strlit("Telnet");
    reveal_strlit("SMTP");
    reveal_strlit("DNS");
    reveal_strlit("HTTP");
    reveal_strlit("POP3");
    reveal_strlit("IMAP");
    reveal_strlit("HTTPS");
    reveal_strlit("SMTPS");
    reveal_strlit("Submission");
    reveal_strlit("IMAPS");
    reveal_strlit("POP3S");
    reveal_strlit("MySQL");
    reveal_strlit("RDP");
    reveal_strlit("PostgreSQL");
    reveal_strlit("VNC");
    reveal_strlit("Redis");
    reveal_strlit("HTTP Alt");
    reveal_strlit("HTTPS Alt");
    reveal_strlit("MongoDB");
    reveal_strlit("");
}

/// No two ports share a service name: a name that is not empty names one
/// port only.
pub proof fn lemma_service_names_distinct(p: u16, q: u16)
    requires
        service_name(p) == service_name(q),
        service_name(p).len() > 0,
    ensures
        p == q,
{
    lemma_port_key(p);
    lemma_port_key(q);
    assert(service_name(p).len() > 0 ==> port_key(p) != 0) by {
        reveal_strlit("");
    }
}

/// A secure port's service is its plain port's service with an `S` added,
/// and an alternate port's service is its base port's with ` Alt` added:
/// 443 beside 80, 993 beside 143, 995 beside 110, 465 beside 25, and 8080
/// and 8443 beside 80 and 443.
pub proof fn lemma_service_name_variants()
    ensures
        service_name(443) == service_name(80) + "S"@,
        service_name(993) == service_name(143) + "S"@,
        service_name(995) == service_name(110) + "S"@,
        service_name(465) == service_name(25) + "S"@,
        service_name(8080) == service_name(80) + " Alt"@,
        service_name(8443) == service_name(443) + " Alt"@,
{
    reveal_strlit("FTP");
    reveal_strlit("SSH");
    reveal_strlit("Telnet");
    reveal_strlit("SMTP");
    reveal_strlit("DNS");
    reveal_strlit("HTTP");
    reveal_strlit("POP3");
    reveal_strlit("IMAP");
    reveal_strlit("HTTPS");
    reveal_strlit("SMTPS");
    reveal_strlit("Submission");
    reveal_strlit("IMAPS");
    reveal_strlit("POP3S");
    reveal_strlit("MySQL");
    reveal_strlit("RDP");
    reveal_strlit("PostgreSQL");
    reveal_strlit("VNC");
    reveal_strlit("Redis");
    reveal_strlit("HTTP Alt");
    reveal_strlit("HTTPS Alt");
    reveal_strlit("MongoDB");
    reveal_strlit("");
    reveal_strlit("S");
    reveal_strlit(" Alt");
    assert(service_name(443) =~= service_name(80) + "S"@);
    assert(service_name(993) =~= service_name(143) + "S"@);
    assert(service_name(995) =~= service_name(110) + "S"@);
    assert(service_name(465) =~= service_name(25) + "S"@);
    assert(service_name(8080) =~= service_name(80) + " Alt"@);
    assert(service_name(8443) =~= service_name(443) + " Alt"@);
}

/// The well-known service on a TCP port, or the empty string.
pub fn port_service_name(port: u16) -> (name: &'static str)
    ensures
        name@ == service_name(port),
{
    match port {
        21 => "FTP",
        22 => "SSH",
        23 => "Telnet",
        25 => "SMTP",
        53 => "DNS",
        80 => "HTTP",
        110 => "POP3",
        143 => "IMAP",
        443 => "HTTPS",
        465 => "SMTPS",
        587 => "Submission",
        993 => "IMAPS",
        995 => "POP3S",
        3306 => "MySQL",
        3389 => "RDP",
        5432 => "PostgreSQL",
        5900 => "VNC",
        6379 => "Redis",
        8080 => "HTTP Alt",
        8443 => "HTTPS Alt",
        27017 => "MongoDB",
        _ => "",
    }
}

/// The `host:port` text that is resolved and connected to.
pub fn scan_address(host: &str, port: u16) -> (r: String)
    ensures
        r@ == host@ + ":"@ + dec(port as nat),
{
    let mut v = chars_of(host);
    push_str(&mut v, ":");
    let d = u64_dec(port as u64);
    push_all(&mut v, &d);
    string_of(&v)
}

/// One probed port.
#[derive(Debug)]
pub struct PortScanEntry {
    pub port: u16,
    pub service: String,
    pub is_open: bool,
}

/// The outcome of a scan.
#[derive(Debug)]
pub struct PortScanResult {
    pub host: String,
    pub ports: Vec<PortScanEntry>,
    pub open_count: usize,
    pub closed_count: usize,
}

/// How many of the flags are set.
pub open spec fn count_open(open: Seq<bool>) -> nat
    decreases open.len(),
{
    if open.len() == 0 {
        0
    } else {
        count_open(open.drop_last()) + if open.last() {
            1nat
        } else {
            0nat
        }
    }
}

proof fn lemma_count_open_bound(open: Seq<bool>)
    ensures
        count_open(open) <= open.len(),
    decreases open.len(),
{
    if open.len() > 0 {
        lemma_count_open_bound(open.drop_last());
    }
}

/// The scan report: for every probed port, in order, its service name and
/// whether it accepted a connection (`open[i]` for `ports[i]`), with the
/// numbers of open and closed ports.
pub fn port_scan_result(host: String, ports: &Vec<u16>, open: &Vec<bool>) -> (r: PortScanResult)
    requires
        ports.len() == open.len(),
    ensures
        r.host == host,
        r.ports.len() == ports.len(),
        forall|i: int|
            0 <= i < ports.len() ==> {
                &&& (#[trigger] r.ports@[i]).port == ports@[i]
                &&& r.ports@[i].service@ == service_name(ports@[i])
                &&& r.ports@[i].is_open == open@[i]
            },
        r.open_count == count_open(open@),
        r.closed_count == ports.len() - count_open(open@),
        r.open_count + r.closed_count == ports.len(),
{
    let mut entries: Vec<PortScanEntry> = Vec::new();
    let mut open_count: usize = 0;
    let mut k: usize = 0;
    while k < ports.len()
        invariant
            k <= ports.len() == open.len(),
            entries.len() == k,
            forall|i: int|
                0 <= i < k ==> {
                    &&& (#[trigger] entries@[i]).port == ports@[i]
                    &&& entries@[i].service@ == service_name(ports@[i])
                    &&& entries@[i].is_open == open@[i]
                },
            open_count == count_open(open@.take(k as int)),
        decreases ports.len() - k,
    {
        proof {
            lemma_count_open_bound(open@.take(k as int));
            assert(open@.take(k + 1).drop_last() =~= open@.take(k as int));
        }
        let name = port_service_name(ports[k]);
        entries.push(
            PortScanEntry { port: ports[k], service: String::from_str(name), is_open: open[k] },
        );
        if open[k] {
            open_count = open_count + 1;
        }
        k += 1;
    }
    assert(open@.take(open.len() as int) =~= open@);
    proof {
        lemma_count_open_bound(open@);
    }
    PortScanResult { host, ports: entries, open_count, closed_count: ports.len() - open_count }
}

} // verus!
