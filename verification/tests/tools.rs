use drover::cert::{
    cert_check_commands, cert_check_result, cert_decode_commands, cert_decode_result,
    check_decode_output, hash_result, openssl_hash_command, parse_cert_fields,
    parse_openssl_date_days, parse_s_client_output,
};
use drover::curl::{curl_args, curl_result};
use drover::dns::{dig_args, dig_query_type, dig_result, dig_trace_result, parse_dig_output, parse_dig_trace};
use drover::ping::{parse_ping_output, parse_traceroute_line, parse_traceroute_output};
use drover::ports::{port_scan_result, port_service_name, scan_address};
use drover::whois::parse_whois_output;

const DETAILS: &str = "subject=CN = example.com\n\
issuer=C = US, O = DigiCert Inc, CN = DigiCert CA1\n\
notBefore=Jan 13 00:00:00 2025 GMT\n\
notAfter=Jul 15 21:42:44 2026 GMT\n\
serial=0123ABCD\n\
SHA1 Fingerprint=AA:BB:CC\n\
X509v3 Subject Alternative Name: \n    DNS:example.com, DNS:www.example.com, IP Address:93.184.216.34\n";

const CHAIN: &str = "CONNECTED(00000003)\n---\nCertificate chain\n 0 s:CN = example.com\n   i:C = US, O = DigiCert Inc, CN = DigiCert CA1\n   a:PKEY: rsaEncryption, 2048 (bit); sigalg: RSA-SHA256\n   v:NotBefore: Jan 13 00:00:00 2025 GMT; NotAfter: Jul 15 21:42:44 2026 GMT\n 1 s:C = US, O = DigiCert Inc, CN = DigiCert CA1\n   i:C = US, O = DigiCert Inc, CN = DigiCert Global Root G2\n---\nServer certificate\nNew, TLSv1.3, Cipher is TLS_AES_256_GCM_SHA384\nServer public key is 2048 bit\nSSL-Session:\n    Protocol  : TLSv1.3\n    Cipher    : TLS_AES_256_GCM_SHA384\n";

#[test]
fn certificate_fields() {
    let f = parse_cert_fields(DETAILS);
    assert_eq!(f.subject, "CN = example.com");
    assert_eq!(f.issuer, "C = US, O = DigiCert Inc, CN = DigiCert CA1");
    assert_eq!(f.not_after, "Jul 15 21:42:44 2026 GMT");
    assert_eq!(f.serial, "0123ABCD");
    assert_eq!(f.fingerprint, "SHA1 Fingerprint=AA:BB:CC");
    assert_eq!(f.san, vec!["example.com", "www.example.com", "93.184.216.34"]);
}

#[test]
fn certificate_chain() {
    let i = parse_s_client_output(CHAIN);
    assert_eq!(i.chain.len(), 2);
    assert_eq!(i.chain[0].depth, 0);
    assert_eq!(i.chain[0].subject, "CN = example.com");
    assert_eq!(i.chain[0].key_type, "rsaEncryption, 2048 (bit)");
    assert_eq!(i.chain[0].sig_alg, "RSA-SHA256");
    assert_eq!(i.chain[0].not_before, "Jan 13 00:00:00 2025 GMT");
    assert_eq!(i.chain[0].not_after, "Jul 15 21:42:44 2026 GMT");
    assert_eq!(i.chain[1].depth, 1);
    assert_eq!(i.chain[1].issuer, "C = US, O = DigiCert Inc, CN = DigiCert Global Root G2");
    assert_eq!(i.chain[1].key_type, "");
    assert_eq!(i.protocol, "TLSv1.3");
    assert_eq!(i.cipher, "TLS_AES_256_GCM_SHA384");
    assert_eq!(i.key_type, "2048 bit");
}

#[test]
fn days_until_expiry() {
    assert_eq!(parse_openssl_date_days("Jul 15 21:42:44 2026 GMT", 1_750_000_000), Some(395));
    assert_eq!(parse_openssl_date_days("Jun  5 08:00:00 2025 GMT", 1_750_000_000), Some(-10));
    assert_eq!(parse_openssl_date_days("Jan  1 00:00:00 1970 GMT", 0), Some(0));
    assert_eq!(parse_openssl_date_days("Jan  1 00:00:00 2025 GMT", 1_735_689_600), Some(0));
    assert_eq!(parse_openssl_date_days("Foo 15 21:42:44 2026 GMT", 1_750_000_000), Some(0));
    assert_eq!(parse_openssl_date_days("Jul 15 2026", 1_750_000_000), Some(0));
    assert_eq!(parse_openssl_date_days("Jul 0 21:42:44 2026 GMT", 1_750_000_000), Some(0));
    assert_eq!(parse_openssl_date_days("", 0), Some(0));
}

#[test]
fn certificate_check() {
    let (p, details_cmd, chain_cmd) = cert_check_commands("example.com", None);
    assert_eq!(p, 443);
    assert_eq!(
        details_cmd,
        "echo | openssl s_client -connect example.com:443 -servername example.com 2>/dev/null | openssl x509 -noout -subject -issuer -dates -serial -fingerprint -ext subjectAltName 2>&1"
    );
    assert_eq!(chain_cmd, "echo | openssl s_client -connect example.com:443 -servername example.com 2>&1");
    assert_eq!(cert_check_commands("h", Some(8443)).0, 8443);
    let r = cert_check_result("example.com".into(), 443, DETAILS, CHAIN, "depth=0\n", 1_750_000_000).unwrap();
    assert_eq!(r.days_remaining, 395);
    assert!(!r.is_expired);
    assert_eq!(r.chain.len(), 2);
    assert_eq!(r.raw_output, format!("depth=0\n{}", CHAIN));
    let later = cert_check_result("example.com".into(), 443, DETAILS, CHAIN, "", 1_900_000_000).unwrap();
    assert!(later.is_expired);
    assert!(later.days_remaining < 0);
}

#[test]
fn certificate_decode() {
    let (text_cmd, fields_cmd) = cert_decode_commands("-----BEGIN-'x'-----");
    assert_eq!(text_cmd, "echo '-----BEGIN-'\\''x'\\''-----' | openssl x509 -noout -text 2>&1");
    assert!(fields_cmd.ends_with("-fingerprint -ext subjectAltName 2>&1"));
    assert!(check_decode_output(true, "", "").is_ok());
    assert_eq!(
        check_decode_output(false, "unable to load\n", "raw").unwrap_err(),
        "Failed to decode certificate: unable to load\nraw"
    );
    let raw = "Certificate:\n    Data:\n        Version: 3 (0x2)\n        Signature Algorithm: sha256WithRSAEncryption\n            Public Key Algorithm: rsaEncryption\n    Signature Algorithm: sha384\n".to_string();
    let d = cert_decode_result(raw.clone(), DETAILS);
    assert_eq!(d.version, "3 (0x2)");
    assert_eq!(d.sig_alg, "sha256WithRSAEncryption");
    assert_eq!(d.key_type, "rsaEncryption");
    assert_eq!(d.subject, "CN = example.com");
    assert_eq!(d.raw_text, raw);
}

#[test]
fn hashing() {
    assert_eq!(
        openssl_hash_command("it's", "sha256").unwrap(),
        "echo -n 'it'\\''s' | openssl dgst -sha256 | awk '{print $2}'"
    );
    assert_eq!(openssl_hash_command("x", "base64-encode").unwrap(), "echo -n 'x' | openssl base64");
    assert_eq!(openssl_hash_command("x", "crc32").unwrap_err(), "Unknown algorithm: crc32");
    let h = hash_result("héllo", "md5".into(), true, " abc123 \n", "").unwrap();
    assert_eq!(h.input_size, 6);
    assert_eq!(h.output, "abc123");
    assert_eq!(hash_result("x", "md5".into(), false, "", "bad").unwrap_err(), "Hash failed: bad");
}

#[test]
fn curl_arguments() {
    let (m, args) = curl_args(None, None, None, None, None, "https://e.com");
    assert_eq!(m, "GET");
    assert_eq!(args.len(), 8);
    assert_eq!(&args[..4], &["-s", "-i", "-X", "GET"]);
    assert_eq!(args[4], "-w");
    assert!(args[5].starts_with("\n__CURL_META__\nstatus_code:%{http_code}"));
    assert_eq!(args[6], "-L");
    assert_eq!(args[7], "https://e.com");
    let (m, args) = curl_args(
        Some("POST".into()),
        Some(vec!["Accept: */*".into(), "  ".into()]),
        Some("{\"a\":1}".into()),
        Some(false),
        Some(vec!["-v --compressed".into(), " ".into()]),
        "u",
    );
    assert_eq!(m, "POST");
    assert_eq!(&args[6..], &["-H", "Accept: */*", "-d", "{\"a\":1}", "-v", "--compressed", "u"]);
}

#[test]
fn curl_output() {
    let out = "HTTP/1.1 301 Moved Permanently\r\nLocation: https://b/\r\n\r\nHTTP/1.1 200 OK\r\nContent-Type: text/html\r\nX-A: b:c\r\n\r\n<html></html>\n__CURL_META__\nstatus_code:200\nremote_ip:1.2.3.4\ntime_namelookup:0.001\ntime_connect:0.010\ntime_appconnect:0.020\ntime_starttransfer:0.030\ntime_total:1.5\ncontent_type:text/html\n";
    let r = curl_result("https://a".into(), "GET".into(), true, out, "* verbose".into()).unwrap();
    assert_eq!(r.status_code, 200);
    assert_eq!(r.status_text, "OK");
    assert_eq!(r.body, "<html></html>");
    assert_eq!(r.body_size, 13);
    assert_eq!(r.redirects.len(), 1);
    assert_eq!(r.redirects[0].status, 301);
    assert_eq!(r.redirects[0].location, "https://b/");
    assert_eq!(r.response_headers.len(), 2);
    assert_eq!(r.response_headers[1].name, "X-A");
    assert_eq!(r.response_headers[1].value, "b:c");
    assert_eq!(r.remote_ip, "1.2.3.4");
    assert_eq!(r.content_type, "text/html");
    assert_eq!(r.timings.total, "1.5");
    assert_eq!(r.verbose_output, "* verbose");
    assert_eq!(
        curl_result("u".into(), "GET".into(), false, "", "Could not resolve".into()).unwrap_err(),
        "curl failed: Could not resolve"
    );
}

#[test]
fn curl_output_without_headers() {
    let r = curl_result("u".into(), "GET".into(), true, "plain body", String::new()).unwrap();
    assert_eq!(r.body, "plain body");
    assert_eq!(r.status_code, 0);
}

const DIG: &str = "; <<>> DiG 9.10.6 <<>> example.com A\n;; ->>HEADER<<- opcode: QUERY, status: NXDOMAIN, id: 1\n\nexample.com.\t300\tIN\tA\t93.184.216.34\nexample.com.  300  IN  TXT  \"v=spf1  -all\"\n;; Query time: 12 msec\n;; SERVER: 8.8.8.8#53(8.8.8.8)\n";

#[test]
fn dig_answers() {
    let r = parse_dig_output("example.com".into(), DIG);
    assert_eq!(r.status, "NXDOMAIN");
    assert_eq!(r.query_time, "12 msec");
    assert_eq!(r.server, "8.8.8.8#53(8.8.8.8)");
    assert_eq!(r.records.len(), 2);
    assert_eq!(r.records[0].name, "example.com.");
    assert_eq!(r.records[0].ttl, "300");
    assert_eq!(r.records[0].record_class, "IN");
    assert_eq!(r.records[0].record_type, "A");
    assert_eq!(r.records[0].value, "93.184.216.34");
    assert_eq!(r.records[1].value, "\"v=spf1 -all\"");
    assert_eq!(parse_dig_output("e".into(), "").status, "NOERROR");
}

#[test]
fn dig_queries() {
    assert_eq!(dig_query_type(None), "ANY");
    assert_eq!(dig_query_type(Some("MX".into())), "MX");
    assert_eq!(dig_args("e.com", None), vec!["e.com", "ANY", "+noall", "+answer", "+stats", "+comments"]);
    assert_eq!(dig_result("e".into(), false, "", "boom").err().unwrap(), "dig failed: boom");
    assert_eq!(dig_result("e".into(), true, DIG, "").ok().unwrap().records.len(), 2);
    assert_eq!(
        dig_trace_result("e".into(), false, "", "x", None).err().unwrap(),
        "dig +trace failed: x"
    );
}

const TRACE: &str = "; <<>> DiG 9.10.6 <<>> +trace example.com\n;; global options: +cmd\n.\t\t\t518400\tIN\tNS\ta.root-servers.net.\n;; Received 239 bytes from 127.0.2.2#53(127.0.2.2) in 25 ms\n\ncom.\t\t\t172800\tIN\tNS\ta.gtld-servers.net.\ncom.\t\t\t86400\tIN\tDS\t30909 8 2 E2D3\n;; Received 1170 bytes from 198.41.0.4#53(a.root-servers.net) in 30 ms\n\nexample.com.\t\t86400\tIN\tA\t93.184.216.34\n;; Received 56 bytes from 199.43.135.53#53(a.iana-servers.net) in 20 ms\n";

#[test]
fn dig_trace_hops() {
    let r = parse_dig_trace("example.com".into(), TRACE, None);
    assert_eq!(r.hops.len(), 3);
    assert_eq!(r.hops[0].zone, ".");
    assert_eq!(r.hops[0].server, "127.0.2.2");
    assert_eq!(r.hops[0].server_ip, "127.0.2.2");
    assert_eq!(r.hops[0].response_bytes, "239");
    assert_eq!(r.hops[0].response_time, "25 ms");
    assert_eq!(r.hops[1].zone, "com.");
    assert_eq!(r.hops[1].server, "a.root-servers.net");
    assert_eq!(r.hops[1].records.len(), 1);
    assert_eq!(r.final_answers.len(), 1);
    assert_eq!(r.final_answers[0].value, "93.184.216.34");
    let with_ds = parse_dig_trace("example.com".into(), TRACE, Some(true));
    assert_eq!(with_ds.hops[1].records.len(), 2);
    assert_eq!(with_ds.hops[1].records[1].value, "30909 8 2 E2D3");
}

#[test]
fn whois_fields() {
    let raw = "Domain Name: EXAMPLE.COM\nRegistrar: RESERVED-Internet Assigned Numbers Authority\nCreation Date: 1995-08-14T04:00:00Z\nRegistry Expiry Date: 2025-08-13T04:00:00Z\nUpdated Date: 2024-08-14T07:01:34Z\nName Server: A.IANA-SERVERS.NET\nName Server: a.iana-servers.net\nName Server: B.IANA-SERVERS.NET\nDomain Status: clientDeleteProhibited https://icann.org/epp#clientDeleteProhibited\nDomain Status: clientTransferProhibited https://icann.org/epp\n% comment: x\n>>> Last update of whois database: 2025 <<<\nRegistrar: Second\nEmpty:\n";
    let r = parse_whois_output("example.com".into(), raw.into());
    assert_eq!(r.registrar, "RESERVED-Internet Assigned Numbers Authority");
    assert_eq!(r.creation_date, "1995-08-14T04:00:00Z");
    assert_eq!(r.expiry_date, "2025-08-13T04:00:00Z");
    assert_eq!(r.updated_date, "2024-08-14T07:01:34Z");
    assert_eq!(r.nameservers, vec!["a.iana-servers.net", "b.iana-servers.net"]);
    assert_eq!(r.status, vec!["clientDeleteProhibited", "clientTransferProhibited"]);
    assert_eq!(r.fields.len(), 11);
    assert_eq!(r.fields[0].key, "Domain Name");
    assert_eq!(r.fields[10].value, "Second");
    assert_eq!(r.raw_output, raw);
}

#[test]
fn whois_lists_hold_each_entry_once() {
    let raw = "nserver: NS1.EXAMPLE.ORG 192.0.2.1\nnserver: ns1.example.org\nstatus: ok\nstatus: ok extra\nstatus: active\n";
    let r = parse_whois_output("example.org".into(), raw.into());
    assert_eq!(r.nameservers, vec!["ns1.example.org"]);
    assert_eq!(r.status, vec!["ok", "active"]);
    assert_eq!(r.fields.len(), 5);
}

#[test]
fn port_scan_tally() {
    assert_eq!(port_service_name(22), "SSH");
    assert_eq!(port_service_name(27017), "MongoDB");
    assert_eq!(port_service_name(12345), "");
    assert_eq!(scan_address("example.com", 443), "example.com:443");
    let r = port_scan_result("h".into(), &vec![22, 80, 12345], &vec![true, false, true]);
    assert_eq!(r.open_count, 2);
    assert_eq!(r.closed_count, 1);
    assert_eq!(r.open_count + r.closed_count, r.ports.len());
    assert_eq!(r.ports[1].service, "HTTP");
    assert!(!r.ports[1].is_open);
}

const PING: &str = "PING google.com (142.251.116.101): 56 data bytes\n64 bytes from 142.251.116.101: icmp_seq=0 ttl=105 time=25.639 ms\n64 bytes from 142.251.116.101: icmp_seq=1 ttl=105 time=15.082 ms\n\n--- google.com ping statistics ---\n2 packets transmitted, 2 packets received, 0.0% packet loss\nround-trip min/avg/max/stddev = 15.082/20.360/25.639/5.278 ms\n";

#[test]
fn ping_output() {
    let r = parse_ping_output(PING);
    assert_eq!(r.ip, "142.251.116.101");
    assert_eq!(r.replies.len(), 2);
    assert_eq!(r.replies[1].seq, 1);
    assert_eq!(r.replies[1].ttl, 105);
    assert_eq!(r.replies[1].time.as_deref(), Some("15.082"));
    assert_eq!(r.transmitted, 2);
    assert_eq!(r.received, 2);
    assert_eq!(r.loss.as_deref(), Some("0.0"));
    assert_eq!(r.rtt, vec![vec!["15.082", "20.360", "25.639", "5.278"]]);
}

#[test]
fn ping_output_linux() {
    let out = "PING h (10.0.0.1) 56(84) bytes of data.\n64 bytes from 10.0.0.1: icmp_seq=1 ttl=64 time=0.045 ms\n3 packets transmitted, 1 received, 66.6667% packet loss, time 2003ms\nrtt min/avg/max/mdev = 0.045/0.045/0.045/0.000 ms\n";
    let r = parse_ping_output(out);
    assert_eq!(r.ip, "10.0.0.1");
    assert_eq!(r.transmitted, 3);
    assert_eq!(r.received, 1);
    assert_eq!(r.loss.as_deref(), Some("66.6667"));
    assert_eq!(r.rtt[0], vec!["0.045", "0.045", "0.045", "0.000"]);
}

#[test]
fn traceroute_lines() {
    let h = parse_traceroute_line("1  router (192.168.1.1)  1.234 ms").unwrap();
    assert_eq!(h.hop, 1);
    assert_eq!(h.host, "router");
    assert_eq!(h.ip, "192.168.1.1");
    assert_eq!(h.times, vec!["1.234", "ms"]);
    assert!(!h.is_timeout);
    let t = parse_traceroute_line("2  * * *").unwrap();
    assert!(t.is_timeout);
    assert_eq!(t.host, "*");
    assert!(parse_traceroute_line("traceroute to x").is_none());
    assert!(parse_traceroute_line("").is_none());
    let short = parse_traceroute_line("3").unwrap();
    assert_eq!(short.host, "");
}

#[test]
fn traceroute_output() {
    let r = parse_traceroute_output(
        "traceroute to example.com (93.184.216.34), 15 hops max, 52 byte packets\n",
        " 1  gw (10.0.0.1)  0.5 ms\n 2  * \ntraceroute: warning\n",
    );
    assert_eq!(r.target_ip, "93.184.216.34");
    assert_eq!(r.hops.len(), 2);
    assert_eq!(r.hops[0].ip, "10.0.0.1");
    assert!(r.hops[1].is_timeout);
}
