use base64::Engine;
use starla::resolver::{
    build_query, decode_answers, dns_result_text, format_rdata, parse_answers, query_wire, tcp_message, DnsQuerySpec,
    RDataView,
};

fn spec(query_type: &str, query_class: &str, edns: Option<u16>, dnssec: bool) -> DnsQuerySpec {
    DnsQuerySpec {
        query_name: "example.com".to_string(),
        query_type: query_type.to_string(),
        query_class: query_class.to_string(),
        recursion_desired: true,
        edns_buf_size: edns,
        dnssec,
    }
}

const QUESTION: [u8; 17] = [
    7, b'e', b'x', b'a', b'm', b'p', b'l', b'e', 3, b'c', b'o', b'm', 0, 0, 1, 0, 1,
];

#[test]
fn query_without_edns() {
    let wire = query_wire(&spec("A", "IN", None, false), 0x1234, "example.com").unwrap();
    let mut expected = vec![0x12, 0x34, 0x01, 0x00, 0, 1, 0, 0, 0, 0, 0, 0];
    expected.extend_from_slice(&QUESTION);
    assert_eq!(wire, expected);
}

#[test]
fn query_type_and_class_fall_back() {
    let known = query_wire(&spec("A", "IN", None, false), 7, "example.com").unwrap();
    let unknown = query_wire(&spec("NOSUCHTYPE", "NOSUCHCLASS", None, false), 7, "example.com").unwrap();
    assert_eq!(known, unknown);
    let aaaa = query_wire(&spec("AAAA", "CH", None, false), 7, "example.com").unwrap();
    let n = aaaa.len();
    assert_eq!(&aaaa[n - 4..], &[0, 28, 0, 3]);
}

#[test]
fn query_with_dnssec_has_opt_record() {
    let wire = query_wire(&spec("A", "IN", None, true), 0x0102, "example.com").unwrap();
    assert_eq!(&wire[..12], &[0x01, 0x02, 0x01, 0x00, 0, 1, 0, 0, 0, 0, 0, 1]);
    assert_eq!(&wire[12..29], &QUESTION);
    // OPT: root name, type 41, payload 4096, no extended rcode, version 0, DO bit.
    assert_eq!(&wire[29..], &[0, 0, 41, 0x10, 0x00, 0, 0, 0x80, 0, 0, 0]);
}

#[test]
fn query_with_buffer_size_only() {
    let wire = query_wire(&spec("A", "IN", Some(1232), false), 1, "example.com").unwrap();
    assert_eq!(wire[11], 1);
    assert_eq!(&wire[29..], &[0, 0, 41, 0x04, 0xd0, 0, 0, 0, 0, 0, 0]);
}

#[test]
fn built_query_carries_its_id() {
    let (id, wire) = build_query(&spec("A", "IN", None, false), 42).unwrap();
    assert_eq!(&wire[..2], &id.to_be_bytes());
    assert_eq!(&wire[12..], &QUESTION);
}

#[test]
fn tcp_framing() {
    assert_eq!(tcp_message(&[9, 8, 7]), vec![0, 3, 9, 8, 7]);
    let long = vec![1u8; 300];
    let framed = tcp_message(&long);
    assert_eq!(&framed[..2], &[1, 44]);
    assert_eq!(framed.len(), 302);
}

fn answer_message() -> Vec<u8> {
    let mut m = vec![0x12, 0x34, 0x81, 0x80, 0, 1, 0, 3, 0, 0, 0, 0];
    m.extend_from_slice(&QUESTION);
    // A 93.184.216.34
    m.extend_from_slice(&[0xc0, 0x0c, 0, 1, 0, 1, 0, 0, 0, 60, 0, 4, 93, 184, 216, 34]);
    // MX 10 mail.example.com.
    m.extend_from_slice(&[0xc0, 0x0c, 0, 15, 0, 1, 0, 0, 0, 60, 0, 9, 0, 10]);
    m.extend_from_slice(&[4, b'm', b'a', b'i', b'l', 0xc0, 0x0c]);
    // TXT "hello" "world"
    m.extend_from_slice(&[0xc0, 0x0c, 0, 16, 0, 1, 0, 0, 0, 60, 0, 12]);
    m.extend_from_slice(&[5, b'h', b'e', b'l', b'l', b'o', 5, b'w', b'o', b'r', b'l', b'd']);
    m
}

#[test]
fn answers_are_read_and_formatted() {
    let answers = parse_answers(&answer_message()).unwrap();
    assert_eq!(answers.len(), 3);
    assert_eq!(answers[0].record_type, "A");
    assert_eq!(answers[0].name, "example.com.");
    assert_eq!(answers[0].rdata, vec!["93.184.216.34".to_string()]);
    assert_eq!(answers[1].record_type, "MX");
    assert_eq!(answers[1].rdata, vec!["10 mail.example.com.".to_string()]);
    assert_eq!(answers[2].record_type, "TXT");
    assert_eq!(answers[2].rdata, vec!["hello".to_string(), "world".to_string()]);
}

#[test]
fn no_answers_or_garbage_gives_none() {
    let mut m = vec![0x12, 0x34, 0x81, 0x80, 0, 1, 0, 0, 0, 0, 0, 0];
    m.extend_from_slice(&QUESTION);
    assert!(parse_answers(&m).is_none());
    assert!(parse_answers(&[1, 2, 3]).is_none());
}

#[test]
fn answers_from_base64() {
    let abuf = base64::engine::general_purpose::STANDARD.encode(answer_message());
    let answers = decode_answers(&abuf).unwrap();
    assert_eq!(answers.len(), 3);
    assert!(decode_answers("not base64!").is_none());
}

#[test]
fn rdata_forms() {
    assert_eq!(
        format_rdata(&RDataView::Soa(
            "ns.example.com.".to_string(),
            "admin.example.com.".to_string(),
            2024010101,
            7200,
            -1,
            1209600,
            300,
        )),
        vec!["ns.example.com. admin.example.com. 2024010101 7200 -1 1209600 300".to_string()]
    );
    assert_eq!(
        format_rdata(&RDataView::Mx(5, "mx.example.".to_string())),
        vec!["5 mx.example.".to_string()]
    );
    assert_eq!(
        format_rdata(&RDataView::Txt(vec![b"a".to_vec(), vec![0xff]])),
        vec!["a".to_string(), "\u{fffd}".to_string()]
    );
    assert_eq!(format_rdata(&RDataView::Other("x".to_string())), vec!["x".to_string()]);
}

#[test]
fn result_text_of_an_answer() {
    let raw = answer_message();
    let text = dns_result_text("12.345", &raw, 5000);
    let abuf = base64::engine::general_purpose::STANDARD.encode(&raw);
    let expected_head = format!(
        "{{ \"rt\":12.345,\"size\":{}, \"abuf\":\"{}\",\"ID\":4660, \"ANCOUNT\":3, \"QDCOUNT\":1, \"NSCOUNT\":0, \"ARCOUNT\":0,\"answers\":[ ",
        raw.len(),
        abuf
    );
    assert!(text.starts_with(&expected_head), "{}", text);
    assert!(text.contains("{\"TYPE\":\"A\", \"NAME\":\"example.com.\", \"RDATA\":[ \"93.184.216.34\" ]}"));
    assert!(text.ends_with(" ] }"));
    assert_eq!(dns_result_text("1.000", &raw[..11], 5000), "{ \"error\":{\"timeout\":5000} }");
}
