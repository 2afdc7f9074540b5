use podmon::tcp::{
    count_tcp_tables, is_ipv4_mapped_addr, output_rows, tcp_state_name, IpVersion, TcpState,
};

const HEADER: &str =
    "  sl  local_address rem_address   st tx_queue rx_queue tr tm->when retrnsmt   uid  timeout inode";

#[test]
fn state_names_follow_the_kernel_table() {
    assert_eq!(tcp_state_name(0x01), "ESTABLISHED");
    assert_eq!(tcp_state_name(0x02), "SYN_SENT");
    assert_eq!(tcp_state_name(0x03), "SYN_RECV");
    assert_eq!(tcp_state_name(0x04), "FIN_WAIT1");
    assert_eq!(tcp_state_name(0x05), "FIN_WAIT2");
    assert_eq!(tcp_state_name(0x06), "TIME_WAIT");
    assert_eq!(tcp_state_name(0x07), "CLOSE");
    assert_eq!(tcp_state_name(0x08), "CLOSE_WAIT");
    assert_eq!(tcp_state_name(0x09), "LAST_ACK");
    assert_eq!(tcp_state_name(0x0A), "LISTEN");
    assert_eq!(tcp_state_name(0x0B), "CLOSING");
    assert_eq!(tcp_state_name(0x0C), "NEW_SYN_RECV");
    assert_eq!(tcp_state_name(0x0D), "UNKNOWN");
    assert_eq!(tcp_state_name(0xFF), "UNKNOWN");
}

#[test]
fn ipv4_mapped_prefix_is_recognized() {
    assert!(is_ipv4_mapped_addr(b"0000000000000000FFFF00007095FB3A:0050"));
    assert!(is_ipv4_mapped_addr(b"0000000000000000ffff00007095fb3a:0050"));
    assert!(!is_ipv4_mapped_addr(b"00000000000000000000000000000001:0050"));
    assert!(!is_ipv4_mapped_addr(b"FFFF0000:0050"));
    assert!(!is_ipv4_mapped_addr(b"0000000000000000FFFF00007095FB3A"));
    assert!(!is_ipv4_mapped_addr(b""));
}

#[test]
fn mapped_v6_row_counts_as_ipv4() {
    let table6 = format!(
        "{}\n   0: 0000000000000000FFFF00007095FB3A:0050 0000000000000000FFFF0000851EAC8E:01BB 01 00000000:00000000 00:00000000 00000000  1000        0 12345 1\n",
        HEADER
    );
    let counts = count_tcp_tables(b"", Some(table6.as_bytes()));
    assert_eq!(counts.get(TcpState::Established, IpVersion::V4), 1);
    assert_eq!(counts.get(TcpState::Established, IpVersion::V6), 0);
}

#[test]
fn plain_v6_row_counts_as_ipv6() {
    let table6 = format!(
        "{}\n   0: 00000000000000000000000001000000:1F90 00000000000000000000000000000000:0000 0A 00000000:00000000 00:00000000 00000000  1000        0 222 1\n",
        HEADER
    );
    let counts = count_tcp_tables(b"", Some(table6.as_bytes()));
    assert_eq!(counts.get(TcpState::Listen, IpVersion::V6), 1);
    assert_eq!(counts.get(TcpState::Listen, IpVersion::V4), 0);
}

#[test]
fn v4_rows_count_by_state() {
    let table4 = format!(
        "{}\n   0: 0100007F:1F90 00000000:0000 0A 0:0 00:0 0 0 0 1 1\n   1: 0100007F:A000 0100007F:1F90 01 0:0 00:0 0 0 0 2 1\n   2: 0100007F:A001 0100007F:1F90 01 0:0 00:0 0 0 0 3 1\n   3: 0100007F:A002 0100007F:1F90 06 0:0 00:0 0 0 0 4 1\n",
        HEADER
    );
    let counts = count_tcp_tables(table4.as_bytes(), None);
    assert_eq!(counts.get(TcpState::Listen, IpVersion::V4), 1);
    assert_eq!(counts.get(TcpState::Established, IpVersion::V4), 2);
    assert_eq!(counts.get(TcpState::TimeWait, IpVersion::V4), 1);
    assert_eq!(counts.get(TcpState::Established, IpVersion::V6), 0);
}

#[test]
fn unknown_state_code_is_bucketed() {
    let table4 = format!("{}\n   0: 0100007F:1F90 00000000:0000 EE 0:0 00:0 0 0 0 1 1\n", HEADER);
    let counts = count_tcp_tables(table4.as_bytes(), None);
    assert_eq!(counts.get(TcpState::Unknown, IpVersion::V4), 1);
}

#[test]
fn short_and_malformed_rows_are_skipped() {
    let table4 = format!(
        "{}\n   0: 0100007F:1F90\n   1: 0100007F:1F90 00000000:0000 ZZ 0:0\n   2: 0100007F:A000 0100007F:1F90 01 0:0 00:0 0 0 0 2 1\n",
        HEADER
    );
    let counts = count_tcp_tables(table4.as_bytes(), None);
    assert_eq!(counts.get(TcpState::Established, IpVersion::V4), 1);
    assert_eq!(counts.get(TcpState::Unknown, IpVersion::V4), 0);
}

#[test]
fn output_always_has_24_rows() {
    let counts = count_tcp_tables(b"", None);
    let rows = output_rows(&counts);
    assert_eq!(rows.len(), 24);
    for (_, _, n) in rows.iter() {
        assert_eq!(*n, 0);
    }
}

#[test]
fn output_has_24_rows_even_for_garbage_input() {
    let counts = count_tcp_tables(b"not a table at all\n\x00\xFF", Some(b"zz"));
    let rows = output_rows(&counts);
    assert_eq!(rows.len(), 24);
}

#[test]
fn output_rows_carry_the_counts_in_fixed_order() {
    let table4 = format!("{}\n   0: 0100007F:1F90 00000000:0000 0A 0:0 00:0 0 0 0 1 1\n", HEADER);
    let counts = count_tcp_tables(table4.as_bytes(), None);
    let rows = output_rows(&counts);
    assert_eq!(rows[0].0, TcpState::Established);
    assert_eq!(rows[0].1, IpVersion::V4);
    assert_eq!(rows[1].1, IpVersion::V6);
    // LISTEN sits at position 9 of the fixed order; its IPv4 row is 18.
    assert_eq!(rows[18].0, TcpState::Listen);
    assert_eq!(rows[18].1, IpVersion::V4);
    assert_eq!(rows[18].2, 1);
    assert_eq!(rows[19].2, 0);
}
