//! Connection counting over the kernel's TCP socket tables.
//!
//! A table is a header line followed by one row per socket; the fourth
//! column is the connection state as two hexadecimal digits.  Rows of the
//! IPv6 table whose local or remote address begins with the IPv4-mapped
//! prefix are counted as IPv4: the kernel routes IPv4 traffic over IPv6
//! sockets through that table, and leaving them there would overcount IPv6.

use vstd::prelude::*;

use crate::num::{lemma_sat_u64_absorb, sat_add_u64, sat_u64};
use crate::text::{
    bytes_eq_ignore_case, lines, parse_hex_u8, parse_hex_u8_bytes, seq_to_lower, split_lines,
    tokenize, tokens, views_of,
};
use vstd::pervasive::VecAdditionalExecFns;
use vstd::string::StringSliceAdditionalSpecFns;

verus! {

/// The twelve named kernel socket states, and one bucket for any code
/// outside the documented table.
#[derive(Debug, Clone, Copy, PartialEq, Eq, Structural)]
pub enum TcpState {
    Established,
    SynSent,
    SynRecv,
    FinWait1,
    FinWait2,
    TimeWait,
    Close,
    CloseWait,
    LastAck,
    Listen,
    Closing,
    NewSynRecv,
    Unknown,
}

#[derive(Debug, Clone, Copy, PartialEq, Eq, Structural)]
pub enum IpVersion {
    V4,
    V6,
}

/// The state a hexadecimal state code denotes.
pub open spec fn state_of_code(code: u8) -> TcpState {
    if code == 0x01 {
        TcpState::Established
    } else if code == 0x02 {
        TcpState::SynSent
    } else if code == 0x03 {
        TcpState::SynRecv
    } else if code == 0x04 {
        TcpState::FinWait1
    } else if code == 0x05 {
        TcpState::FinWait2
    } else if code == 0x06 {
        TcpState::TimeWait
    } else if code == 0x07 {
        TcpState::Close
    } else if code == 0x08 {
        TcpState::CloseWait
    } else if code == 0x09 {
        TcpState::LastAck
    } else if code == 0x0A {
        TcpState::Listen
    } else if code == 0x0B {
        TcpState::Closing
    } else if code == 0x0C {
        TcpState::NewSynRecv
    } else {
        TcpState::Unknown
    }
}

/// Classifies a state code.
pub fn tcp_state_of(code: u8) -> (r: TcpState)
    ensures
        r == state_of_code(code),
{
    match code {
        0x01 => TcpState::Established,
        0x02 => TcpState::SynSent,
        0x03 => TcpState::SynRecv,
        0x04 => TcpState::FinWait1,
        0x05 => TcpState::FinWait2,
        0x06 => TcpState::TimeWait,
        0x07 => TcpState::Close,
        0x08 => TcpState::CloseWait,
        0x09 => TcpState::LastAck,
        0x0A => TcpState::Listen,
        0x0B => TcpState::Closing,
        0x0C => TcpState::NewSynRecv,
        _ => TcpState::Unknown,
    }
}

/// The label a state carries on the metrics surface.
pub open spec fn state_label(st: TcpState) -> Seq<char> {
    match st {
        TcpState::Established => "ESTABLISHED"@,
        TcpState::SynSent => "SYN_SENT"@,
        TcpState::SynRecv => "SYN_RECV"@,
        TcpState::FinWait1 => "FIN_WAIT1"@,
        TcpState::FinWait2 => "FIN_WAIT2"@,
        TcpState::TimeWait => "TIME_WAIT"@,
        TcpState::Close => "CLOSE"@,
        TcpState::CloseWait => "CLOSE_WAIT"@,
        TcpState::LastAck => "LAST_ACK"@,
        TcpState::Listen => "LISTEN"@,
        TcpState::Closing => "CLOSING"@,
        TcpState::NewSynRecv => "NEW_SYN_RECV"@,
        TcpState::Unknown => "UNKNOWN"@,
    }
}

/// The label of a state code, as the twelve-entry kernel table names it;
/// codes outside the table read as `UNKNOWN`.
pub fn tcp_state_name(code: u8) -> (r: &'static str)
    ensures
        r@ == state_label(state_of_code(code)),
{
    match code {
        0x01 => "ESTABLISHED",
        0x02 => "SYN_SENT",
        0x03 => "SYN_RECV",
        0x04 => "FIN_WAIT1",
        0x05 => "FIN_WAIT2",
        0x06 => "TIME_WAIT",
        0x07 => "CLOSE",
        0x08 => "CLOSE_WAIT",
        0x09 => "LAST_ACK",
        0x0A => "LISTEN",
        0x0B => "CLOSING",
        0x0C => "NEW_SYN_RECV",
        _ => "UNKNOWN",
    }
}

/// The label of a state.
pub fn tcp_state_label(st: TcpState) -> (r: &'static str)
    ensures
        r@ == state_label(st),
{
    match st {
        TcpState::Established => "ESTABLISHED",
        TcpState::SynSent => "SYN_SENT",
        TcpState::SynRecv => "SYN_RECV",
        TcpState::FinWait1 => "FIN_WAIT1",
        TcpState::FinWait2 => "FIN_WAIT2",
        TcpState::TimeWait => "TIME_WAIT",
        TcpState::Close => "CLOSE",
        TcpState::CloseWait => "CLOSE_WAIT",
        TcpState::LastAck => "LAST_ACK",
        TcpState::Listen => "LISTEN",
        TcpState::Closing => "CLOSING",
        TcpState::NewSynRecv => "NEW_SYN_RECV",
        TcpState::Unknown => "UNKNOWN",
    }
}

/// The label of an IP version.
pub fn ip_version_name(v: IpVersion) -> (r: &'static str)
    ensures
        v == IpVersion::V4 ==> r@ == "4"@,
        v == IpVersion::V6 ==> r@ == "6"@,
{
    match v {
        IpVersion::V4 => "4",
        IpVersion::V6 => "6",
    }
}

// ---------------------------------------------------------------------------
// IPv4-mapped addresses
// ---------------------------------------------------------------------------

/// The bytes before the first colon, if the sequence has a colon.
pub open spec fn prefix_to_colon(s: Seq<u8>) -> Option<Seq<u8>>
    decreases s.len(),
{
    if s.len() == 0 {
        None
    } else if s[0] == 58 {
        Some(Seq::empty())
    } else {
        match prefix_to_colon(s.drop_first()) {
            Some(p) => Some(seq![s[0]] + p),
            None => None,
        }
    }
}

proof fn lemma_prefix_to_colon(s: Seq<u8>, c: int)
    requires
        0 <= c <= s.len(),
        forall|j: int| 0 <= j < c ==> s[j] != 58,
        c < s.len() ==> s[c] == 58,
    ensures
        c == s.len() ==> prefix_to_colon(s) is None,
        c < s.len() ==> prefix_to_colon(s) == Some(s.subrange(0, c)),
    decreases s.len(),
{
    if s.len() == 0 {
    } else if c == 0 {
        assert(s.subrange(0, 0) =~= Seq::empty());
    } else {
        lemma_prefix_to_colon(s.drop_first(), c - 1);
        if c < s.len() {
            assert(seq![s[0]] + s.drop_first().subrange(0, c - 1) =~= s.subrange(0, c));
        }
    }
}

/// The 24 hexadecimal digits that open every IPv4-mapped IPv6 address in the
/// socket table: 96 zero bits, then 16 one bits, then 16 zero bits.
pub open spec fn v4_mapped_prefix() -> Seq<u8> {
    "0000000000000000FFFF0000".spec_bytes()
}

/// Whether an `address:port` column of the IPv6 table denotes an
/// IPv4-mapped address: its part before the colon begins, case
/// insensitively, with the 24-digit mapped prefix.
pub open spec fn is_ipv4_mapped(addr_port: Seq<u8>) -> bool {
    match prefix_to_colon(addr_port) {
        Some(h) => h.len() >= 24 && seq_to_lower(h.subrange(0, 24)) == seq_to_lower(
            v4_mapped_prefix(),
        ),
        None => false,
    }
}

/// Recognizes an IPv4-mapped `address:port` column of the IPv6 table.
pub fn is_ipv4_mapped_addr(addr_port: &[u8]) -> (r: bool)
    ensures
        r == is_ipv4_mapped(addr_port@),
{
    let mut c: usize = 0;
    while c < addr_port.len() && addr_port[c] != 58
        invariant
            c <= addr_port@.len(),
            forall|j: int| 0 <= j < c ==> addr_port@[j] != 58,
        decreases addr_port@.len() - c,
    {
        c += 1;
    }
    proof {
        lemma_prefix_to_colon(addr_port@, c as int);
    }
    if c == addr_port.len() {
        return false;
    }
    if c < 24 {
        return false;
    }
    let head = &addr_port[0..24];
    proof {
        assert(head@ =~= addr_port@.subrange(0, c as int).subrange(0, 24));
    }
    bytes_eq_ignore_case(head, "0000000000000000FFFF0000".as_bytes())
}

// ---------------------------------------------------------------------------
// Rows and counting
// ---------------------------------------------------------------------------

/// What one data row adds to the table: nothing unless it has more than
/// three columns and a hexadecimal state code in the fourth; otherwise one
/// connection in the row's state, as IPv4 when the row sits in the IPv4
/// table or carries an IPv4-mapped local or remote address.
pub open spec fn row_contribution(l: Seq<u8>, table_v6: bool) -> Option<(TcpState, IpVersion)> {
    let cols = tokens(l);
    if cols.len() > 3 {
        match parse_hex_u8(cols[3]) {
            Some(code) => {
                let v = if table_v6 && !is_ipv4_mapped(cols[1]) && !is_ipv4_mapped(cols[2]) {
                    IpVersion::V6
                } else {
                    IpVersion::V4
                };
                Some((state_of_code(code), v))
            },
            None => None,
        }
    } else {
        None
    }
}

/// A table's data rows: everything after the header line.
pub open spec fn data_lines(ls: Seq<Seq<u8>>) -> Seq<Seq<u8>> {
    if ls.len() >= 1 {
        ls.drop_first()
    } else {
        ls
    }
}

/// How many of the rows `ds` count under `(st, v)`.
pub open spec fn rows_count(ds: Seq<Seq<u8>>, table_v6: bool, st: TcpState, v: IpVersion) -> nat
    decreases ds.len(),
{
    if ds.len() == 0 {
        0
    } else {
        rows_count(ds.drop_last(), table_v6, st, v) + (if row_contribution(ds.last(), table_v6)
            == Some((st, v)) {
            1nat
        } else {
            0nat
        })
    }
}

/// The slot of a `(state, version)` pair in the count table.
spec fn state_index(st: TcpState) -> int {
    match st {
        TcpState::Established => 0,
        TcpState::SynSent => 1,
        TcpState::SynRecv => 2,
        TcpState::FinWait1 => 3,
        TcpState::FinWait2 => 4,
        TcpState::TimeWait => 5,
        TcpState::Close => 6,
        TcpState::CloseWait => 7,
        TcpState::LastAck => 8,
        TcpState::Listen => 9,
        TcpState::Closing => 10,
        TcpState::NewSynRecv => 11,
        TcpState::Unknown => 12,
    }
}

spec fn slot(st: TcpState, v: IpVersion) -> int {
    state_index(st) * 2 + (if v == IpVersion::V4 {
        0int
    } else {
        1int
    })
}

/// Connection counts by state and IP version.
pub struct TcpCounts {
    counts: Vec<u64>,
}

impl TcpCounts {
    pub closed spec fn wf(&self) -> bool {
        self.counts@.len() == 26
    }

    /// The count recorded under `(st, v)`.
    pub closed spec fn spec_count(&self, st: TcpState, v: IpVersion) -> u64 {
        self.counts@[slot(st, v)]
    }

    /// A table with every count zero.
    pub fn new() -> (r: TcpCounts)
        ensures
            r.wf(),
            forall|st: TcpState, v: IpVersion| #[trigger] r.spec_count(st, v) == 0,
    {
        let mut counts: Vec<u64> = Vec::new();
        let mut i: usize = 0;
        while i < 26
            invariant
                i <= 26,
                counts@.len() == i,
                forall|j: int| 0 <= j < i ==> counts@[j] == 0,
            decreases 26 - i,
        {
            counts.push(0);
            i += 1;
        }
        TcpCounts { counts }
    }

    /// Reads the count of one `(state, version)` pair.
    pub fn get(&self, st: TcpState, v: IpVersion) -> (r: u64)
        requires
            self.wf(),
        ensures
            r == self.spec_count(st, v),
    {
        let idx = slot_exec(st, v);
        self.counts[idx]
    }

    /// Counts one more connection under `(st, v)`; the count sticks at the
    /// maximum rather than wrapping.
    fn bump(&mut self, st: TcpState, v: IpVersion)
        requires
            old(self).wf(),
        ensures
            final(self).wf(),
            final(self).spec_count(st, v) == sat_u64(old(self).spec_count(st, v) as nat + 1),
            forall|st2: TcpState, v2: IpVersion|
                !(st2 == st && v2 == v) ==> #[trigger] final(self).spec_count(st2, v2) == old(
                    self,
                ).spec_count(st2, v2),
    {
        let idx = slot_exec(st, v);
        let c = self.counts[idx];
        let c2 = sat_add_u64(c, 1);
        self.counts.set(idx, c2);
        proof {
            assert forall|st2: TcpState, v2: IpVersion| !(st2 == st && v2 == v) implies #[trigger] self.spec_count(st2, v2) == old(self).spec_count(st2, v2) by {
                assert(slot(st2, v2) != slot(st, v));
            }
        }
    }
}

fn slot_exec(st: TcpState, v: IpVersion) -> (r: usize)
    ensures
        r == slot(st, v),
        r < 26,
{
    let base: usize = match st {
        TcpState::Established => 0,
        TcpState::SynSent => 1,
        TcpState::SynRecv => 2,
        TcpState::FinWait1 => 3,
        TcpState::FinWait2 => 4,
        TcpState::TimeWait => 5,
        TcpState::Close => 6,
        TcpState::CloseWait => 7,
        TcpState::LastAck => 8,
        TcpState::Listen => 9,
        TcpState::Closing => 10,
        TcpState::NewSynRecv => 11,
        TcpState::Unknown => 12,
    };
    base * 2 + (if matches!(v, IpVersion::V4) {
        0
    } else {
        1
    })
}

/// Adds one socket table's rows to the counts.  The first line is the
/// header; a row contributes exactly what `row_contribution` says, so a
/// short or malformed row is skipped without touching any count.
pub fn add_table(c: &mut TcpCounts, text: &[u8], table_v6: bool)
    requires
        old(c).wf(),
    ensures
        final(c).wf(),
        forall|st: TcpState, v: IpVersion| #[trigger] final(c).spec_count(st, v) == sat_u64(
            old(c).spec_count(st, v) as nat + rows_count(
                data_lines(lines(text@)),
                table_v6,
                st,
                v,
            ),
        ),
{
    let ls = split_lines(text);
    let ghost ds = data_lines(lines(text@));
    let mut i: usize = 1;
    proof {
        assert(ds.subrange(0, 0) =~= Seq::<Seq<u8>>::empty());
    }
    while i < ls.len()
        invariant
            1 <= i,
            i <= ls@.len() || i == 1,
            views_of(ls@) == lines(text@),
            ds == data_lines(lines(text@)),
            old(c).wf(),
            c.wf(),
            forall|st: TcpState, v: IpVersion| #[trigger] c.spec_count(st, v) == sat_u64(
                old(c).spec_count(st, v) as nat + rows_count(
                    ds.subrange(0, i - 1),
                    table_v6,
                    st,
                    v,
                ),
            ),
        decreases ls@.len() - i,
    {
        let ghost dl = ds[i - 1];
        proof {
            assert(views_of(ls@)[i as int] == ls@[i as int]@);
            assert(dl == lines(text@)[i as int]);
        }
        let toks = tokenize(ls[i].as_slice());
        let ghost cols = tokens(dl);
        let ghost row_effect = row_contribution(dl, table_v6);
        if toks.len() > 3 {
            proof {
                assert(views_of(toks@)[1] == toks@[1]@);
                assert(views_of(toks@)[2] == toks@[2]@);
                assert(views_of(toks@)[3] == toks@[3]@);
            }
            match parse_hex_u8_bytes(toks[3].as_slice()) {
                Some(code) => {
                    let st = tcp_state_of(code);
                    let v = if table_v6 && !(is_ipv4_mapped_addr(toks[1].as_slice())
                        || is_ipv4_mapped_addr(toks[2].as_slice())) {
                        IpVersion::V6
                    } else if table_v6 {
                        IpVersion::V4
                    } else {
                        IpVersion::V4
                    };
                    proof {
                        assert(row_effect == Some((st, v)));
                    }
                    let ghost pre = *c;
                    c.bump(st, v);
                    proof {
                        lemma_rows_count_step(ds, i - 1, table_v6);
                        assert forall|st2: TcpState, v2: IpVersion| #[trigger] c.spec_count(
                            st2,
                            v2,
                        ) == sat_u64(
                            old(c).spec_count(st2, v2) as nat + rows_count(
                                ds.subrange(0, i as int),
                                table_v6,
                                st2,
                                v2,
                            ),
                        ) by {
                            if st2 == st && v2 == v {
                                lemma_sat_u64_absorb(
                                    old(c).spec_count(st2, v2) as nat + rows_count(
                                        ds.subrange(0, i - 1),
                                        table_v6,
                                        st2,
                                        v2,
                                    ),
                                    1,
                                );
                            }
                        }
                    }
                },
                None => {
                    proof {
                        assert(row_effect is None);
                        lemma_rows_count_step(ds, i - 1, table_v6);
                    }
                },
            }
        } else {
            proof {
                assert(cols.len() <= 3);
                assert(row_effect is None);
                lemma_rows_count_step(ds, i - 1, table_v6);
            }
        }
        i += 1;
    }
    proof {
        if ls@.len() >= 1 {
            assert(ds.subrange(0, ds.len() as int) =~= ds);
        } else {
            assert(ds =~= Seq::<Seq<u8>>::empty());
        }
    }
}

proof fn lemma_rows_count_step(ds: Seq<Seq<u8>>, k: int, table_v6: bool)
    requires
        0 <= k < ds.len(),
    ensures
        forall|st: TcpState, v: IpVersion| #[trigger] rows_count(
            ds.subrange(0, k + 1),
            table_v6,
            st,
            v,
        ) == rows_count(ds.subrange(0, k), table_v6, st, v) + (if row_contribution(
            ds[k],
            table_v6,
        ) == Some((st, v)) {
            1nat
        } else {
            0nat
        }),
{
    assert forall|st: TcpState, v: IpVersion| #[trigger] rows_count(
        ds.subrange(0, k + 1),
        table_v6,
        st,
        v,
    ) == rows_count(ds.subrange(0, k), table_v6, st, v) + (if row_contribution(ds[k], table_v6)
        == Some((st, v)) {
        1nat
    } else {
        0nat
    }) by {
        assert(ds.subrange(0, k + 1).drop_last() =~= ds.subrange(0, k));
        assert(ds.subrange(0, k + 1).last() == ds[k]);
    }
}

/// Counts the two socket tables of one cycle.  The IPv6 table may be absent
/// (IPv6 disabled); its rows then count as nothing.
pub fn count_tcp_tables(tcp4: &[u8], tcp6: Option<&[u8]>) -> (r: TcpCounts)
    ensures
        r.wf(),
        forall|st: TcpState, v: IpVersion| #[trigger] r.spec_count(st, v) == sat_u64(
            rows_count(data_lines(lines(tcp4@)), false, st, v) + (match tcp6 {
                Some(t) => rows_count(data_lines(lines(t@)), true, st, v),
                None => 0nat,
            }),
        ),
{
    let mut c = TcpCounts::new();
    add_table(&mut c, tcp4, false);
    match tcp6 {
        Some(t) => {
            let ghost mid = c;
            add_table(&mut c, t, true);
            proof {
                assert forall|st: TcpState, v: IpVersion| #[trigger] c.spec_count(st, v)
                    == sat_u64(
                    rows_count(data_lines(lines(tcp4@)), false, st, v) + rows_count(
                        data_lines(lines(t@)),
                        true,
                        st,
                        v,
                    ),
                ) by {
                    lemma_sat_u64_absorb(
                        rows_count(data_lines(lines(tcp4@)), false, st, v),
                        rows_count(data_lines(lines(t@)), true, st, v),
                    );
                }
            }
        },
        None => {
        },
    }
    c
}

// ---------------------------------------------------------------------------
// Output enumeration
// ---------------------------------------------------------------------------

/// The fixed order in which the twelve named states are reported.
pub open spec fn named_state(j: int) -> TcpState {
    if j == 0 {
        TcpState::Established
    } else if j == 1 {
        TcpState::SynSent
    } else if j == 2 {
        TcpState::SynRecv
    } else if j == 3 {
        TcpState::FinWait1
    } else if j == 4 {
        TcpState::FinWait2
    } else if j == 5 {
        TcpState::TimeWait
    } else if j == 6 {
        TcpState::Close
    } else if j == 7 {
        TcpState::CloseWait
    } else if j == 8 {
        TcpState::LastAck
    } else if j == 9 {
        TcpState::Listen
    } else if j == 10 {
        TcpState::Closing
    } else {
        TcpState::NewSynRecv
    }
}

fn named_state_at(j: usize) -> (r: TcpState)
    requires
        j < 12,
    ensures
        r == named_state(j as int),
{
    match j {
        0 => TcpState::Established,
        1 => TcpState::SynSent,
        2 => TcpState::SynRecv,
        3 => TcpState::FinWait1,
        4 => TcpState::FinWait2,
        5 => TcpState::TimeWait,
        6 => TcpState::Close,
        7 => TcpState::CloseWait,
        8 => TcpState::LastAck,
        9 => TcpState::Listen,
        10 => TcpState::Closing,
        _ => TcpState::NewSynRecv,
    }
}

/// Enumerates the full reporting surface: always exactly 24 rows, the
/// twelve named states in their fixed order, each with IPv4 then IPv6, and
/// each row carrying the recorded count (zero where nothing was counted).
pub fn output_rows(c: &TcpCounts) -> (r: Vec<(TcpState, IpVersion, u64)>)
    requires
        c.wf(),
    ensures
        r@.len() == 24,
        forall|k: int| 0 <= k < 24 ==> #[trigger] r@[k] == (
            named_state(k / 2),
            (if k % 2 == 0 {
                IpVersion::V4
            } else {
                IpVersion::V6
            }),
            c.spec_count(
                named_state(k / 2),
                if k % 2 == 0 {
                    IpVersion::V4
                } else {
                    IpVersion::V6
                },
            ),
        ),
{
    let mut r: Vec<(TcpState, IpVersion, u64)> = Vec::new();
    let mut j: usize = 0;
    while j < 12
        invariant
            j <= 12,
            c.wf(),
            r@.len() == 2 * j,
            forall|k: int| 0 <= k < 2 * j ==> #[trigger] r@[k] == (
                named_state(k / 2),
                (if k % 2 == 0 {
                    IpVersion::V4
                } else {
                    IpVersion::V6
                }),
                c.spec_count(
                    named_state(k / 2),
                    if k % 2 == 0 {
                        IpVersion::V4
                    } else {
                        IpVersion::V6
                    },
                ),
            ),
        decreases 12 - j,
    {
        let st = named_state_at(j);
        let c4 = c.get(st, IpVersion::V4);
        r.push((st, IpVersion::V4, c4));
        let c6 = c.get(st, IpVersion::V6);
        r.push((st, IpVersion::V6, c6));
        j += 1;
    }
    r
}

} // verus!
