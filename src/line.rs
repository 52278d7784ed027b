use vstd::prelude::*;
use crate::json::{
    array_text, decimal, decimal_string, is_number_text, json_str_of, lemma_array_no_newline,
    lemma_decimal_no_newline, lemma_no_newline_concat, no_newline, number_text, push_array,
    push_decimal, quote, texts,
};
use crate::record::{PersistenceFailure, VstpLog};

verus! {

/// Each of `v` as a JSON string, in order.
pub open spec fn quoted_all(v: Seq<String>) -> Seq<Seq<char>> {
    v.map_values(|s: String| json_str_of(s@))
}

/// Each of `v` as decimal text, in order.
pub open spec fn decimals(v: Seq<u32>) -> Seq<Seq<char>> {
    v.map_values(|n: u32| decimal(n as nat))
}

/// The JSON literal `null`.
pub open spec fn null_text() -> Seq<char> {
    seq!['n', 'u', 'l', 'l']
}

/// How the packet sizes are written: `null` when absent.
pub open spec fn sizes_text(o: Option<Vec<u32>>) -> Seq<char> {
    match o {
        None => null_text(),
        Some(v) => array_text(decimals(v@)),
    }
}

/// How the gaps between packets are written: `null` when absent.
pub open spec fn arrivals_text(o: Option<Vec<String>>) -> Seq<char> {
    match o {
        None => null_text(),
        Some(v) => array_text(texts(v@)),
    }
}

/// The record's members from `timestamp` to `dst_ip`, opening brace included.
pub open spec fn names_text(e: VstpLog) -> Seq<char> {
    "{\"timestamp\":"@ + json_str_of(e.timestamp@) + ",\"flow_id\":"@ + json_str_of(e.flow_id@)
        + ",\"src_ip\":"@ + json_str_of(e.src_ip@) + ",\"dst_ip\":"@ + json_str_of(e.dst_ip@)
}

/// The record's members from `src_port` to `packets`.
pub open spec fn ports_text(e: VstpLog) -> Seq<char> {
    ",\"src_port\":"@ + decimal(e.src_port as nat) + ",\"dst_port\":"@ + decimal(
        e.dst_port as nat,
    ) + ",\"protocol\":"@ + json_str_of(e.protocol@) + ",\"packets\":"@ + decimal(
        e.packets as nat,
    )
}

/// The record's members from `bytes` to `retransmissions`.
pub open spec fn counts_text(e: VstpLog) -> Seq<char> {
    ",\"bytes\":"@ + decimal(e.bytes as nat) + ",\"duration\":"@ + e.duration@
        + ",\"checksum_errors\":"@ + decimal(e.checksum_errors as nat) + ",\"dropped_packets\":"@
        + decimal(e.dropped_packets as nat) + ",\"retransmissions\":"@ + decimal(
        e.retransmissions as nat,
    )
}

/// The members of a record's JSON object up to `retransmissions`, opening
/// brace included.
pub open spec fn scalars_text(e: VstpLog) -> Seq<char> {
    names_text(e) + ports_text(e) + counts_text(e)
}

/// The compact JSON object for a record: every key present, the optional
/// arrays written `null` when absent, and every array in its order.
pub open spec fn record_text(e: VstpLog) -> Seq<char> {
    scalars_text(e) + ",\"flags\":"@ + array_text(quoted_all(e.flags@)) + ",\"packet_sizes\":"@
        + sizes_text(e.packet_sizes) + ",\"inter_arrivals\":"@ + arrivals_text(e.inter_arrivals)
        + "}"@
}

/// The line that is appended to the log for a record.
pub open spec fn line_text(e: VstpLog) -> Seq<char> {
    record_text(e) + seq!['\n']
}

/// A record can be written when each of its seconds values is number text.
pub open spec fn encodable(e: VstpLog) -> bool {
    &&& number_text(e.duration@)
    &&& match e.inter_arrivals {
        None => true,
        Some(v) => forall|i: int| 0 <= i < v@.len() ==> number_text(#[trigger] v@[i]@),
    }
}

proof fn lemma_number_no_newline(s: Seq<char>)
    requires
        number_text(s),
    ensures
        no_newline(s),
{
    if s != null_text() {
        assert forall|i: int| 0 <= i < s.len() implies s[i] != '\n' by {
            assert(crate::json::number_char(s[i]));
        }
    }
}

/// `part` stands somewhere in `s`.
pub open spec fn contains(s: Seq<char>, part: Seq<char>) -> bool {
    exists|k: int|
        0 <= k && k + part.len() <= s.len() && #[trigger] s.subrange(k, k + part.len() as int) == part
}

/// The line of a record without packet sizes holds the key `packet_sizes`
/// with the value `null`.
pub proof fn lemma_packet_sizes_null(e: VstpLog)
    requires
        e.packet_sizes is None,
    ensures
        contains(line_text(e), "\"packet_sizes\":null"@),
{
    reveal_strlit("\"packet_sizes\":null");
    reveal_strlit(",\"packet_sizes\":");
    let pre = scalars_text(e) + ",\"flags\":"@ + array_text(quoted_all(e.flags@));
    let post = ",\"inter_arrivals\":"@ + arrivals_text(e.inter_arrivals) + "}"@ + seq!['\n'];
    let part = "\"packet_sizes\":null"@;
    assert(line_text(e) =~= pre + seq![','] + part + post);
    let k: int = pre.len() as int + 1;
    assert(line_text(e).subrange(k, k + part.len() as int) =~= part);
}

/// The line of a record with packet sizes holds the key `packet_sizes` with
/// the array of their decimal texts, in the record's order.
pub proof fn lemma_packet_sizes_array(e: VstpLog, sizes: Vec<u32>)
    requires
        e.packet_sizes == Some(sizes),
    ensures
        contains(line_text(e), "\"packet_sizes\":"@ + array_text(decimals(sizes@))),
        decimals(sizes@).len() == sizes@.len(),
        forall|i: int| 0 <= i < sizes@.len() ==> #[trigger] decimals(sizes@)[i] == decimal(sizes@[i] as nat),
{
    reveal_strlit("\"packet_sizes\":");
    reveal_strlit(",\"packet_sizes\":");
    let pre = scalars_text(e) + ",\"flags\":"@ + array_text(quoted_all(e.flags@));
    let post = ",\"inter_arrivals\":"@ + arrivals_text(e.inter_arrivals) + "}"@ + seq!['\n'];
    let part = "\"packet_sizes\":"@ + array_text(decimals(sizes@));
    assert(line_text(e) =~= pre + seq![','] + part + post);
    let k: int = pre.len() as int + 1;
    assert(line_text(e).subrange(k, k + part.len() as int) =~= part);
}

/// The line of a record holds the key `flags` with the array of its flags as
/// JSON strings, each in its place: none moved, dropped or merged.
pub proof fn lemma_flags_in_order(e: VstpLog)
    ensures
        contains(line_text(e), "\"flags\":"@ + array_text(quoted_all(e.flags@))),
        quoted_all(e.flags@).len() == e.flags@.len(),
        forall|i: int|
            0 <= i < e.flags@.len() ==> #[trigger] quoted_all(e.flags@)[i] == json_str_of(
                e.flags@[i]@,
            ),
{
    reveal_strlit("\"flags\":");
    reveal_strlit(",\"flags\":");
    let pre = scalars_text(e);
    let post = ",\"packet_sizes\":"@ + sizes_text(e.packet_sizes) + ",\"inter_arrivals\":"@
        + arrivals_text(e.inter_arrivals) + "}"@ + seq!['\n'];
    let part = "\"flags\":"@ + array_text(quoted_all(e.flags@));
    assert(line_text(e) =~= pre + seq![','] + part + post);
    let k: int = pre.len() as int + 1;
    assert(line_text(e).subrange(k, k + part.len() as int) =~= part);
}

fn push_quoted(out: &mut String, s: &String)
    ensures
        final(out)@ == old(out)@ + json_str_of(s@),
        no_newline(json_str_of(s@)),
{
    let q = quote(s.as_str());
    out.append(q.as_str());
}

fn all_number_texts(v: &Vec<String>) -> (r: bool)
    ensures
        r == forall|i: int| 0 <= i < v@.len() ==> number_text(#[trigger] v@[i]@),
{
    let mut i: usize = 0;
    while i < v.len()
        invariant
            i <= v@.len(),
            forall|j: int| 0 <= j < i ==> number_text(#[trigger] v@[j]@),
        decreases v@.len() - i,
    {
        if !is_number_text(v[i].as_str()) {
            return false;
        }
        i += 1;
    }
    true
}

fn push_names(out: &mut String, e: &VstpLog)
    ensures
        final(out)@ == old(out)@ + names_text(*e),
        no_newline(names_text(*e)),
{
    out.append("{\"timestamp\":");
    push_quoted(out, &e.timestamp);
    out.append(",\"flow_id\":");
    push_quoted(out, &e.flow_id);
    out.append(",\"src_ip\":");
    push_quoted(out, &e.src_ip);
    out.append(",\"dst_ip\":");
    push_quoted(out, &e.dst_ip);
    assert(out@ =~= old(out)@ + names_text(*e));
    proof {
        broadcast use lemma_no_newline_concat;

        reveal_strlit("{\"timestamp\":");
        reveal_strlit(",\"flow_id\":");
        reveal_strlit(",\"src_ip\":");
        reveal_strlit(",\"dst_ip\":");
        assert(no_newline(names_text(*e)));
    }
}

fn push_ports(out: &mut String, e: &VstpLog)
    ensures
        final(out)@ == old(out)@ + ports_text(*e),
        no_newline(ports_text(*e)),
{
    out.append(",\"src_port\":");
    push_decimal(out, e.src_port as u64);
    out.append(",\"dst_port\":");
    push_decimal(out, e.dst_port as u64);
    out.append(",\"protocol\":");
    push_quoted(out, &e.protocol);
    out.append(",\"packets\":");
    push_decimal(out, e.packets as u64);
    assert(out@ =~= old(out)@ + ports_text(*e));
    proof {
        broadcast use lemma_no_newline_concat;

        reveal_strlit(",\"src_port\":");
        reveal_strlit(",\"dst_port\":");
        reveal_strlit(",\"protocol\":");
        reveal_strlit(",\"packets\":");
        lemma_decimal_no_newline(e.src_port as nat);
        lemma_decimal_no_newline(e.dst_port as nat);
        lemma_decimal_no_newline(e.packets as nat);
        assert(no_newline(ports_text(*e)));
    }
}

fn push_counts(out: &mut String, e: &VstpLog)
    requires
        number_text(e.duration@),
    ensures
        final(out)@ == old(out)@ + counts_text(*e),
        no_newline(counts_text(*e)),
{
    out.append(",\"bytes\":");
    push_decimal(out, e.bytes);
    out.append(",\"duration\":");
    out.append(e.duration.as_str());
    out.append(",\"checksum_errors\":");
    push_decimal(out, e.checksum_errors as u64);
    out.append(",\"dropped_packets\":");
    push_decimal(out, e.dropped_packets as u64);
    out.append(",\"retransmissions\":");
    push_decimal(out, e.retransmissions as u64);
    assert(out@ =~= old(out)@ + counts_text(*e));
    proof {
        broadcast use lemma_no_newline_concat;

        reveal_strlit(",\"bytes\":");
        reveal_strlit(",\"duration\":");
        reveal_strlit(",\"checksum_errors\":");
        reveal_strlit(",\"dropped_packets\":");
        reveal_strlit(",\"retransmissions\":");
        lemma_decimal_no_newline(e.bytes as nat);
        lemma_number_no_newline(e.duration@);
        lemma_decimal_no_newline(e.checksum_errors as nat);
        lemma_decimal_no_newline(e.dropped_packets as nat);
        lemma_decimal_no_newline(e.retransmissions as nat);
        assert(no_newline(counts_text(*e)));
    }
}

fn push_flags(out: &mut String, flags: &Vec<String>)
    ensures
        final(out)@ == old(out)@ + array_text(quoted_all(flags@)),
        no_newline(array_text(quoted_all(flags@))),
{
    let mut q: Vec<String> = Vec::new();
    let mut i: usize = 0;
    while i < flags.len()
        invariant
            i <= flags@.len(),
            q@.len() == i,
            forall|j: int| 0 <= j < i ==> (#[trigger] q@[j])@ == json_str_of(flags@[j]@),
            forall|j: int| 0 <= j < i ==> no_newline((#[trigger] q@[j])@),
        decreases flags@.len() - i,
    {
        let t = quote(flags[i].as_str());
        q.push(t);
        i += 1;
    }
    assert(texts(q@) =~= quoted_all(flags@));
    push_array(out, &q);
    proof {
        lemma_array_no_newline(quoted_all(flags@));
    }
}

fn push_sizes(out: &mut String, sizes: &Option<Vec<u32>>)
    ensures
        final(out)@ == old(out)@ + sizes_text(*sizes),
        no_newline(sizes_text(*sizes)),
{
    match sizes {
        None => {
            proof {
                reveal_strlit("null");
            }
            out.append("null");
        },
        Some(v) => {
            let mut d: Vec<String> = Vec::new();
            let mut i: usize = 0;
            while i < v.len()
                invariant
                    i <= v@.len(),
                    d@.len() == i,
                    forall|j: int| 0 <= j < i ==> (#[trigger] d@[j])@ == decimal(v@[j] as nat),
                decreases v@.len() - i,
            {
                d.push(decimal_string(v[i] as u64));
                i += 1;
            }
            assert(texts(d@) =~= decimals(v@));
            push_array(out, &d);
            proof {
                assert forall|i: int| 0 <= i < decimals(v@).len() implies no_newline(
                    #[trigger] decimals(v@)[i],
                ) by {
                    lemma_decimal_no_newline(v@[i] as nat);
                }
                lemma_array_no_newline(decimals(v@));
            }
        },
    }
}

fn push_arrivals(out: &mut String, arrivals: &Option<Vec<String>>)
    requires
        arrivals matches Some(v) ==> forall|i: int|
            0 <= i < v@.len() ==> number_text(#[trigger] v@[i]@),
    ensures
        final(out)@ == old(out)@ + arrivals_text(*arrivals),
        no_newline(arrivals_text(*arrivals)),
{
    match arrivals {
        None => {
            proof {
                reveal_strlit("null");
            }
            out.append("null");
        },
        Some(v) => {
            push_array(out, v);
            proof {
                assert forall|i: int| 0 <= i < texts(v@).len() implies no_newline(
                    #[trigger] texts(v@)[i],
                ) by {
                    lemma_number_no_newline(v@[i]@);
                }
                lemma_array_no_newline(texts(v@));
            }
        },
    }
}

/// The log line for `entry`: its compact JSON object and a line feed. It
/// fails exactly when a seconds value of the record is not number text.
pub fn encode_line(entry: &VstpLog) -> (r: Result<String, PersistenceFailure>)
    ensures
        r is Ok <==> encodable(*entry),
        r matches Ok(l) ==> l@ == line_text(*entry),
        r is Ok ==> no_newline(record_text(*entry)),
{
    if !is_number_text(entry.duration.as_str()) {
        return Err(PersistenceFailure);
    }
    match &entry.inter_arrivals {
        Some(v) => {
            if !all_number_texts(v) {
                return Err(PersistenceFailure);
            }
        },
        None => {},
    }
    let mut out = String::new();
    push_names(&mut out, entry);
    push_ports(&mut out, entry);
    push_counts(&mut out, entry);
    out.append(",\"flags\":");
    push_flags(&mut out, &entry.flags);
    out.append(",\"packet_sizes\":");
    push_sizes(&mut out, &entry.packet_sizes);
    out.append(",\"inter_arrivals\":");
    push_arrivals(&mut out, &entry.inter_arrivals);
    out.append("}");
    proof {
        reveal_strlit("\n");
    }
    out.append("\n");
    assert(out@ =~= line_text(*entry));
    proof {
        broadcast use lemma_no_newline_concat;

        reveal_strlit(",\"flags\":");
        reveal_strlit(",\"packet_sizes\":");
        reveal_strlit(",\"inter_arrivals\":");
        reveal_strlit("}");
        assert(no_newline(record_text(*entry)));
    }
    Ok(out)
}

} // verus!
