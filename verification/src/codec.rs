//! The fixed binary layout of a telemetry record, used wherever a record
//! crosses the administrative boundary byte for byte.
//!
//! Layout: identifier (16 bytes, little-endian), function tag (4 bytes),
//! variant payload (4 bytes), eleven argument slots of one presence byte
//! and an 8-byte value each, process identifier (4 bytes), and the signed
//! 64-bit capture time. Encoding and decoding round-trip exactly,
//! including the present/absent distinction of every argument slot.

use vstd::bytes::*;
use vstd::prelude::*;
use vstd::slice::{slice_index_get, slice_subrange};

use crate::telemetry::{Args, EdrResult, NtFunction, SyscallAllowed, TelemetryEntry};

verus! {

/// Size in bytes of one encoded telemetry record.
pub const TELEMETRY_ENTRY_BYTES: usize = 135;

/// Size in bytes of one encoded verdict.
pub const EDR_RESULT_BYTES: usize = 17;

/// Wire tag of each function variant.
pub open spec fn spec_tag(f: NtFunction) -> u32 {
    match f {
        NtFunction::NtOpenProcess(_) => 0,
        NtFunction::NtAllocateVM => 1,
        NtFunction::NtCreateThreadEx => 2,
        NtFunction::NtWriteVM => 3,
    }
}

/// Wire payload of each function variant: the target process identifier
/// for a process-open record, zero otherwise.
pub open spec fn spec_payload(f: NtFunction) -> u32 {
    match f {
        NtFunction::NtOpenProcess(pid) => pid,
        _ => 0,
    }
}

/// The function variant denoted by a wire tag and payload, or `None` for a
/// tag outside the known set.
pub open spec fn spec_fn_of_tag(tag: u32, payload: u32) -> Option<NtFunction> {
    if tag == 0 {
        Some(NtFunction::NtOpenProcess(payload))
    } else if tag == 1 {
        Some(NtFunction::NtAllocateVM)
    } else if tag == 2 {
        Some(NtFunction::NtCreateThreadEx)
    } else if tag == 3 {
        Some(NtFunction::NtWriteVM)
    } else {
        None
    }
}

/// One argument slot on the wire: a presence byte followed by the 8-byte
/// value, zero when absent.
pub open spec fn spec_encode_slot(o: Option<u64>) -> Seq<u8> {
    match o {
        None => seq![0u8] + spec_u64_to_le_bytes(0u64),
        Some(v) => seq![1u8] + spec_u64_to_le_bytes(v),
    }
}

/// Reads one 9-byte argument slot; a presence byte other than 0 or 1 marks
/// a malformed record.
pub open spec fn spec_decode_slot(s: Seq<u8>) -> Option<Option<u64>>
    recommends
        s.len() == 9,
{
    if s[0] == 0u8 {
        Some(None)
    } else if s[0] == 1u8 {
        Some(Some(spec_u64_from_le_bytes(s.subrange(1, 9))))
    } else {
        None
    }
}

/// The full fixed-layout encoding of one telemetry record.
pub open spec fn spec_encode(e: TelemetryEntry) -> Seq<u8> {
    spec_u128_to_le_bytes(e.uuid) + spec_u32_to_le_bytes(spec_tag(e.nt_function))
        + spec_u32_to_le_bytes(spec_payload(e.nt_function)) + spec_encode_slot(e.args.rcx)
        + spec_encode_slot(e.args.rdx) + spec_encode_slot(e.args.r8) + spec_encode_slot(e.args.r9)
        + spec_encode_slot(e.args.stack1) + spec_encode_slot(e.args.stack2) + spec_encode_slot(
        e.args.stack3,
    ) + spec_encode_slot(e.args.stack4) + spec_encode_slot(e.args.stack5) + spec_encode_slot(
        e.args.stack6,
    ) + spec_encode_slot(e.args.stack7) + spec_u32_to_le_bytes(e.pid) + spec_u64_to_le_bytes(
        e.time as u64,
    )
}

/// Decodes a fixed-layout record; `None` for a buffer of the wrong length,
/// an unknown function tag, or a malformed argument slot.
pub open spec fn spec_decode(s: Seq<u8>) -> Option<TelemetryEntry> {
    if s.len() != TELEMETRY_ENTRY_BYTES {
        None
    } else {
        let uuid = spec_u128_from_le_bytes(s.subrange(0, 16));
        let tag = spec_u32_from_le_bytes(s.subrange(16, 20));
        let payload = spec_u32_from_le_bytes(s.subrange(20, 24));
        let rcx = spec_decode_slot(s.subrange(24, 33));
        let rdx = spec_decode_slot(s.subrange(33, 42));
        let r8 = spec_decode_slot(s.subrange(42, 51));
        let r9 = spec_decode_slot(s.subrange(51, 60));
        let stack1 = spec_decode_slot(s.subrange(60, 69));
        let stack2 = spec_decode_slot(s.subrange(69, 78));
        let stack3 = spec_decode_slot(s.subrange(78, 87));
        let stack4 = spec_decode_slot(s.subrange(87, 96));
        let stack5 = spec_decode_slot(s.subrange(96, 105));
        let stack6 = spec_decode_slot(s.subrange(105, 114));
        let stack7 = spec_decode_slot(s.subrange(114, 123));
        let pid = spec_u32_from_le_bytes(s.subrange(123, 127));
        let time = spec_u64_from_le_bytes(s.subrange(127, 135)) as i64;
        match spec_fn_of_tag(tag, payload) {
            None => None,
            Some(nt_function) => if rcx is Some && rdx is Some && r8 is Some && r9 is Some
                && stack1 is Some && stack2 is Some && stack3 is Some && stack4 is Some
                && stack5 is Some && stack6 is Some && stack7 is Some {
                Some(
                    TelemetryEntry {
                        uuid,
                        nt_function,
                        args: Args {
                            rcx: rcx.unwrap(),
                            rdx: rdx.unwrap(),
                            r8: r8.unwrap(),
                            r9: r9.unwrap(),
                            stack1: stack1.unwrap(),
                            stack2: stack2.unwrap(),
                            stack3: stack3.unwrap(),
                            stack4: stack4.unwrap(),
                            stack5: stack5.unwrap(),
                            stack6: stack6.unwrap(),
                            stack7: stack7.unwrap(),
                        },
                        pid,
                        time,
                    },
                )
            } else {
                None
            },
        }
    }
}

/// An encoded argument slot is nine bytes and reads back as the value it
/// was written from.
proof fn lemma_slot_roundtrip(o: Option<u64>)
    ensures
        spec_encode_slot(o).len() == 9,
        spec_decode_slot(spec_encode_slot(o)) == Some(o),
{
    lemma_auto_spec_u64_to_from_le_bytes();
    match o {
        None => {
            assert((seq![0u8] + spec_u64_to_le_bytes(0u64)).subrange(1, 9) =~= spec_u64_to_le_bytes(
                0u64,
            ));
        },
        Some(v) => {
            assert((seq![1u8] + spec_u64_to_le_bytes(v)).subrange(1, 9) =~= spec_u64_to_le_bytes(
                v,
            ));
        },
    }
}

/// Law: encoding a telemetry record into the fixed binary layout and
/// decoding it reproduces every field exactly, including the
/// present/absent distinction of each argument slot.
pub proof fn lemma_encode_decode_roundtrip(e: TelemetryEntry)
    ensures
        spec_encode(e).len() == TELEMETRY_ENTRY_BYTES,
        spec_decode(spec_encode(e)) == Some(e),
{
    lemma_auto_spec_u128_to_from_le_bytes();
    lemma_auto_spec_u32_to_from_le_bytes();
    lemma_auto_spec_u64_to_from_le_bytes();
    lemma_slot_roundtrip(e.args.rcx);
    lemma_slot_roundtrip(e.args.rdx);
    lemma_slot_roundtrip(e.args.r8);
    lemma_slot_roundtrip(e.args.r9);
    lemma_slot_roundtrip(e.args.stack1);
    lemma_slot_roundtrip(e.args.stack2);
    lemma_slot_roundtrip(e.args.stack3);
    lemma_slot_roundtrip(e.args.stack4);
    lemma_slot_roundtrip(e.args.stack5);
    lemma_slot_roundtrip(e.args.stack6);
    lemma_slot_roundtrip(e.args.stack7);
    let s = spec_encode(e);
    assert(s.len() == 135);
    assert(s.subrange(0, 16) =~= spec_u128_to_le_bytes(e.uuid));
    assert(s.subrange(16, 20) =~= spec_u32_to_le_bytes(spec_tag(e.nt_function)));
    assert(s.subrange(20, 24) =~= spec_u32_to_le_bytes(spec_payload(e.nt_function)));
    assert(s.subrange(24, 33) =~= spec_encode_slot(e.args.rcx));
    assert(s.subrange(33, 42) =~= spec_encode_slot(e.args.rdx));
    assert(s.subrange(42, 51) =~= spec_encode_slot(e.args.r8));
    assert(s.subrange(51, 60) =~= spec_encode_slot(e.args.r9));
    assert(s.subrange(60, 69) =~= spec_encode_slot(e.args.stack1));
    assert(s.subrange(69, 78) =~= spec_encode_slot(e.args.stack2));
    assert(s.subrange(78, 87) =~= spec_encode_slot(e.args.stack3));
    assert(s.subrange(87, 96) =~= spec_encode_slot(e.args.stack4));
    assert(s.subrange(96, 105) =~= spec_encode_slot(e.args.stack5));
    assert(s.subrange(105, 114) =~= spec_encode_slot(e.args.stack6));
    assert(s.subrange(114, 123) =~= spec_encode_slot(e.args.stack7));
    assert(s.subrange(123, 127) =~= spec_u32_to_le_bytes(e.pid));
    assert(s.subrange(127, 135) =~= spec_u64_to_le_bytes(e.time as u64));
    let t = e.time;
    assert(((t as u64) as i64) == t) by (bit_vector);
}

/// The fixed-layout encoding of a whole log of records, in order.
pub open spec fn spec_encode_entries(se: Seq<TelemetryEntry>) -> Seq<u8>
    decreases se.len(),
{
    if se.len() == 0 {
        Seq::empty()
    } else {
        spec_encode(se[0]) + spec_encode_entries(se.drop_first())
    }
}

/// Encoding a log one record longer appends that record's bytes.
proof fn lemma_encode_entries_snoc(se: Seq<TelemetryEntry>, e: TelemetryEntry)
    ensures
        spec_encode_entries(se.push(e)) == spec_encode_entries(se) + spec_encode(e),
    decreases se.len(),
{
    if se.len() == 0 {
        assert(se.push(e).drop_first() =~= Seq::<TelemetryEntry>::empty());
        assert(se.push(e)[0] == e);
        assert(spec_encode_entries(Seq::<TelemetryEntry>::empty()) == Seq::<u8>::empty());
        assert(spec_encode_entries(se.push(e)) == spec_encode(e) + Seq::<u8>::empty());
        assert(spec_encode_entries(se) == Seq::<u8>::empty());
        assert(spec_encode(e) + Seq::<u8>::empty() =~= Seq::<u8>::empty() + spec_encode(e));
    } else {
        let a = spec_encode(se[0]);
        let b = spec_encode_entries(se.drop_first());
        let c = spec_encode(e);
        assert(se.push(e)[0] == se[0]);
        assert(se.push(e).drop_first() =~= se.drop_first().push(e));
        lemma_encode_entries_snoc(se.drop_first(), e);
        assert(spec_encode_entries(se.push(e)) == a + spec_encode_entries(se.push(e).drop_first()));
        assert(spec_encode_entries(se.push(e).drop_first()) == b + c);
        assert(spec_encode_entries(se) == a + b);
        assert(a + (b + c) =~= (a + b) + c);
    }
}

/// An encoded log is exactly one record length per record.
pub proof fn lemma_encode_entries_len(se: Seq<TelemetryEntry>)
    ensures
        spec_encode_entries(se).len() == se.len() * TELEMETRY_ENTRY_BYTES,
    decreases se.len(),
{
    if se.len() == 0 {
    } else {
        lemma_encode_decode_roundtrip(se[0]);
        lemma_encode_entries_len(se.drop_first());
    }
}

/// Decodes a buffer that is supposed to hold exactly `count` records;
/// `None` when the length does not match or any record is malformed.
pub open spec fn spec_decode_entries(s: Seq<u8>, count: nat) -> Option<Seq<TelemetryEntry>>
    decreases count,
{
    if s.len() != count * TELEMETRY_ENTRY_BYTES {
        None
    } else if count == 0 {
        Some(Seq::empty())
    } else {
        match spec_decode(s.subrange(0, TELEMETRY_ENTRY_BYTES as int)) {
            None => None,
            Some(e) => match spec_decode_entries(
                s.skip(TELEMETRY_ENTRY_BYTES as int),
                (count - 1) as nat,
            ) {
                None => None,
                Some(rest) => Some(seq![e] + rest),
            },
        }
    }
}

/// Law: an encoded log of any length decodes back to exactly the records
/// it was encoded from, when drained with the matching count.
pub proof fn lemma_encode_entries_roundtrip(se: Seq<TelemetryEntry>)
    ensures
        spec_decode_entries(spec_encode_entries(se), se.len()) == Some(se),
    decreases se.len(),
{
    lemma_encode_entries_len(se);
    if se.len() == 0 {
        assert(spec_decode_entries(spec_encode_entries(se), se.len()) =~~= Some(
            Seq::<TelemetryEntry>::empty(),
        ));
        assert(se =~= Seq::<TelemetryEntry>::empty());
    } else {
        let s = spec_encode_entries(se);
        lemma_encode_decode_roundtrip(se[0]);
        lemma_encode_entries_len(se.drop_first());
        assert(s.subrange(0, TELEMETRY_ENTRY_BYTES as int) =~= spec_encode(se[0]));
        assert(s.skip(TELEMETRY_ENTRY_BYTES as int) =~= spec_encode_entries(se.drop_first()));
        lemma_encode_entries_roundtrip(se.drop_first());
        assert(seq![se[0]] + se.drop_first() =~= se);
    }
}

/// Encodes a whole log of records, in order.
pub fn encode_entries(entries: &Vec<TelemetryEntry>) -> (out: Vec<u8>)
    ensures
        out@ == spec_encode_entries(entries@),
        out@.len() == entries@.len() * TELEMETRY_ENTRY_BYTES,
{
    let mut out: Vec<u8> = Vec::new();
    let n = entries.len();
    let mut i: usize = 0;
    proof {
        assert(entries@.take(0) =~= Seq::<TelemetryEntry>::empty());
    }
    while i < n
        invariant
            n == entries@.len(),
            i <= n,
            out@ == spec_encode_entries(entries@.take(i as int)),
        decreases n - i,
    {
        let mut piece = encode_entry(&entries[i]);
        out.append(&mut piece);
        proof {
            assert(entries@.take(i + 1) =~= entries@.take(i as int).push(entries@[i as int]));
            lemma_encode_entries_snoc(entries@.take(i as int), entries@[i as int]);
        }
        i = i + 1;
    }
    proof {
        assert(entries@.take(n as int) =~= entries@);
        lemma_encode_entries_len(entries@);
    }
    out
}

/// Decodes a buffer that is supposed to hold exactly `count` records;
/// `None` when the length does not match or any record is malformed.
pub fn decode_entries(s: &[u8], count: usize) -> (r: Option<Vec<TelemetryEntry>>)
    ensures
        match r {
            Some(v) => spec_decode_entries(s@, count as nat) == Some(v@),
            None => spec_decode_entries(s@, count as nat) is None,
        },
    decreases count,
{
    let len = s.len();
    let total = match count.checked_mul(TELEMETRY_ENTRY_BYTES) {
        Some(t) => t,
        None => {
            proof {
                assert(s@.len() < count * TELEMETRY_ENTRY_BYTES);
            }
            return None;
        },
    };
    if len != total {
        return None;
    }
    if count == 0 {
        return Some(Vec::new());
    }
    let e = match decode_entry(slice_subrange(s, 0, TELEMETRY_ENTRY_BYTES)) {
        Some(e) => e,
        None => {
            return None;
        },
    };
    let mut rest = match decode_entries(slice_subrange(s, TELEMETRY_ENTRY_BYTES, len), count - 1) {
        Some(v) => v,
        None => {
            return None;
        },
    };
    let mut out: Vec<TelemetryEntry> = Vec::new();
    out.push(e);
    out.append(&mut rest);
    proof {
        assert(s@.subrange(TELEMETRY_ENTRY_BYTES as int, s@.len() as int) =~= s@.skip(
            TELEMETRY_ENTRY_BYTES as int,
        ));
        assert(out@ =~= seq![e] + spec_decode_entries(
            s@.skip(TELEMETRY_ENTRY_BYTES as int),
            (count - 1) as nat,
        ).unwrap());
    }
    Some(out)
}

/// A verdict's wire form — the 16-byte identifier little-endian, then
/// one byte that is zero for deny and one for allow.
pub open spec fn spec_encode_verdict(v: EdrResult) -> Seq<u8> {
    spec_u128_to_le_bytes(v.uuid) + seq![
        match v.allowed {
            SyscallAllowed::Yes => 1u8,
            SyscallAllowed::No => 0u8,
        },
    ]
}

/// Reads a verdict off the wire; any nonzero flag byte counts as allow.
pub open spec fn spec_decode_verdict(s: Seq<u8>) -> Option<EdrResult> {
    if s.len() != EDR_RESULT_BYTES {
        None
    } else {
        Some(
            EdrResult {
                uuid: spec_u128_from_le_bytes(s.subrange(0, 16)),
                allowed: if s[16] == 0u8 {
                    SyscallAllowed::No
                } else {
                    SyscallAllowed::Yes
                },
            },
        )
    }
}

/// Law: a verdict round-trips exactly through its wire form.
pub proof fn lemma_verdict_roundtrip(v: EdrResult)
    ensures
        spec_encode_verdict(v).len() == EDR_RESULT_BYTES,
        spec_decode_verdict(spec_encode_verdict(v)) == Some(v),
{
    lemma_auto_spec_u128_to_from_le_bytes();
    let s = spec_encode_verdict(v);
    assert(s.subrange(0, 16) =~= spec_u128_to_le_bytes(v.uuid));
}

/// Encodes one verdict into its wire form.
pub fn encode_verdict(v: &EdrResult) -> (out: Vec<u8>)
    ensures
        out@ == spec_encode_verdict(*v),
        out@.len() == EDR_RESULT_BYTES,
{
    let mut out = u128_to_le_bytes(v.uuid);
    match v.allowed {
        SyscallAllowed::Yes => out.push(1u8),
        SyscallAllowed::No => out.push(0u8),
    }
    proof {
        assert(out@ =~= spec_encode_verdict(*v));
        lemma_verdict_roundtrip(*v);
    }
    out
}

/// Reads a verdict off the wire; `None` for a buffer of the wrong length.
pub fn decode_verdict(s: &[u8]) -> (r: Option<EdrResult>)
    ensures
        r == spec_decode_verdict(s@),
{
    if s.len() != EDR_RESULT_BYTES {
        return None;
    }
    let uuid = u128_from_le_bytes(slice_subrange(s, 0, 16));
    let flag = *slice_index_get(s, 16);
    Some(
        EdrResult {
            uuid,
            allowed: if flag == 0 {
                SyscallAllowed::No
            } else {
                SyscallAllowed::Yes
            },
        },
    )
}

/// The executable wire tag of a function variant.
pub fn nt_function_tag(f: &NtFunction) -> (t: u32)
    ensures
        t == spec_tag(*f),
{
    match f {
        NtFunction::NtOpenProcess(_) => 0,
        NtFunction::NtAllocateVM => 1,
        NtFunction::NtCreateThreadEx => 2,
        NtFunction::NtWriteVM => 3,
    }
}

/// The executable wire payload of a function variant.
pub fn nt_function_payload(f: &NtFunction) -> (p: u32)
    ensures
        p == spec_payload(*f),
{
    match f {
        NtFunction::NtOpenProcess(pid) => *pid,
        _ => 0,
    }
}

/// The executable inverse of the tag/payload mapping.
pub fn nt_function_of_tag(tag: u32, payload: u32) -> (r: Option<NtFunction>)
    ensures
        r == spec_fn_of_tag(tag, payload),
{
    if tag == 0 {
        Some(NtFunction::NtOpenProcess(payload))
    } else if tag == 1 {
        Some(NtFunction::NtAllocateVM)
    } else if tag == 2 {
        Some(NtFunction::NtCreateThreadEx)
    } else if tag == 3 {
        Some(NtFunction::NtWriteVM)
    } else {
        None
    }
}

/// Appends one encoded argument slot.
fn encode_slot_into(out: &mut Vec<u8>, o: Option<u64>)
    ensures
        final(out)@ == old(out)@ + spec_encode_slot(o),
{
    match o {
        None => {
            out.push(0u8);
            let mut v = u64_to_le_bytes(0u64);
            out.append(&mut v);
        },
        Some(x) => {
            out.push(1u8);
            let mut v = u64_to_le_bytes(x);
            out.append(&mut v);
        },
    }
    proof {
        assert(out@ =~= old(out)@ + spec_encode_slot(o));
    }
}

/// Encodes one telemetry record into its fixed binary layout.
pub fn encode_entry(e: &TelemetryEntry) -> (out: Vec<u8>)
    ensures
        out@ == spec_encode(*e),
        out@.len() == TELEMETRY_ENTRY_BYTES,
{
    let mut out = u128_to_le_bytes(e.uuid);
    let mut piece = u32_to_le_bytes(nt_function_tag(&e.nt_function));
    out.append(&mut piece);
    let mut piece = u32_to_le_bytes(nt_function_payload(&e.nt_function));
    out.append(&mut piece);
    encode_slot_into(&mut out, e.args.rcx);
    encode_slot_into(&mut out, e.args.rdx);
    encode_slot_into(&mut out, e.args.r8);
    encode_slot_into(&mut out, e.args.r9);
    encode_slot_into(&mut out, e.args.stack1);
    encode_slot_into(&mut out, e.args.stack2);
    encode_slot_into(&mut out, e.args.stack3);
    encode_slot_into(&mut out, e.args.stack4);
    encode_slot_into(&mut out, e.args.stack5);
    encode_slot_into(&mut out, e.args.stack6);
    encode_slot_into(&mut out, e.args.stack7);
    let mut piece = u32_to_le_bytes(e.pid);
    out.append(&mut piece);
    let time_bits: u64 = #[verifier::truncate] (e.time as u64);
    let mut piece = u64_to_le_bytes(time_bits);
    out.append(&mut piece);
    proof {
        lemma_encode_decode_roundtrip(*e);
    }
    out
}

/// Reads one 9-byte argument slot.
fn decode_slot(s: &[u8]) -> (r: Option<Option<u64>>)
    requires
        s@.len() == 9,
    ensures
        r == spec_decode_slot(s@),
{
    let presence = *slice_index_get(s, 0);
    if presence == 0 {
        Some(None)
    } else if presence == 1 {
        let v = u64_from_le_bytes(slice_subrange(s, 1, 9));
        Some(Some(v))
    } else {
        None
    }
}

/// Decodes one fixed-layout record; `None` for a buffer of the wrong
/// length, an unknown function tag, or a malformed argument slot.
pub fn decode_entry(s: &[u8]) -> (r: Option<TelemetryEntry>)
    ensures
        r == spec_decode(s@),
{
    if s.len() != TELEMETRY_ENTRY_BYTES {
        return None;
    }
    let uuid = u128_from_le_bytes(slice_subrange(s, 0, 16));
    let tag = u32_from_le_bytes(slice_subrange(s, 16, 20));
    let payload = u32_from_le_bytes(slice_subrange(s, 20, 24));
    let nt_function = match nt_function_of_tag(tag, payload) {
        Some(f) => f,
        None => {
            return None;
        },
    };
    let rcx = match decode_slot(slice_subrange(s, 24, 33)) {
        Some(o) => o,
        None => {
            return None;
        },
    };
    let rdx = match decode_slot(slice_subrange(s, 33, 42)) {
        Some(o) => o,
        None => {
            return None;
        },
    };
    let r8 = match decode_slot(slice_subrange(s, 42, 51)) {
        Some(o) => o,
        None => {
            return None;
        },
    };
    let r9 = match decode_slot(slice_subrange(s, 51, 60)) {
        Some(o) => o,
        None => {
            return None;
        },
    };
    let stack1 = match decode_slot(slice_subrange(s, 60, 69)) {
        Some(o) => o,
        None => {
            return None;
        },
    };
    let stack2 = match decode_slot(slice_subrange(s, 69, 78)) {
        Some(o) => o,
        None => {
            return None;
        },
    };
    let stack3 = match decode_slot(slice_subrange(s, 78, 87)) {
        Some(o) => o,
        None => {
            return None;
        },
    };
    let stack4 = match decode_slot(slice_subrange(s, 87, 96)) {
        Some(o) => o,
        None => {
            return None;
        },
    };
    let stack5 = match decode_slot(slice_subrange(s, 96, 105)) {
        Some(o) => o,
        None => {
            return None;
        },
    };
    let stack6 = match decode_slot(slice_subrange(s, 105, 114)) {
        Some(o) => o,
        None => {
            return None;
        },
    };
    let stack7 = match decode_slot(slice_subrange(s, 114, 123)) {
        Some(o) => o,
        None => {
            return None;
        },
    };
    let pid = u32_from_le_bytes(slice_subrange(s, 123, 127));
    let time_bits = u64_from_le_bytes(slice_subrange(s, 127, 135));
    let time: i64 = #[verifier::truncate] (time_bits as i64);
    Some(
        TelemetryEntry {
            uuid,
            nt_function,
            args: Args {
                rcx,
                rdx,
                r8,
                r9,
                stack1,
                stack2,
                stack3,
                stack4,
                stack5,
                stack6,
                stack7,
            },
            pid,
            time,
        },
    )
}

} // verus!
