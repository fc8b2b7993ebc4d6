use vstd::prelude::*;
use crate::error::DecodeError;
use crate::instruction::{GreetingInstruction, InstructionModel, wf_instruction};
use crate::state::{GreetingAccountState, RecordModel, record_encodable};
use crate::result_view;

verus! {

// ---------------------------------------------------------------------------
// 32-bit little-endian length prefixes and counters
// ---------------------------------------------------------------------------
/// The four little-endian bytes of a 32-bit value.
pub open spec fn le32(n: u32) -> Seq<u8> {
    seq![
        (n % 0x100) as u8,
        ((n / 0x100) % 0x100) as u8,
        ((n / 0x1_0000) % 0x100) as u8,
        ((n / 0x100_0000) % 0x100) as u8,
    ]
}

/// The value held by four little-endian bytes.
pub open spec fn from_le32(s: Seq<u8>) -> int {
    s[0] + 0x100 * (s[1] as int) + 0x1_0000 * (s[2] as int) + 0x100_0000 * (s[3] as int)
}

/// Reading back the four bytes of a value yields that value.
pub proof fn lemma_le32_round_trip(n: u32)
    ensures
        from_le32(le32(n)) == n,
{
    assert(n % 0x100 + 0x100 * ((n / 0x100) % 0x100) + 0x1_0000 * ((n / 0x1_0000) % 0x100)
        + 0x100_0000 * ((n / 0x100_0000) % 0x100) == n) by (nonlinear_arith);
}

/// Four bytes always read back as a value that fits in 32 bits.
pub proof fn lemma_from_le32_bounds(s: Seq<u8>)
    ensures
        0 <= from_le32(s) < 0x1_0000_0000,
{
}

// ---------------------------------------------------------------------------
// Length-prefixed text fields
// ---------------------------------------------------------------------------
/// Reads one length-prefixed field at `pos`: four little-endian length
/// bytes, then that many raw bytes. Yields the field and the position just
/// past it, or nothing when the buffer ends too early.
pub open spec fn take_field(s: Seq<u8>, pos: int) -> Option<(Seq<u8>, int)> {
    if pos + 4 > s.len() {
        None
    } else {
        let n = from_le32(s.subrange(pos, pos + 4));
        if pos + 4 + n > s.len() {
            None
        } else {
            Some((s.subrange(pos + 4, pos + 4 + n), pos + 4 + n))
        }
    }
}

/// A field read back out of an encoding lands exactly on the field that was
/// written: at position `a.len()` the bytes `a + le32(|f|) + f + rest` hold
/// the field `f`, ending just before `rest`.
pub proof fn lemma_take_field_of_encoding(a: Seq<u8>, f: Seq<u8>, rest: Seq<u8>)
    requires
        f.len() < 0x1_0000_0000,
    ensures
        take_field(a + le32(f.len() as u32) + f + rest, a.len() as int) == Some(
            (f, a.len() as int + 4 + f.len() as int),
        ),
{
    let s = a + le32(f.len() as u32) + f + rest;
    let pos = a.len() as int;
    assert(s.len() == a.len() + 4 + f.len() + rest.len());
    assert(s.subrange(pos, pos + 4) =~= le32(f.len() as u32));
    lemma_le32_round_trip(f.len() as u32);
    assert(from_le32(s.subrange(pos, pos + 4)) == f.len());
    assert(s.subrange(pos + 4, pos + 4 + f.len()) =~= f);
}

// ---------------------------------------------------------------------------
// The wire layout
// ---------------------------------------------------------------------------
/// The fixed, versionless encoding of an instruction: a one-byte tag (0 for
/// creation, 1 for update), then each text field as a 4-byte little-endian
/// length prefix followed by that many raw bytes.
pub open spec fn spec_encode_instruction(i: InstructionModel) -> Seq<u8> {
    match i {
        InstructionModel::CreateGreeting { name, message } => {
            seq![0u8] + le32(name.len() as u32) + name + le32(message.len() as u32) + message
        },
        InstructionModel::SetGreeting { message } => {
            seq![1u8] + le32(message.len() as u32) + message
        },
    }
}

/// What decoding instruction bytes yields: the instruction whose encoding
/// the bytes are, `UnknownVariant` for an unrecognized tag, `Truncated`
/// when a declared length runs past the end, and `Malformed` when bytes
/// remain after a complete instruction.
pub open spec fn spec_decode_instruction(s: Seq<u8>) -> Result<InstructionModel, DecodeError> {
    if s.len() == 0 {
        Err(DecodeError::Truncated)
    } else if s[0] == 0 {
        match take_field(s, 1) {
            None => Err(DecodeError::Truncated),
            Some((name, p)) => match take_field(s, p) {
                None => Err(DecodeError::Truncated),
                Some((message, q)) => if q == s.len() {
                    Ok(InstructionModel::CreateGreeting { name, message })
                } else {
                    Err(DecodeError::Malformed)
                },
            },
        }
    } else if s[0] == 1 {
        match take_field(s, 1) {
            None => Err(DecodeError::Truncated),
            Some((message, q)) => if q == s.len() {
                Ok(InstructionModel::SetGreeting { message })
            } else {
                Err(DecodeError::Malformed)
            },
        }
    } else {
        Err(DecodeError::UnknownVariant)
    }
}

/// The persisted encoding of a record: 32 raw authority bytes, the two
/// length-prefixed text fields, then the 4-byte little-endian counter.
pub open spec fn spec_encode_record(r: RecordModel) -> Seq<u8> {
    r.authority + le32(r.name.len() as u32) + r.name + le32(r.message.len() as u32) + r.message
        + le32(r.update_count)
}

/// What decoding a stored buffer yields. Bytes past the counter are
/// tolerated: a record sits in a buffer pre-allocated at the fixed maximum
/// size, so its encoding need not fill the buffer.
pub open spec fn spec_decode_record(s: Seq<u8>) -> Result<RecordModel, DecodeError> {
    if s.len() < 32 {
        Err(DecodeError::Truncated)
    } else {
        match take_field(s, 32) {
            None => Err(DecodeError::Truncated),
            Some((name, p)) => match take_field(s, p) {
                None => Err(DecodeError::Truncated),
                Some((message, q)) => if q + 4 > s.len() {
                    Err(DecodeError::Truncated)
                } else {
                    Ok(
                        RecordModel {
                            authority: s.subrange(0, 32),
                            name: name,
                            message: message,
                            update_count: from_le32(s.subrange(q, q + 4)) as u32,
                        },
                    )
                },
            },
        }
    }
}

/// A record read back from a buffer has a 32-byte authority and text
/// lengths that fit a 32-bit prefix, so it can be encoded again.
pub proof fn lemma_decode_record_encodable(s: Seq<u8>)
    requires
        spec_decode_record(s) is Ok,
    ensures
        record_encodable(spec_decode_record(s).unwrap()),
{
}

// ---------------------------------------------------------------------------
// Round trips
// ---------------------------------------------------------------------------
/// Concatenation of byte strings is associative.
proof fn lemma_add_assoc(a: Seq<u8>, b: Seq<u8>, c: Seq<u8>)
    ensures
        (a + b) + c == a + (b + c),
{
    assert((a + b) + c =~= a + (b + c));
}

/// The empty byte string is a right identity of concatenation.
proof fn lemma_add_empty(a: Seq<u8>)
    ensures
        a + Seq::<u8>::empty() == a,
{
    assert(a + Seq::<u8>::empty() =~= a);
}

/// The prefix of a concatenation is its first operand.
proof fn lemma_concat_prefix(a: Seq<u8>, b: Seq<u8>)
    ensures
        (a + b).subrange(0, a.len() as int) == a,
{
    assert((a + b).subrange(0, a.len() as int) =~= a);
}

/// The suffix of a concatenation is its second operand.
proof fn lemma_concat_suffix(a: Seq<u8>, b: Seq<u8>)
    ensures
        (a + b).subrange(a.len() as int, a.len() as int + b.len() as int) == b,
{
    assert((a + b).subrange(a.len() as int, a.len() as int + b.len() as int) =~= b);
}

/// Law: decoding the encoding of any instruction whose field lengths fit
/// the wire format yields exactly that instruction.
#[verifier::rlimit(100)]
pub proof fn lemma_instruction_round_trip(i: InstructionModel)
    requires
        wf_instruction(i),
    ensures
        spec_decode_instruction(spec_encode_instruction(i)) == Ok::<
            InstructionModel,
            DecodeError,
        >(i),
{
    match i {
        InstructionModel::CreateGreeting { name, message } => {
            let s = spec_encode_instruction(i);
            let nl = name.len() as int;
            let ml = message.len() as int;
            let t = seq![0u8];
            let l1 = le32(name.len() as u32);
            let l2 = le32(message.len() as u32);
            assert(l1.len() == 4 && l2.len() == 4);
            let a2 = t + l1 + name;
            let rest1 = l2 + message;
            assert(s == a2 + l2 + message);
            lemma_add_assoc(a2, l2, message);
            assert(s == a2 + rest1);
            lemma_take_field_of_encoding(t, name, rest1);
            assert(take_field(s, 1) == Some((name, 5 + nl)));
            lemma_add_empty(a2 + l2 + message);
            lemma_take_field_of_encoding(a2, message, Seq::<u8>::empty());
            assert(a2.len() == 5 + nl);
            assert(take_field(s, 5 + nl) == Some((message, 5 + nl + 4 + ml)));
            assert(s.len() == 5 + nl + 4 + ml);
            assert(t[0] == 0);
            assert((t + l1)[0] == 0);
            assert(a2[0] == 0);
            assert(s[0] == 0);
        },
        InstructionModel::SetGreeting { message } => {
            let s = spec_encode_instruction(i);
            let ml = message.len() as int;
            let t = seq![1u8];
            let l1 = le32(message.len() as u32);
            assert(l1.len() == 4);
            lemma_add_empty(t + l1 + message);
            lemma_take_field_of_encoding(t, message, Seq::<u8>::empty());
            assert(take_field(s, 1) == Some((message, 5 + ml)));
            assert(s.len() == 5 + ml);
            assert(t[0] == 1);
            assert((t + l1)[0] == 1);
            assert(s[0] == 1);
        },
    }
}

/// Law: decoding the encoding of any encodable record yields exactly that
/// record.
#[verifier::rlimit(100)]
pub proof fn lemma_record_round_trip(r: RecordModel)
    requires
        record_encodable(r),
    ensures
        spec_decode_record(spec_encode_record(r)) == Ok::<RecordModel, DecodeError>(r),
{
    let s = spec_encode_record(r);
    let nl = r.name.len() as int;
    let ml = r.message.len() as int;
    let auth = r.authority;
    let l1 = le32(r.name.len() as u32);
    let l2 = le32(r.message.len() as u32);
    let lc = le32(r.update_count);
    assert(l1.len() == 4 && l2.len() == 4 && lc.len() == 4);
    let a2 = auth + l1 + r.name;
    let x = a2 + l2 + r.message;
    assert(s == x + lc);
    lemma_add_assoc(a2 + l2, r.message, lc);
    lemma_add_assoc(a2, l2, r.message + lc);
    let rest1 = l2 + (r.message + lc);
    assert(s == a2 + rest1);
    lemma_take_field_of_encoding(auth, r.name, rest1);
    assert(take_field(s, 32) == Some((r.name, 36 + nl)));
    lemma_take_field_of_encoding(a2, r.message, lc);
    assert(a2.len() == 36 + nl);
    let q: int = 36 + nl + 4 + ml;
    assert(take_field(s, 36 + nl) == Some((r.message, q)));
    assert(s.len() == q + 4);
    lemma_add_assoc(auth, l1, r.name);
    lemma_add_assoc(auth, l1 + r.name, rest1);
    lemma_concat_prefix(auth, (l1 + r.name) + rest1);
    assert(s.subrange(0, 32) == auth);
    lemma_concat_suffix(x, lc);
    assert(x.len() == q);
    assert(s.subrange(q, q + 4) == lc);
    lemma_le32_round_trip(r.update_count);
    assert(from_le32(s.subrange(q, q + 4)) == r.update_count);
}

/// Law: every well-formed record's encoding fits in the fixed maximum
/// space that creation pre-allocates.
pub proof fn lemma_record_fits_max_space(r: RecordModel)
    requires
        crate::state::record_wf(r),
    ensures
        spec_encode_record(r).len() <= GreetingAccountState::spec_max_space(),
{
}

// ---------------------------------------------------------------------------
// Executable codec
// ---------------------------------------------------------------------------
/// Returns a copy of the given bytes.
pub fn copy_bytes(v: &Vec<u8>) -> (r: Vec<u8>)
    ensures
        r@ == v@,
{
    let r = copy_range(v, 0, v.len());
    proof {
        assert(v@.subrange(0, v@.len() as int) =~= v@);
    }
    r
}

/// Returns the bytes of `v` from `start` (inclusive) to `end` (exclusive).
pub fn copy_range(v: &Vec<u8>, start: usize, end: usize) -> (r: Vec<u8>)
    requires
        start <= end <= v@.len(),
    ensures
        r@ == v@.subrange(start as int, end as int),
{
    let mut r: Vec<u8> = Vec::new();
    let mut i: usize = start;
    while i < end
        invariant
            start <= i <= end <= v@.len(),
            r@ == v@.subrange(start as int, i as int),
        decreases end - i,
    {
        r.push(v[i]);
        i = i + 1;
        proof {
            assert(v@.subrange(start as int, i as int) =~= v@.subrange(
                start as int,
                i - 1,
            ).push(v@[i - 1]));
        }
    }
    r
}

/// Reads the 32-bit little-endian value at `pos`.
fn read_u32_at(v: &Vec<u8>, pos: usize) -> (n: u32)
    requires
        pos + 4 <= v@.len(),
    ensures
        n == from_le32(v@.subrange(pos as int, pos + 4)),
{
    // Binding the length ties `v@.len()` to a machine word, so the index
    // arithmetic below is known not to overflow.
    let _vlen: usize = v.len();
    let b0 = v[pos];
    let b1 = v[pos + 1];
    let b2 = v[pos + 2];
    let b3 = v[pos + 3];
    let n: u32 = b0 as u32 + 0x100 * (b1 as u32) + 0x1_0000 * (b2 as u32) + 0x100_0000 * (
    b3 as u32);
    proof {
        let s = v@.subrange(pos as int, pos + 4);
        assert(s[0] == b0 && s[1] == b1 && s[2] == b2 && s[3] == b3);
    }
    n
}

/// Appends the four little-endian bytes of `n`.
fn push_le32(out: &mut Vec<u8>, n: u32)
    ensures
        final(out)@ == old(out)@ + le32(n),
{
    out.push((n % 0x100) as u8);
    out.push(((n / 0x100) % 0x100) as u8);
    out.push(((n / 0x1_0000) % 0x100) as u8);
    out.push(((n / 0x100_0000) % 0x100) as u8);
    proof {
        assert(out@ =~= old(out)@ + le32(n));
    }
}

/// Appends all of `b`.
fn push_bytes(out: &mut Vec<u8>, b: &Vec<u8>)
    ensures
        final(out)@ == old(out)@ + b@,
{
    let mut i: usize = 0;
    while i < b.len()
        invariant
            i <= b@.len(),
            out@ == old(out)@ + b@.subrange(0, i as int),
        decreases b@.len() - i,
    {
        out.push(b[i]);
        i = i + 1;
        proof {
            assert(old(out)@ + b@.subrange(0, i as int) =~= (old(out)@ + b@.subrange(
                0,
                i - 1,
            )).push(b@[i - 1]));
        }
    }
    proof {
        assert(b@.subrange(0, b@.len() as int) =~= b@);
    }
}

/// Reads one length-prefixed field at `pos`, as [`take_field`] describes.
fn read_field(v: &Vec<u8>, pos: usize) -> (r: Option<(Vec<u8>, usize)>)
    requires
        pos <= v@.len(),
    ensures
        match r {
            Some(fx) => take_field(v@, pos as int) == Some((fx.0@, fx.1 as int)) && fx.1
                <= v@.len(),
            None => take_field(v@, pos as int) is None,
        },
{
    if v.len() - pos < 4 {
        return None;
    }
    let n = read_u32_at(v, pos);
    proof {
        lemma_from_le32_bounds(v@.subrange(pos as int, pos + 4));
    }
    let n_us = n as usize;
    if n_us > v.len() - (pos + 4) {
        return None;
    }
    let field = copy_range(v, pos + 4, pos + 4 + n_us);
    Some((field, pos + 4 + n_us))
}

/// Encodes an instruction into the wire layout.
pub fn encode_instruction(instr: &GreetingInstruction) -> (r: Vec<u8>)
    requires
        wf_instruction(instr@),
    ensures
        r@ == spec_encode_instruction(instr@),
{
    let mut out: Vec<u8> = Vec::new();
    match instr {
        GreetingInstruction::CreateGreeting { name, message } => {
            out.push(0);
            push_le32(&mut out, name.len() as u32);
            push_bytes(&mut out, name);
            push_le32(&mut out, message.len() as u32);
            push_bytes(&mut out, message);
            proof {
                assert(out@ =~= spec_encode_instruction(instr@));
            }
        },
        GreetingInstruction::SetGreeting { message } => {
            out.push(1);
            push_le32(&mut out, message.len() as u32);
            push_bytes(&mut out, message);
            proof {
                assert(out@ =~= spec_encode_instruction(instr@));
            }
        },
    }
    out
}

/// Decodes instruction bytes, exactly as [`spec_decode_instruction`]
/// describes.
pub fn decode_instruction(bytes: &Vec<u8>) -> (r: Result<GreetingInstruction, DecodeError>)
    ensures
        result_view(r) == spec_decode_instruction(bytes@),
{
    if bytes.len() == 0 {
        return Err(DecodeError::Truncated);
    }
    let tag = bytes[0];
    if tag == 0 {
        match read_field(bytes, 1) {
            None => Err(DecodeError::Truncated),
            Some((name, p)) => match read_field(bytes, p) {
                None => Err(DecodeError::Truncated),
                Some((message, q)) => {
                    if q == bytes.len() {
                        Ok(GreetingInstruction::CreateGreeting { name, message })
                    } else {
                        Err(DecodeError::Malformed)
                    }
                },
            },
        }
    } else if tag == 1 {
        match read_field(bytes, 1) {
            None => Err(DecodeError::Truncated),
            Some((message, q)) => {
                if q == bytes.len() {
                    Ok(GreetingInstruction::SetGreeting { message })
                } else {
                    Err(DecodeError::Malformed)
                }
            },
        }
    } else {
        Err(DecodeError::UnknownVariant)
    }
}

/// Encodes a record into its persisted layout.
pub fn encode_record(rec: &GreetingAccountState) -> (r: Vec<u8>)
    requires
        record_encodable(rec@),
    ensures
        r@ == spec_encode_record(rec@),
{
    let mut out: Vec<u8> = Vec::new();
    push_bytes(&mut out, &rec.authority);
    push_le32(&mut out, rec.name.len() as u32);
    push_bytes(&mut out, &rec.name);
    push_le32(&mut out, rec.message.len() as u32);
    push_bytes(&mut out, &rec.message);
    push_le32(&mut out, rec.update_count);
    proof {
        assert(out@ =~= spec_encode_record(rec@));
    }
    out
}

/// Decodes a stored buffer, exactly as [`spec_decode_record`] describes.
pub fn decode_record(bytes: &Vec<u8>) -> (r: Result<GreetingAccountState, DecodeError>)
    ensures
        result_view(r) == spec_decode_record(bytes@),
{
    if bytes.len() < 32 {
        return Err(DecodeError::Truncated);
    }
    let authority = copy_range(bytes, 0, 32);
    match read_field(bytes, 32) {
        None => Err(DecodeError::Truncated),
        Some((name, p)) => match read_field(bytes, p) {
            None => Err(DecodeError::Truncated),
            Some((message, q)) => {
                if bytes.len() - q < 4 {
                    return Err(DecodeError::Truncated);
                }
                let count = read_u32_at(bytes, q);
                proof {
                    lemma_from_le32_bounds(bytes@.subrange(q as int, q + 4));
                }
                Ok(
                    GreetingAccountState {
                        authority,
                        name,
                        message,
                        update_count: count,
                    },
                )
            },
        },
    }
}

} // verus!
