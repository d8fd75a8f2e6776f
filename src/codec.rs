use vstd::prelude::*;
use crate::address::{Address, AddressKind, Discrimination};
use crate::transaction::{Input, Output, Transaction, TransactionView};

verus! {

/// A 64-bit integer as eight bytes, most significant first.
pub open spec fn enc_u64(v: u64) -> Seq<u8> {
    seq![
        (v >> 56u64) as u8,
        (v >> 48u64) as u8,
        (v >> 40u64) as u8,
        (v >> 32u64) as u8,
        (v >> 24u64) as u8,
        (v >> 16u64) as u8,
        (v >> 8u64) as u8,
        v as u8,
    ]
}

/// The first byte of an address: the kind's tag, with the high bit set on
/// the test network.
pub open spec fn address_header(a: Address) -> u8 {
    let tag: u8 = match a.kind {
        AddressKind::Single(_) => 3,
        AddressKind::Group(_, _) => 4,
        AddressKind::Account(_) => 5,
    };
    match a.discrimination {
        Discrimination::Production => tag,
        Discrimination::Test => (tag + 0x80) as u8,
    }
}

/// An address: its header byte, then its keys.
pub open spec fn enc_address(a: Address) -> Seq<u8> {
    seq![address_header(a)] + match a.kind {
        AddressKind::Single(k) => k@,
        AddressKind::Group(k, g) => k@ + g@,
        AddressKind::Account(k) => k@,
    }
}

/// An input: a tag, then the pointer's index, value and transaction, or the
/// account's value and key.
pub open spec fn enc_input(i: Input) -> Seq<u8> {
    match i {
        Input::Utxo(p) => seq![0u8, p.output_index] + enc_u64(p.value.0) + p.transaction_id.0@,
        Input::Account(a, v) => seq![1u8] + enc_u64(v.0) + a.0@,
    }
}

pub open spec fn enc_output(o: Output) -> Seq<u8> {
    enc_address(o.address) + enc_u64(o.value.0)
}

pub open spec fn enc_inputs(s: Seq<Input>) -> Seq<u8>
    decreases s.len(),
{
    if s.len() == 0 {
        seq![]
    } else {
        enc_input(s[0]) + enc_inputs(s.drop_first())
    }
}

pub open spec fn enc_outputs(s: Seq<Output>) -> Seq<u8>
    decreases s.len(),
{
    if s.len() == 0 {
        seq![]
    } else {
        enc_output(s[0]) + enc_outputs(s.drop_first())
    }
}

/// No certificate is one zero byte; a certificate is a one, its length, its bytes.
pub open spec fn enc_certificate(c: Option<Seq<u8>>) -> Seq<u8> {
    match c {
        None => seq![0u8],
        Some(b) => seq![1u8] + enc_u64(b.len() as u64) + b,
    }
}

/// The canonical encoding of a transaction body, over which its identifier is computed.
pub open spec fn enc_body(t: TransactionView) -> Seq<u8> {
    enc_u64(t.inputs.len() as u64) + enc_inputs(t.inputs) + enc_u64(t.outputs.len() as u64)
        + enc_outputs(t.outputs) + enc_certificate(t.certificate)
}

pub fn push_u64(out: &mut Vec<u8>, v: u64)
    ensures
        final(out)@ == old(out)@ + enc_u64(v),
{
    out.push((v >> 56u64) as u8);
    out.push((v >> 48u64) as u8);
    out.push((v >> 40u64) as u8);
    out.push((v >> 32u64) as u8);
    out.push((v >> 24u64) as u8);
    out.push((v >> 16u64) as u8);
    out.push((v >> 8u64) as u8);
    out.push(v as u8);
    assert(out@ =~= old(out)@ + enc_u64(v));
}

pub fn push_bytes(out: &mut Vec<u8>, bytes: &[u8])
    ensures
        final(out)@ == old(out)@ + bytes@,
{
    let mut i: usize = 0;
    while i < bytes.len()
        invariant
            0 <= i <= bytes@.len(),
            out@ == old(out)@ + bytes@.take(i as int),
        decreases bytes@.len() - i,
    {
        out.push(bytes[i]);
        assert(bytes@.take(i + 1) =~= bytes@.take(i as int).push(bytes@[i as int]));
        i += 1;
    }
    assert(bytes@.take(i as int) =~= bytes@);
}

pub fn push_address(out: &mut Vec<u8>, a: &Address)
    ensures
        final(out)@ == old(out)@ + enc_address(*a),
{
    let start = Ghost(out@);
    let tag: u8 = match &a.kind {
        AddressKind::Single(_) => 3,
        AddressKind::Group(_, _) => 4,
        AddressKind::Account(_) => 5,
    };
    match a.discrimination {
        Discrimination::Production => out.push(tag),
        Discrimination::Test => out.push(tag + 0x80),
    }
    match &a.kind {
        AddressKind::Single(k) => push_bytes(out, k.as_slice()),
        AddressKind::Group(k, g) => {
            push_bytes(out, k.as_slice());
            push_bytes(out, g.as_slice());
        },
        AddressKind::Account(k) => push_bytes(out, k.as_slice()),
    }
    assert(out@ =~= start@ + enc_address(*a));
}

pub fn push_input(out: &mut Vec<u8>, i: &Input)
    ensures
        final(out)@ == old(out)@ + enc_input(*i),
{
    let start = Ghost(out@);
    match i {
        Input::Utxo(p) => {
            out.push(0);
            out.push(p.output_index);
            push_u64(out, p.value.0);
            push_bytes(out, p.transaction_id.0.as_slice());
        },
        Input::Account(a, v) => {
            out.push(1);
            push_u64(out, v.0);
            push_bytes(out, a.0.as_slice());
        },
    }
    assert(out@ =~= start@ + enc_input(*i));
}

pub fn push_output(out: &mut Vec<u8>, o: &Output)
    ensures
        final(out)@ == old(out)@ + enc_output(*o),
{
    let start = Ghost(out@);
    push_address(out, &o.address);
    push_u64(out, o.value.0);
    assert(out@ =~= start@ + enc_output(*o));
}

pub fn push_inputs(out: &mut Vec<u8>, s: &Vec<Input>)
    ensures
        final(out)@ == old(out)@ + enc_inputs(s@),
{
    let mut i: usize = 0;
    assert(s@.skip(0) =~= s@);
    while i < s.len()
        invariant
            0 <= i <= s@.len(),
            out@ + enc_inputs(s@.skip(i as int)) == old(out)@ + enc_inputs(s@),
        decreases s@.len() - i,
    {
        let ghost before = out@;
        push_input(out, &s[i]);
        assert(s@.skip(i as int).drop_first() =~= s@.skip(i + 1));
        assert(before + enc_inputs(s@.skip(i as int)) =~= out@ + enc_inputs(s@.skip(i + 1)));
        i += 1;
    }
    assert(s@.skip(i as int) =~= Seq::<Input>::empty());
    assert(out@ =~= out@ + enc_inputs(s@.skip(i as int)));
}

pub fn push_outputs(out: &mut Vec<u8>, s: &Vec<Output>)
    ensures
        final(out)@ == old(out)@ + enc_outputs(s@),
{
    let mut i: usize = 0;
    assert(s@.skip(0) =~= s@);
    while i < s.len()
        invariant
            0 <= i <= s@.len(),
            out@ + enc_outputs(s@.skip(i as int)) == old(out)@ + enc_outputs(s@),
        decreases s@.len() - i,
    {
        let ghost before = out@;
        push_output(out, &s[i]);
        assert(s@.skip(i as int).drop_first() =~= s@.skip(i + 1));
        assert(before + enc_outputs(s@.skip(i as int)) =~= out@ + enc_outputs(s@.skip(i + 1)));
        i += 1;
    }
    assert(s@.skip(i as int) =~= Seq::<Output>::empty());
    assert(out@ =~= out@ + enc_outputs(s@.skip(i as int)));
}

/// Appends the canonical encoding of a transaction body.
pub fn push_body(out: &mut Vec<u8>, t: &Transaction)
    ensures
        final(out)@ == old(out)@ + enc_body(t@),
{
    let start = Ghost(out@);
    push_u64(out, t.inputs.len() as u64);
    push_inputs(out, &t.inputs);
    push_u64(out, t.outputs.len() as u64);
    push_outputs(out, &t.outputs);
    match &t.certificate {
        None => out.push(0),
        Some(c) => {
            out.push(1);
            push_u64(out, c.0.len() as u64);
            push_bytes(out, c.0.as_slice());
        },
    }
    assert(out@ =~= start@ + enc_body(t@));
}

} // verus!
