use vstd::prelude::*;
use crate::address::{Account, Address, AddressKind, Discrimination};
use crate::codec::{
    address_header, enc_address, enc_body, enc_certificate, enc_input, enc_inputs, enc_output,
    enc_outputs, enc_u64, push_body, push_bytes, push_u64,
};
use crate::crypto::TransactionId;
use crate::error::TxError;
use crate::finalizer::{GeneratedTransaction, GeneratedView};
use crate::transaction::{Certificate, Input, Output, Transaction, TransactionView, UtxoPointer};
use crate::value::Value;
use crate::witness::Witness;

verus! {

/// The 32-byte array whose bytes are `s`.
pub open spec fn arr32(s: Seq<u8>) -> [u8; 32] {
    choose|a: [u8; 32]| a@ == s
}

/// The 64-byte array whose bytes are `s`.
pub open spec fn arr64(s: Seq<u8>) -> [u8; 64] {
    choose|a: [u8; 64]| a@ == s
}

pub proof fn lemma_arr32(a: [u8; 32])
    ensures
        arr32(a@) == a,
{
    broadcast use vstd::array::group_array_axioms;
    let c = arr32(a@);
    assert(c@ == a@);
    assert(c =~= a);
}

pub proof fn lemma_arr64(a: [u8; 64])
    ensures
        arr64(a@) == a,
{
    broadcast use vstd::array::group_array_axioms;
    let c = arr64(a@);
    assert(c@ == a@);
    assert(c =~= a);
}

/// The eight bytes at `pos`, most significant first, as an integer.
pub open spec fn be_u64(b: Seq<u8>, pos: int) -> u64 {
    ((b[pos] as u64) << 56u64) | ((b[pos + 1] as u64) << 48u64) | ((b[pos + 2] as u64) << 40u64)
        | ((b[pos + 3] as u64) << 32u64) | ((b[pos + 4] as u64) << 24u64) | ((b[pos + 5] as u64)
        << 16u64) | ((b[pos + 6] as u64) << 8u64) | (b[pos + 7] as u64)
}

/// The network and kind tag that an address header stands for.
pub open spec fn parse_header(h: u8) -> Option<(Discrimination, u8)> {
    if 3 <= h <= 5 {
        Some((Discrimination::Production, h))
    } else if 0x83 <= h <= 0x85 {
        Some((Discrimination::Test, (h - 0x80) as u8))
    } else {
        None
    }
}

/// The 32 bytes at `pos`, as an array.
pub open spec fn key_at(b: Seq<u8>, pos: int) -> [u8; 32] {
    arr32(b.subrange(pos, pos + 32))
}

/// The address encoded at `pos`, and where its encoding ends.
pub open spec fn parse_address(b: Seq<u8>, pos: int) -> Option<(Address, int)> {
    if pos + 1 > b.len() || parse_header(b[pos]) is None {
        None
    } else {
        let (d, k) = parse_header(b[pos]).unwrap();
        if k == 3 && pos + 33 <= b.len() {
            let kind = AddressKind::Single(key_at(b, pos + 1));
            Some((Address { discrimination: d, kind }, pos + 33))
        } else if k == 4 && pos + 65 <= b.len() {
            let kind = AddressKind::Group(key_at(b, pos + 1), key_at(b, pos + 33));
            Some((Address { discrimination: d, kind }, pos + 65))
        } else if k == 5 && pos + 33 <= b.len() {
            let kind = AddressKind::Account(key_at(b, pos + 1));
            Some((Address { discrimination: d, kind }, pos + 33))
        } else {
            None
        }
    }
}

/// The input encoded at `pos`, and where its encoding ends.
pub open spec fn parse_input(b: Seq<u8>, pos: int) -> Option<(Input, int)> {
    if pos + 1 > b.len() {
        None
    } else if b[pos] == 0 && pos + 42 <= b.len() {
        let p = UtxoPointer {
            transaction_id: TransactionId(key_at(b, pos + 10)),
            output_index: b[pos + 1],
            value: Value(be_u64(b, pos + 2)),
        };
        Some((Input::Utxo(p), pos + 42))
    } else if b[pos] == 1 && pos + 41 <= b.len() {
        Some((Input::Account(Account(key_at(b, pos + 9)), Value(be_u64(b, pos + 1))), pos + 41))
    } else {
        None
    }
}

/// The output encoded at `pos`, and where its encoding ends.
pub open spec fn parse_output(b: Seq<u8>, pos: int) -> Option<(Output, int)> {
    match parse_address(b, pos) {
        None => None,
        Some((a, p)) => if p + 8 <= b.len() {
            Some((Output { address: a, value: Value(be_u64(b, p)) }, p + 8))
        } else {
            None
        },
    }
}

/// The witness encoded at `pos`, and where its encoding ends.
pub open spec fn parse_witness(b: Seq<u8>, pos: int) -> Option<(Witness, int)> {
    if pos + 65 > b.len() {
        None
    } else if b[pos] == 0 {
        Some((Witness::Utxo(arr64(b.subrange(pos + 1, pos + 65))), pos + 65))
    } else if b[pos] == 1 {
        Some((Witness::Account(arr64(b.subrange(pos + 1, pos + 65))), pos + 65))
    } else {
        None
    }
}

pub open spec fn parse_inputs(b: Seq<u8>, pos: int, n: nat) -> Option<(Seq<Input>, int)>
    decreases n,
{
    if n == 0 {
        Some((seq![], pos))
    } else {
        match parse_input(b, pos) {
            None => None,
            Some((x, p)) => match parse_inputs(b, p, (n - 1) as nat) {
                None => None,
                Some((xs, q)) => Some((seq![x] + xs, q)),
            },
        }
    }
}

pub open spec fn parse_outputs(b: Seq<u8>, pos: int, n: nat) -> Option<(Seq<Output>, int)>
    decreases n,
{
    if n == 0 {
        Some((seq![], pos))
    } else {
        match parse_output(b, pos) {
            None => None,
            Some((x, p)) => match parse_outputs(b, p, (n - 1) as nat) {
                None => None,
                Some((xs, q)) => Some((seq![x] + xs, q)),
            },
        }
    }
}

pub open spec fn parse_witnesses(b: Seq<u8>, pos: int, n: nat) -> Option<(Seq<Witness>, int)>
    decreases n,
{
    if n == 0 {
        Some((seq![], pos))
    } else {
        match parse_witness(b, pos) {
            None => None,
            Some((x, p)) => match parse_witnesses(b, p, (n - 1) as nat) {
                None => None,
                Some((xs, q)) => Some((seq![x] + xs, q)),
            },
        }
    }
}

/// The certificate slot encoded at `pos`, and where its encoding ends.
pub open spec fn parse_certificate(b: Seq<u8>, pos: int) -> Option<(Option<Seq<u8>>, int)> {
    if pos + 1 > b.len() {
        None
    } else if b[pos] == 0 {
        Some((None, pos + 1))
    } else if b[pos] == 1 && pos + 9 <= b.len() && pos + 9 + be_u64(b, pos + 1) <= b.len() {
        let end = pos + 9 + be_u64(b, pos + 1);
        Some((Some(b.subrange(pos + 9, end)), end))
    } else {
        None
    }
}

/// The transaction body encoded at `pos`, and where its encoding ends.
pub open spec fn parse_body(b: Seq<u8>, pos: int) -> Option<(TransactionView, int)> {
    if pos + 8 > b.len() {
        None
    } else {
        match parse_inputs(b, pos + 8, be_u64(b, pos) as nat) {
            None => None,
            Some((inputs, p)) => if p + 8 > b.len() {
                None
            } else {
                match parse_outputs(b, p + 8, be_u64(b, p) as nat) {
                    None => None,
                    Some((outputs, q)) => match parse_certificate(b, q) {
                        None => None,
                        Some((certificate, e)) => Some(
                            (TransactionView { inputs, outputs, certificate }, e),
                        ),
                    },
                }
            },
        }
    }
}

pub open spec fn enc_witness(w: Witness) -> Seq<u8> {
    match w {
        Witness::Utxo(s) => seq![0u8] + s@,
        Witness::Account(s) => seq![1u8] + s@,
    }
}

pub open spec fn enc_witnesses(s: Seq<Witness>) -> Seq<u8>
    decreases s.len(),
{
    if s.len() == 0 {
        seq![]
    } else {
        enc_witness(s[0]) + enc_witnesses(s.drop_first())
    }
}

/// A witnessed transaction: its body, the number of witnesses, the witnesses.
pub open spec fn enc_generated(g: GeneratedView) -> Seq<u8> {
    enc_body(g.tx) + enc_u64(g.witnesses.len() as u64) + enc_witnesses(g.witnesses)
}

/// The witnessed transaction that `b` encodes, when it encodes one and nothing more.
pub open spec fn parse_generated(b: Seq<u8>) -> Option<GeneratedView> {
    match parse_body(b, 0) {
        None => None,
        Some((tx, p)) => if p + 8 > b.len() {
            None
        } else {
            match parse_witnesses(b, p + 8, be_u64(b, p) as nat) {
                Some((witnesses, e)) => if e == b.len() {
                    Some(GeneratedView { tx, witnesses })
                } else {
                    None
                },
                None => None,
            }
        },
    }
}

pub proof fn lemma_u64_bytes(v: u64)
    ensures
        v == ((((v >> 56u64) as u8) as u64) << 56u64) | ((((v >> 48u64) as u8) as u64) << 48u64)
            | ((((v >> 40u64) as u8) as u64) << 40u64) | ((((v >> 32u64) as u8) as u64) << 32u64)
            | ((((v >> 24u64) as u8) as u64) << 24u64) | ((((v >> 16u64) as u8) as u64) << 16u64)
            | ((((v >> 8u64) as u8) as u64) << 8u64) | ((v as u8) as u64),
{
    assert(v == ((((v >> 56u64) as u8) as u64) << 56u64) | ((((v >> 48u64) as u8) as u64) << 48u64)
        | ((((v >> 40u64) as u8) as u64) << 40u64) | ((((v >> 32u64) as u8) as u64) << 32u64)
        | ((((v >> 24u64) as u8) as u64) << 24u64) | ((((v >> 16u64) as u8) as u64) << 16u64)
        | ((((v >> 8u64) as u8) as u64) << 8u64) | ((v as u8) as u64)) by (bit_vector);
}

/// Reading back the eight bytes of an integer gives the integer.
pub proof fn lemma_be_u64(b: Seq<u8>, pos: int, v: u64)
    requires
        0 <= pos,
        pos + 8 <= b.len(),
        b.subrange(pos, pos + 8) == enc_u64(v),
    ensures
        be_u64(b, pos) == v,
{
    assert forall|k: int| 0 <= k < 8 implies b[pos + k] == #[trigger] enc_u64(v)[k] by {
        assert(b.subrange(pos, pos + 8)[k] == b[pos + k]);
    }
    lemma_u64_bytes(v);
}

/// A window of `b` that holds `x + y` holds `x` and then `y`.
pub proof fn lemma_split(b: Seq<u8>, pos: int, x: Seq<u8>, y: Seq<u8>)
    requires
        0 <= pos,
        pos + x.len() + y.len() <= b.len(),
        b.subrange(pos, pos + x.len() + y.len()) == x + y,
    ensures
        b.subrange(pos, pos + x.len()) == x,
        b.subrange(pos + x.len(), pos + x.len() + y.len()) == y,
{
    let n = x.len() as int;
    let m = (x.len() + y.len()) as int;
    let w = b.subrange(pos, pos + m);
    assert(b.subrange(pos, pos + n) =~= w.subrange(0, n));
    assert((x + y).subrange(0, n) =~= x);
    assert(b.subrange(pos + n, pos + m) =~= w.subrange(n, m));
    assert((x + y).subrange(n, m) =~= y);
}

pub proof fn lemma_address_round_trip(b: Seq<u8>, pos: int, a: Address)
    requires
        0 <= pos,
        pos + enc_address(a).len() <= b.len(),
        b.subrange(pos, pos + enc_address(a).len()) == enc_address(a),
    ensures
        parse_address(b, pos) == Some((a, pos + enc_address(a).len())),
{
    let e = enc_address(a);
    let h = seq![address_header(a)];
    assert(b[pos] == e[0]) by {
        assert(b.subrange(pos, pos + e.len())[0] == b[pos]);
    }
    match a.kind {
        AddressKind::Single(k) => {
            lemma_split(b, pos, h, k@);
            lemma_arr32(k);
        },
        AddressKind::Group(k, g) => {
            assert(e =~= h + k@ + g@);
            lemma_split(b, pos, h + k@, g@);
            lemma_split(b, pos, h, k@);
            lemma_arr32(k);
            lemma_arr32(g);
        },
        AddressKind::Account(k) => {
            lemma_split(b, pos, h, k@);
            lemma_arr32(k);
        },
    }
}

pub proof fn lemma_input_round_trip(b: Seq<u8>, pos: int, x: Input)
    requires
        0 <= pos,
        pos + enc_input(x).len() <= b.len(),
        b.subrange(pos, pos + enc_input(x).len()) == enc_input(x),
    ensures
        parse_input(b, pos) == Some((x, pos + enc_input(x).len())),
{
    let e = enc_input(x);
    assert(b[pos] == e[0]) by {
        assert(b.subrange(pos, pos + e.len())[0] == b[pos]);
    }
    match x {
        Input::Utxo(p) => {
            let h = seq![0u8, p.output_index];
            assert(b[pos + 1] == e[1]) by {
                assert(b.subrange(pos, pos + e.len())[1] == b[pos + 1]);
            }
            lemma_split(b, pos, h + enc_u64(p.value.0), p.transaction_id.0@);
            lemma_split(b, pos, h, enc_u64(p.value.0));
            lemma_be_u64(b, pos + 2, p.value.0);
            lemma_arr32(p.transaction_id.0);
        },
        Input::Account(a, v) => {
            let h = seq![1u8];
            lemma_split(b, pos, h + enc_u64(v.0), a.0@);
            lemma_split(b, pos, h, enc_u64(v.0));
            lemma_be_u64(b, pos + 1, v.0);
            lemma_arr32(a.0);
        },
    }
}

pub proof fn lemma_output_round_trip(b: Seq<u8>, pos: int, x: Output)
    requires
        0 <= pos,
        pos + enc_output(x).len() <= b.len(),
        b.subrange(pos, pos + enc_output(x).len()) == enc_output(x),
    ensures
        parse_output(b, pos) == Some((x, pos + enc_output(x).len())),
{
    lemma_split(b, pos, enc_address(x.address), enc_u64(x.value.0));
    lemma_address_round_trip(b, pos, x.address);
    lemma_be_u64(b, pos + enc_address(x.address).len(), x.value.0);
}

pub proof fn lemma_witness_round_trip(b: Seq<u8>, pos: int, x: Witness)
    requires
        0 <= pos,
        pos + enc_witness(x).len() <= b.len(),
        b.subrange(pos, pos + enc_witness(x).len()) == enc_witness(x),
    ensures
        parse_witness(b, pos) == Some((x, pos + enc_witness(x).len())),
{
    let e = enc_witness(x);
    assert(b[pos] == e[0]) by {
        assert(b.subrange(pos, pos + e.len())[0] == b[pos]);
    }
    match x {
        Witness::Utxo(sig) => {
            lemma_split(b, pos, seq![0u8], sig@);
            lemma_arr64(sig);
        },
        Witness::Account(sig) => {
            lemma_split(b, pos, seq![1u8], sig@);
            lemma_arr64(sig);
        },
    }
}

pub proof fn lemma_inputs_round_trip(b: Seq<u8>, pos: int, xs: Seq<Input>)
    requires
        0 <= pos,
        pos + enc_inputs(xs).len() <= b.len(),
        b.subrange(pos, pos + enc_inputs(xs).len()) == enc_inputs(xs),
    ensures
        parse_inputs(b, pos, xs.len()) == Some((xs, pos + enc_inputs(xs).len())),
    decreases xs.len(),
{
    if xs.len() > 0 {
        lemma_split(b, pos, enc_input(xs[0]), enc_inputs(xs.drop_first()));
        lemma_input_round_trip(b, pos, xs[0]);
        lemma_inputs_round_trip(b, pos + enc_input(xs[0]).len(), xs.drop_first());
        assert(seq![xs[0]] + xs.drop_first() =~= xs);
    }
}

pub proof fn lemma_outputs_round_trip(b: Seq<u8>, pos: int, xs: Seq<Output>)
    requires
        0 <= pos,
        pos + enc_outputs(xs).len() <= b.len(),
        b.subrange(pos, pos + enc_outputs(xs).len()) == enc_outputs(xs),
    ensures
        parse_outputs(b, pos, xs.len()) == Some((xs, pos + enc_outputs(xs).len())),
    decreases xs.len(),
{
    if xs.len() > 0 {
        lemma_split(b, pos, enc_output(xs[0]), enc_outputs(xs.drop_first()));
        lemma_output_round_trip(b, pos, xs[0]);
        lemma_outputs_round_trip(b, pos + enc_output(xs[0]).len(), xs.drop_first());
        assert(seq![xs[0]] + xs.drop_first() =~= xs);
    }
}

pub proof fn lemma_witnesses_round_trip(b: Seq<u8>, pos: int, xs: Seq<Witness>)
    requires
        0 <= pos,
        pos + enc_witnesses(xs).len() <= b.len(),
        b.subrange(pos, pos + enc_witnesses(xs).len()) == enc_witnesses(xs),
    ensures
        parse_witnesses(b, pos, xs.len()) == Some((xs, pos + enc_witnesses(xs).len())),
    decreases xs.len(),
{
    if xs.len() > 0 {
        lemma_split(b, pos, enc_witness(xs[0]), enc_witnesses(xs.drop_first()));
        lemma_witness_round_trip(b, pos, xs[0]);
        lemma_witnesses_round_trip(b, pos + enc_witness(xs[0]).len(), xs.drop_first());
        assert(seq![xs[0]] + xs.drop_first() =~= xs);
    }
}

pub proof fn lemma_certificate_round_trip(b: Seq<u8>, pos: int, c: Option<Seq<u8>>)
    requires
        0 <= pos,
        c matches Some(bytes) ==> bytes.len() <= u64::MAX,
        pos + enc_certificate(c).len() <= b.len(),
        b.subrange(pos, pos + enc_certificate(c).len()) == enc_certificate(c),
    ensures
        parse_certificate(b, pos) == Some((c, pos + enc_certificate(c).len())),
{
    let e = enc_certificate(c);
    assert(b[pos] == e[0]) by {
        assert(b.subrange(pos, pos + e.len())[0] == b[pos]);
    }
    if let Some(bytes) = c {
        lemma_split(b, pos, seq![1u8] + enc_u64(bytes.len() as u64), bytes);
        lemma_split(b, pos, seq![1u8], enc_u64(bytes.len() as u64));
        lemma_be_u64(b, pos + 1, bytes.len() as u64);
    }
}

/// Whether every length in a body fits the 64-bit counts of its encoding.
pub open spec fn body_fits(t: TransactionView) -> bool {
    &&& t.inputs.len() <= u64::MAX
    &&& t.outputs.len() <= u64::MAX
    &&& (t.certificate matches Some(c) ==> c.len() <= u64::MAX)
}

pub proof fn lemma_body_round_trip(b: Seq<u8>, pos: int, t: TransactionView)
    requires
        0 <= pos,
        body_fits(t),
        pos + enc_body(t).len() <= b.len(),
        b.subrange(pos, pos + enc_body(t).len()) == enc_body(t),
    ensures
        parse_body(b, pos) == Some((t, pos + enc_body(t).len())),
{
    let a = enc_u64(t.inputs.len() as u64);
    let i = enc_inputs(t.inputs);
    let c = enc_u64(t.outputs.len() as u64);
    let o = enc_outputs(t.outputs);
    let z = enc_certificate(t.certificate);
    lemma_split(b, pos, a + i + c + o, z);
    lemma_split(b, pos, a + i + c, o);
    lemma_split(b, pos, a + i, c);
    lemma_split(b, pos, a, i);
    lemma_be_u64(b, pos, t.inputs.len() as u64);
    lemma_inputs_round_trip(b, pos + 8, t.inputs);
    lemma_be_u64(b, pos + 8 + i.len(), t.outputs.len() as u64);
    lemma_outputs_round_trip(b, pos + 16 + i.len(), t.outputs);
    lemma_certificate_round_trip(b, pos + 16 + i.len() + o.len(), t.certificate);
}

/// Decoding the encoding of a witnessed transaction gives back the same
/// body (inputs, outputs, certificate) and the same witnesses.
#[verifier::rlimit(40)]
pub proof fn lemma_round_trip(g: GeneratedView)
    requires
        body_fits(g.tx),
        g.witnesses.len() <= u64::MAX,
    ensures
        parse_generated(enc_generated(g)) == Some(g),
{
    let b = enc_generated(g);
    let x = enc_body(g.tx);
    let n = enc_u64(g.witnesses.len() as u64);
    let w = enc_witnesses(g.witnesses);
    assert(b.subrange(0, b.len() as int) =~= b);
    lemma_split(b, 0, x + n, w);
    lemma_split(b, 0, x, n);
    lemma_body_round_trip(b, 0, g.tx);
    let p = x.len() as int;
    assert(n.len() == 8);
    assert(b.len() == p + 8 + w.len());
    assert(parse_body(b, 0) == Some((g.tx, p)));
    lemma_be_u64(b, p, g.witnesses.len() as u64);
    lemma_witnesses_round_trip(b, p + 8, g.witnesses);
    assert(parse_witnesses(b, p + 8, be_u64(b, p) as nat) == Some((g.witnesses, b.len() as int)));
}

fn read_u64(b: &[u8], pos: usize) -> (r: u64)
    requires
        pos + 8 <= b@.len(),
    ensures
        r == be_u64(b@, pos as int),
{
    ((b[pos] as u64) << 56u64) | ((b[pos + 1] as u64) << 48u64) | ((b[pos + 2] as u64) << 40u64)
        | ((b[pos + 3] as u64) << 32u64) | ((b[pos + 4] as u64) << 24u64) | ((b[pos + 5] as u64)
        << 16u64) | ((b[pos + 6] as u64) << 8u64) | (b[pos + 7] as u64)
}

fn read_array_32(b: &[u8], pos: usize) -> (r: [u8; 32])
    requires
        pos + 32 <= b@.len(),
    ensures
        r == key_at(b@, pos as int),
{
    let mut r = [0u8; 32];
    let len = b.len();
    let mut i: usize = 0;
    while i < 32
        invariant
            pos + 32 <= b@.len(),
            len == b@.len(),
            0 <= i <= 32,
            r@.len() == 32,
            forall|j: int| 0 <= j < i ==> r@[j] == b@[pos + j],
        decreases 32 - i,
    {
        r[i] = b[pos + i];
        i += 1;
    }
    assert(r@ =~= b@.subrange(pos as int, pos + 32));
    proof {
        lemma_arr32(r);
    }
    r
}

fn read_array_64(b: &[u8], pos: usize) -> (r: [u8; 64])
    requires
        pos + 64 <= b@.len(),
    ensures
        r == arr64(b@.subrange(pos as int, pos + 64)),
{
    let mut r = [0u8; 64];
    let len = b.len();
    let mut i: usize = 0;
    while i < 64
        invariant
            pos + 64 <= b@.len(),
            len == b@.len(),
            0 <= i <= 64,
            r@.len() == 64,
            forall|j: int| 0 <= j < i ==> r@[j] == b@[pos + j],
        decreases 64 - i,
    {
        r[i] = b[pos + i];
        i += 1;
    }
    assert(r@ =~= b@.subrange(pos as int, pos + 64));
    proof {
        lemma_arr64(r);
    }
    r
}

/// What an exec parser returns for a spec parser's result.
pub open spec fn at_usize<T>(r: Option<(T, int)>) -> Option<(T, usize)> {
    match r {
        Some((x, p)) => Some((x, p as usize)),
        None => None,
    }
}

pub fn read_address(b: &[u8], pos: usize) -> (r: Option<(Address, usize)>)
    requires
        pos <= b@.len(),
    ensures
        r == at_usize(parse_address(b@, pos as int)),
        parse_address(b@, pos as int) matches Some((_, e)) ==> pos <= e <= b@.len(),
{
    if b.len() - pos < 1 {
        return None;
    }
    let h = b[pos];
    let (d, k) = if 3 <= h && h <= 5 {
        (Discrimination::Production, h)
    } else if 0x83 <= h && h <= 0x85 {
        (Discrimination::Test, h - 0x80)
    } else {
        return None;
    };
    let left = b.len() - pos;
    if k == 3 && left >= 33 {
        let kind = AddressKind::Single(read_array_32(b, pos + 1));
        Some((Address { discrimination: d, kind }, pos + 33))
    } else if k == 4 && left >= 65 {
        let kind = AddressKind::Group(read_array_32(b, pos + 1), read_array_32(b, pos + 33));
        Some((Address { discrimination: d, kind }, pos + 65))
    } else if k == 5 && left >= 33 {
        let kind = AddressKind::Account(read_array_32(b, pos + 1));
        Some((Address { discrimination: d, kind }, pos + 33))
    } else {
        None
    }
}

fn read_input(b: &[u8], pos: usize) -> (r: Option<(Input, usize)>)
    requires
        pos <= b@.len(),
    ensures
        r == at_usize(parse_input(b@, pos as int)),
        parse_input(b@, pos as int) matches Some((_, e)) ==> pos <= e <= b@.len(),
{
    let left = b.len() - pos;
    if left < 1 {
        None
    } else if b[pos] == 0 && left >= 42 {
        let id = read_array_32(b, pos + 10);
        let p = UtxoPointer {
            transaction_id: TransactionId(id),
            output_index: b[pos + 1],
            value: Value(read_u64(b, pos + 2)),
        };
        Some((Input::Utxo(p), pos + 42))
    } else if b[pos] == 1 && left >= 41 {
        let key = read_array_32(b, pos + 9);
        Some((Input::Account(Account(key), Value(read_u64(b, pos + 1))), pos + 41))
    } else {
        None
    }
}

fn read_output(b: &[u8], pos: usize) -> (r: Option<(Output, usize)>)
    requires
        pos <= b@.len(),
    ensures
        r == at_usize(parse_output(b@, pos as int)),
        parse_output(b@, pos as int) matches Some((_, e)) ==> pos <= e <= b@.len(),
{
    match read_address(b, pos) {
        None => None,
        Some((a, p)) => if b.len() - p >= 8 {
            Some((Output { address: a, value: Value(read_u64(b, p)) }, p + 8))
        } else {
            None
        },
    }
}

fn read_witness(b: &[u8], pos: usize) -> (r: Option<(Witness, usize)>)
    requires
        pos <= b@.len(),
    ensures
        r == at_usize(parse_witness(b@, pos as int)),
        parse_witness(b@, pos as int) matches Some((_, e)) ==> pos <= e <= b@.len(),
{
    if b.len() - pos < 65 {
        None
    } else if b[pos] == 0 {
        Some((Witness::Utxo(read_array_64(b, pos + 1)), pos + 65))
    } else if b[pos] == 1 {
        Some((Witness::Account(read_array_64(b, pos + 1)), pos + 65))
    } else {
        None
    }
}

fn read_inputs(b: &[u8], pos: usize, n: u64) -> (r: Option<(Vec<Input>, usize)>)
    requires
        pos <= b@.len(),
    ensures
        match parse_inputs(b@, pos as int, n as nat) {
            Some((xs, q)) => r matches Some((v, e)) && v@ == xs && e == q,
            None => r is None,
        },
        r matches Some((_, e)) ==> pos <= e <= b@.len(),
{
    let mut out: Vec<Input> = Vec::new();
    let mut p = pos;
    let len = b.len();
    let mut i: u64 = 0;
    while i < n
        invariant
            len == b@.len(),
            0 <= i <= n,
            pos <= p <= b@.len(),
            parse_inputs(b@, pos as int, n as nat) == match parse_inputs(b@, p as int, (n - i) as nat) {
                Some((xs, q)) => Some((out@ + xs, q)),
                None => None,
            },
        decreases n - i,
    {
        match read_input(b, p) {
            None => return None,
            Some((x, q)) => {
                assert(q <= b@.len());
                let ghost old_out = out@;
                out.push(x);
                proof {
                    assert(parse_input(b@, p as int) == Some((x, q as int)));
                    assert(parse_inputs(b@, p as int, (n - i) as nat) == match parse_inputs(
                        b@,
                        q as int,
                        (n - i - 1) as nat,
                    ) {
                        Some((xs, e)) => Some((seq![x] + xs, e)),
                        None => None,
                    });
                    match parse_inputs(b@, q as int, (n - i - 1) as nat) {
                        Some((xs, e)) => {
                            assert(old_out + (seq![x] + xs) =~= out@ + xs);
                        },
                        None => {},
                    }
                }
                p = q;
            },
        }
        i += 1;
    }
    assert(out@ + Seq::<Input>::empty() =~= out@);
    Some((out, p))
}

fn read_outputs(b: &[u8], pos: usize, n: u64) -> (r: Option<(Vec<Output>, usize)>)
    requires
        pos <= b@.len(),
    ensures
        match parse_outputs(b@, pos as int, n as nat) {
            Some((xs, q)) => r matches Some((v, e)) && v@ == xs && e == q,
            None => r is None,
        },
        r matches Some((_, e)) ==> pos <= e <= b@.len(),
{
    let mut out: Vec<Output> = Vec::new();
    let mut p = pos;
    let len = b.len();
    let mut i: u64 = 0;
    while i < n
        invariant
            len == b@.len(),
            0 <= i <= n,
            pos <= p <= b@.len(),
            parse_outputs(b@, pos as int, n as nat) == match parse_outputs(b@, p as int, (n - i) as nat) {
                Some((xs, q)) => Some((out@ + xs, q)),
                None => None,
            },
        decreases n - i,
    {
        match read_output(b, p) {
            None => return None,
            Some((x, q)) => {
                let ghost old_out = out@;
                out.push(x);
                proof {
                    assert(parse_output(b@, p as int) == Some((x, q as int)));
                    assert(parse_outputs(b@, p as int, (n - i) as nat) == match parse_outputs(
                        b@,
                        q as int,
                        (n - i - 1) as nat,
                    ) {
                        Some((xs, e)) => Some((seq![x] + xs, e)),
                        None => None,
                    });
                    match parse_outputs(b@, q as int, (n - i - 1) as nat) {
                        Some((xs, e)) => {
                            assert(old_out + (seq![x] + xs) =~= out@ + xs);
                        },
                        None => {},
                    }
                }
                p = q;
            },
        }
        i += 1;
    }
    assert(out@ + Seq::<Output>::empty() =~= out@);
    Some((out, p))
}

fn read_witnesses(b: &[u8], pos: usize, n: u64) -> (r: Option<(Vec<Witness>, usize)>)
    requires
        pos <= b@.len(),
    ensures
        match parse_witnesses(b@, pos as int, n as nat) {
            Some((xs, q)) => r matches Some((v, e)) && v@ == xs && e == q,
            None => r is None,
        },
        r matches Some((_, e)) ==> pos <= e <= b@.len(),
{
    let mut out: Vec<Witness> = Vec::new();
    let mut p = pos;
    let len = b.len();
    let mut i: u64 = 0;
    while i < n
        invariant
            len == b@.len(),
            0 <= i <= n,
            pos <= p <= b@.len(),
            parse_witnesses(b@, pos as int, n as nat) == match parse_witnesses(b@, p as int, (n - i) as nat) {
                Some((xs, q)) => Some((out@ + xs, q)),
                None => None,
            },
        decreases n - i,
    {
        match read_witness(b, p) {
            None => return None,
            Some((x, q)) => {
                let ghost old_out = out@;
                out.push(x);
                proof {
                    assert(parse_witness(b@, p as int) == Some((x, q as int)));
                    assert(parse_witnesses(b@, p as int, (n - i) as nat) == match parse_witnesses(
                        b@,
                        q as int,
                        (n - i - 1) as nat,
                    ) {
                        Some((xs, e)) => Some((seq![x] + xs, e)),
                        None => None,
                    });
                    match parse_witnesses(b@, q as int, (n - i - 1) as nat) {
                        Some((xs, e)) => {
                            assert(old_out + (seq![x] + xs) =~= out@ + xs);
                        },
                        None => {},
                    }
                }
                p = q;
            },
        }
        i += 1;
    }
    assert(out@ + Seq::<Witness>::empty() =~= out@);
    Some((out, p))
}

fn read_certificate(b: &[u8], pos: usize) -> (r: Option<(Option<Certificate>, usize)>)
    requires
        pos <= b@.len(),
    ensures
        match parse_certificate(b@, pos as int) {
            Some((c, e)) => r matches Some((v, q)) && crate::transaction::certificate_view(v) == c && q == e,
            None => r is None,
        },
        r matches Some((_, e)) ==> pos <= e <= b@.len(),
{
    let left = b.len() - pos;
    if left < 1 {
        None
    } else if b[pos] == 0 {
        Some((None, pos + 1))
    } else if b[pos] == 1 && left >= 9 {
        let l = read_u64(b, pos + 1);
        if l > (left - 9) as u64 {
            return None;
        }
        let end = pos + 9 + l as usize;
        let mut bytes: Vec<u8> = Vec::new();
        let mut i = pos + 9;
        while i < end
            invariant
                pos + 9 <= i <= end,
                end <= b@.len(),
                bytes@ == b@.subrange(pos + 9, i as int),
            decreases end - i,
        {
            bytes.push(b[i]);
            assert(b@.subrange(pos + 9, i + 1) =~= b@.subrange(pos + 9, i as int).push(b@[i as int]));
            i += 1;
        }
        Some((Some(Certificate(bytes)), end))
    } else {
        None
    }
}

fn read_body(b: &[u8], pos: usize) -> (r: Option<(Transaction, usize)>)
    requires
        pos <= b@.len(),
    ensures
        match parse_body(b@, pos as int) {
            Some((t, e)) => r matches Some((v, q)) && v@ == t && q == e,
            None => r is None,
        },
        r matches Some((_, e)) ==> pos <= e <= b@.len(),
{
    if b.len() - pos < 8 {
        return None;
    }
    let n_in = read_u64(b, pos);
    let (inputs, p) = match read_inputs(b, pos + 8, n_in) {
        Some(x) => x,
        None => return None,
    };
    if b.len() - p < 8 {
        return None;
    }
    let n_out = read_u64(b, p);
    let (outputs, q) = match read_outputs(b, p + 8, n_out) {
        Some(x) => x,
        None => return None,
    };
    let (certificate, e) = match read_certificate(b, q) {
        Some(x) => x,
        None => return None,
    };
    Some((Transaction { inputs, outputs, certificate }, e))
}

fn push_witnesses(out: &mut Vec<u8>, s: &Vec<Witness>)
    ensures
        final(out)@ == old(out)@ + enc_witnesses(s@),
{
    let mut i: usize = 0;
    assert(s@.skip(0) =~= s@);
    while i < s.len()
        invariant
            0 <= i <= s@.len(),
            out@ + enc_witnesses(s@.skip(i as int)) == old(out)@ + enc_witnesses(s@),
        decreases s@.len() - i,
    {
        let ghost before = out@;
        match &s[i] {
            Witness::Utxo(sig) => {
                out.push(0);
                push_bytes(out, sig.as_slice());
            },
            Witness::Account(sig) => {
                out.push(1);
                push_bytes(out, sig.as_slice());
            },
        }
        assert(out@ =~= before + enc_witness(s@[i as int]));
        assert(s@.skip(i as int).drop_first() =~= s@.skip(i + 1));
        assert(before + enc_witnesses(s@.skip(i as int)) =~= out@ + enc_witnesses(s@.skip(i + 1)));
        i += 1;
    }
    assert(s@.skip(i as int) =~= Seq::<Witness>::empty());
    assert(out@ =~= out@ + enc_witnesses(s@.skip(i as int)));
}

impl GeneratedTransaction {
    /// The canonical encoding: the body, then the witnesses.
    pub fn encode(&self) -> (r: Vec<u8>)
        ensures
            r@ == enc_generated(self@),
    {
        let mut out: Vec<u8> = Vec::new();
        push_body(&mut out, &self.transaction);
        push_u64(&mut out, self.witnesses.len() as u64);
        push_witnesses(&mut out, &self.witnesses);
        assert(out@ =~= enc_generated(self@));
        out
    }

    /// Reads a witnessed transaction from exactly the bytes of its encoding.
    pub fn decode(bytes: &[u8]) -> (r: Result<GeneratedTransaction, TxError>)
        ensures
            match parse_generated(bytes@) {
                Some(g) => r matches Ok(t) && t@ == g,
                None => r == Err::<GeneratedTransaction, TxError>(TxError::MalformedEncoding),
            },
    {
        let (transaction, p) = match read_body(bytes, 0) {
            Some(x) => x,
            None => return Err(TxError::MalformedEncoding),
        };
        if bytes.len() - p < 8 {
            return Err(TxError::MalformedEncoding);
        }
        let n = read_u64(bytes, p);
        let (witnesses, e) = match read_witnesses(bytes, p + 8, n) {
            Some(x) => x,
            None => return Err(TxError::MalformedEncoding),
        };
        if e != bytes.len() {
            return Err(TxError::MalformedEncoding);
        }
        Ok(GeneratedTransaction { transaction, witnesses })
    }
}

} // verus!
