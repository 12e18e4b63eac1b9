//! Island payloads: the serialized reconstruction data emitted beside the
//! server-rendered markup of an interactive subtree.
//!
//! A payload is a tag naming the island's constructor plus a flat list of
//! named props. The wire format is length-prefixed: the tag and the prop
//! count as little-endian 64-bit words, then each prop as its
//! length-prefixed name followed by its length-prefixed value. Encoding and
//! decoding round-trip exactly, which hydration correctness depends on.

use vstd::prelude::*;

verus! {

/// One serialized prop: a name and the bytes of its value.
pub struct Prop {
    pub name: Vec<u8>,
    pub value: Vec<u8>,
}

/// Mathematical image of a prop.
pub struct PropV {
    pub name: Seq<u8>,
    pub value: Seq<u8>,
}

impl View for Prop {
    type V = PropV;

    open spec fn view(&self) -> PropV {
        PropV { name: self.name@, value: self.value@ }
    }
}

/// One island's payload: the constructor tag and its props.
pub struct IslandPayload {
    pub tag: u64,
    pub props: Vec<Prop>,
}

/// Mathematical image of a payload.
pub struct PayloadV {
    pub tag: u64,
    pub props: Seq<PropV>,
}

/// The props of `ps`, as their mathematical images.
pub open spec fn props_view(ps: Seq<Prop>) -> Seq<PropV> {
    ps.map_values(|p: Prop| p@)
}

impl View for IslandPayload {
    type V = PayloadV;

    open spec fn view(&self) -> PayloadV {
        PayloadV { tag: self.tag, props: props_view(self.props@) }
    }
}

/// A prop whose name and value lengths fit the 64-bit length prefixes; every
/// prop built from in-memory vectors does.
pub open spec fn prop_bounded(p: PropV) -> bool {
    &&& p.name.len() <= u64::MAX
    &&& p.value.len() <= u64::MAX
}

pub open spec fn payload_bounded(p: PayloadV) -> bool {
    &&& p.props.len() <= u64::MAX
    &&& forall|i: int| 0 <= i < p.props.len() ==> prop_bounded(#[trigger] p.props[i])
}

/// A 64-bit word as eight little-endian bytes.
pub open spec fn enc_u64(x: u64) -> Seq<u8> {
    seq![
        x as u8,
        (x >> 8) as u8,
        (x >> 16) as u8,
        (x >> 24) as u8,
        (x >> 32) as u8,
        (x >> 40) as u8,
        (x >> 48) as u8,
        (x >> 56) as u8,
    ]
}

/// Eight little-endian bytes as a 64-bit word.
pub open spec fn dec_u64(s: Seq<u8>) -> u64
    recommends
        s.len() == 8,
{
    ((s[0] as u64) | ((s[1] as u64) << 8) | ((s[2] as u64) << 16) | ((s[3] as u64) << 24) | ((
    s[4] as u64) << 32) | ((s[5] as u64) << 40) | ((s[6] as u64) << 48) | ((s[7] as u64) << 56))
}

pub proof fn lemma_u64_round_trip(x: u64)
    ensures
        dec_u64(enc_u64(x)) == x,
{
    let s = enc_u64(x);
    assert(s[0] == x as u8 && s[1] == (x >> 8) as u8 && s[2] == (x >> 16) as u8 && s[3] == (x
        >> 24) as u8 && s[4] == (x >> 32) as u8 && s[5] == (x >> 40) as u8 && s[6] == (x
        >> 48) as u8 && s[7] == (x >> 56) as u8);
    assert(((x as u8) as u64) | ((((x >> 8) as u8) as u64) << 8) | ((((x >> 16) as u8) as u64)
        << 16) | ((((x >> 24) as u8) as u64) << 24) | ((((x >> 32) as u8) as u64) << 32) | ((((x
        >> 40) as u8) as u64) << 40) | ((((x >> 48) as u8) as u64) << 48) | ((((x
        >> 56) as u8) as u64) << 56) == x) by (bit_vector);
}

/// A byte string with its 64-bit length prefix.
pub open spec fn enc_bytes(b: Seq<u8>) -> Seq<u8> {
    enc_u64(b.len() as u64) + b
}

pub open spec fn enc_prop(p: PropV) -> Seq<u8> {
    enc_bytes(p.name) + enc_bytes(p.value)
}

pub open spec fn enc_props(ps: Seq<PropV>) -> Seq<u8>
    decreases ps.len(),
{
    if ps.len() == 0 {
        Seq::empty()
    } else {
        enc_prop(ps[0]) + enc_props(ps.drop_first())
    }
}

/// The wire format of a whole payload.
pub open spec fn enc_payload(p: PayloadV) -> Seq<u8> {
    enc_u64(p.tag) + enc_u64(p.props.len() as u64) + enc_props(p.props)
}

/// Reads one length-prefixed byte string; yields it and the remainder.
pub open spec fn dec_bytes(s: Seq<u8>) -> Option<(Seq<u8>, Seq<u8>)> {
    if s.len() >= 8 {
        let n = dec_u64(s.subrange(0, 8)) as int;
        if s.len() - 8 >= n {
            Some((s.subrange(8, 8 + n), s.subrange(8 + n, s.len() as int)))
        } else {
            None
        }
    } else {
        None
    }
}

/// Reads `count` props; yields them and the remainder.
pub open spec fn dec_props(s: Seq<u8>, count: nat) -> Option<(Seq<PropV>, Seq<u8>)>
    decreases count,
{
    if count == 0 {
        Some((Seq::empty(), s))
    } else {
        match dec_bytes(s) {
            Some((name, s1)) => match dec_bytes(s1) {
                Some((value, s2)) => match dec_props(s2, (count - 1) as nat) {
                    Some((rest, s3)) => Some((seq![PropV { name, value }] + rest, s3)),
                    None => None,
                },
                None => None,
            },
            None => None,
        }
    }
}

/// Decodes a whole payload; `None` on any malformed or trailing input.
pub open spec fn dec_payload(s: Seq<u8>) -> Option<PayloadV> {
    if s.len() >= 16 {
        let tag = dec_u64(s.subrange(0, 8));
        let count = dec_u64(s.subrange(8, 16));
        match dec_props(s.subrange(16, s.len() as int), count as nat) {
            Some((props, rest)) => if rest.len() == 0 {
                Some(PayloadV { tag, props })
            } else {
                None
            },
            None => None,
        }
    } else {
        None
    }
}

pub proof fn lemma_dec_bytes_enc(b: Seq<u8>, rest: Seq<u8>)
    requires
        b.len() <= u64::MAX,
    ensures
        dec_bytes(enc_bytes(b) + rest) == Some((b, rest)),
{
    let s = enc_bytes(b) + rest;
    assert(s.subrange(0, 8) =~= enc_u64(b.len() as u64));
    lemma_u64_round_trip(b.len() as u64);
    assert(s.subrange(8, 8 + b.len() as int) =~= b);
    assert(s.subrange(8 + b.len() as int, s.len() as int) =~= rest);
}

pub proof fn lemma_dec_props_enc(ps: Seq<PropV>, rest: Seq<u8>)
    requires
        forall|i: int| 0 <= i < ps.len() ==> prop_bounded(#[trigger] ps[i]),
    ensures
        dec_props(enc_props(ps) + rest, ps.len()) == Some((ps, rest)),
    decreases ps.len(),
{
    if ps.len() == 0 {
        assert(enc_props(ps) + rest =~= rest);
    } else {
        let head = ps[0];
        let tail = ps.drop_first();
        let s = enc_props(ps) + rest;
        assert(s =~= enc_bytes(head.name) + (enc_bytes(head.value) + (enc_props(tail) + rest)));
        lemma_dec_bytes_enc(head.name, enc_bytes(head.value) + (enc_props(tail) + rest));
        lemma_dec_bytes_enc(head.value, enc_props(tail) + rest);
        lemma_dec_props_enc(tail, rest);
        assert(seq![PropV { name: head.name, value: head.value }] + tail =~= ps);
    }
}

/// Law: decoding an encoded island payload yields the payload unchanged —
/// hydration reconstructs exactly the props the server serialized.
#[verifier::rlimit(100)]
pub proof fn lemma_payload_round_trip(p: PayloadV)
    requires
        payload_bounded(p),
    ensures
        dec_payload(enc_payload(p)) == Some(p),
{
    let a = enc_u64(p.tag);
    let b = enc_u64(p.props.len() as u64);
    let c = enc_props(p.props);
    let s = enc_payload(p);
    assert(a.len() == 8 && b.len() == 8);
    assert(s == a + b + c);
    assert(s.len() == 16 + c.len());
    assert(s.subrange(0, 8) =~= a);
    assert(s.subrange(8, 16) =~= b);
    assert(s.subrange(16, s.len() as int) =~= c);
    lemma_u64_round_trip(p.tag);
    lemma_u64_round_trip(p.props.len() as u64);
    assert(dec_u64(s.subrange(0, 8)) == p.tag);
    assert(dec_u64(s.subrange(8, 16)) == p.props.len() as u64);
    lemma_dec_props_enc(p.props, Seq::empty());
    assert(c + Seq::<u8>::empty() =~= c);
    assert(dec_props(s.subrange(16, s.len() as int), p.props.len()) == Some((
        p.props,
        Seq::<u8>::empty(),
    )));
}

/// Appends the eight little-endian bytes of `x`.
fn push_u64(out: &mut Vec<u8>, x: u64)
    ensures
        final(out)@ == old(out)@ + enc_u64(x),
{
    out.push(#[verifier::truncate] (x as u8));
    out.push(#[verifier::truncate] ((x >> 8) as u8));
    out.push(#[verifier::truncate] ((x >> 16) as u8));
    out.push(#[verifier::truncate] ((x >> 24) as u8));
    out.push(#[verifier::truncate] ((x >> 32) as u8));
    out.push(#[verifier::truncate] ((x >> 40) as u8));
    out.push(#[verifier::truncate] ((x >> 48) as u8));
    out.push((x >> 56) as u8);
    assert(out@ =~= old(out)@ + enc_u64(x));
}

/// Appends a length-prefixed byte string.
fn push_bytes(out: &mut Vec<u8>, b: &Vec<u8>)
    ensures
        final(out)@ == old(out)@ + enc_bytes(b@),
{
    push_u64(out, b.len() as u64);
    let n = b.len();
    let mut i: usize = 0;
    let ghost mid = out@;
    while i < n
        invariant
            n == b@.len(),
            i <= n,
            out@ == mid + b@.subrange(0, i as int),
        decreases n - i,
    {
        out.push(b[i]);
        assert(mid + b@.subrange(0, i as int) + seq![b@[i as int]] =~= mid + b@.subrange(
            0,
            i as int + 1,
        ));
        i = i + 1;
    }
    assert(out@ =~= old(out)@ + enc_bytes(b@));
}

/// Serializes `p` into its wire format.
pub fn encode_payload(p: &IslandPayload) -> (out: Vec<u8>)
    ensures
        out@ == enc_payload(p@),
{
    let mut out: Vec<u8> = Vec::new();
    push_u64(&mut out, p.tag);
    push_u64(&mut out, p.props.len() as u64);
    let n = p.props.len();
    proof {
        assert(p@.props.skip(0) =~= p@.props);
        assert(out@ + enc_props(p@.props) =~= enc_payload(p@));
    }
    let mut i: usize = 0;
    while i < n
        invariant
            n == p.props@.len(),
            i <= n,
            out@ + enc_props(p@.props.skip(i as int)) == enc_payload(p@),
        decreases n - i,
    {
        let ghost pre = out@;
        push_bytes(&mut out, &p.props[i].name);
        push_bytes(&mut out, &p.props[i].value);
        proof {
            let sk = p@.props.skip(i as int);
            assert(sk[0] == p@.props[i as int]);
            assert(sk.drop_first() =~= p@.props.skip(i as int + 1));
            assert(p@.props[i as int] == p.props@[i as int]@);
            assert(out@ =~= pre + enc_prop(sk[0]));
            assert(out@ + enc_props(p@.props.skip(i as int + 1)) =~= pre + enc_props(sk));
        }
        i = i + 1;
    }
    proof {
        assert(enc_props(p@.props.skip(n as int)) =~= Seq::<u8>::empty());
        assert(out@ =~= out@ + enc_props(p@.props.skip(n as int)));
    }
    out
}

/// Reads the word at `pos`.
pub(crate) fn read_u64(s: &Vec<u8>, pos: usize) -> (r: u64)
    requires
        pos + 8 <= s@.len(),
    ensures
        r == dec_u64(s@.subrange(pos as int, pos as int + 8)),
{
    let n = s.len();
    assert(pos + 8 <= n);
    let r = (s[pos] as u64) | ((s[pos + 1] as u64) << 8) | ((s[pos + 2] as u64) << 16) | ((s[pos
        + 3] as u64) << 24) | ((s[pos + 4] as u64) << 32) | ((s[pos + 5] as u64) << 40) | ((s[pos
        + 6] as u64) << 48) | ((s[pos + 7] as u64) << 56);
    proof {
        let sub = s@.subrange(pos as int, pos as int + 8);
        assert(sub[0] == s@[pos as int] && sub[1] == s@[pos as int + 1] && sub[2] == s@[pos as int
            + 2] && sub[3] == s@[pos as int + 3] && sub[4] == s@[pos as int + 4] && sub[5]
            == s@[pos as int + 5] && sub[6] == s@[pos as int + 6] && sub[7] == s@[pos as int + 7]);
    }
    r
}

/// Reads one length-prefixed byte string starting at `pos`; yields the
/// string and the position after it, mirroring `dec_bytes` on the tail.
fn read_bytes(s: &Vec<u8>, pos: usize) -> (r: Option<(Vec<u8>, usize)>)
    requires
        pos <= s@.len(),
    ensures
        match r {
            Some(br) => {
                &&& dec_bytes(s@.skip(pos as int)) matches Some(sr)
                &&& br.0@ == sr.0
                &&& (br.1 as int) <= s@.len()
                &&& s@.skip(br.1 as int) == sr.1
                &&& pos <= br.1
            },
            None => dec_bytes(s@.skip(pos as int)) is None,
        },
{
    let total = s.len();
    if total - pos < 8 {
        return None;
    }
    let n64 = read_u64(s, pos);
    proof {
        assert(s@.skip(pos as int).subrange(0, 8) =~= s@.subrange(pos as int, pos as int + 8));
    }
    if n64 > (total - pos - 8) as u64 {
        return None;
    }
    let n = n64 as usize;
    let start = pos + 8;
    let mut b: Vec<u8> = Vec::new();
    let mut i: usize = 0;
    while i < n
        invariant
            total == s@.len(),
            start + n <= total,
            i <= n,
            b@ == s@.subrange(start as int, start as int + i as int),
        decreases n - i,
    {
        b.push(s[start + i]);
        assert(b@ =~= s@.subrange(start as int, start as int + i as int + 1));
        i = i + 1;
    }
    proof {
        let tail = s@.skip(pos as int);
        assert(tail.subrange(8, 8 + n as int) =~= s@.subrange(start as int, start as int + n as int));
        assert(tail.subrange(8 + n as int, tail.len() as int) =~= s@.skip(start as int + n as int));
    }
    Some((b, start + n))
}

/// `r` with `pre` prepended to its props, if it parsed.
pub open spec fn prepend_props(pre: Seq<PropV>, r: Option<(Seq<PropV>, Seq<u8>)>) -> Option<
    (Seq<PropV>, Seq<u8>),
> {
    match r {
        Some(pr) => Some((pre + pr.0, pr.1)),
        None => None,
    }
}

/// Parses the wire format back into a payload; `None` exactly on input that
/// no payload encodes to.
pub fn decode_payload(s: &Vec<u8>) -> (r: Option<IslandPayload>)
    ensures
        match r {
            Some(p) => dec_payload(s@) == Some(p@),
            None => dec_payload(s@) is None,
        },
{
    if s.len() < 16 {
        return None;
    }
    let tag = read_u64(s, 0);
    let count = read_u64(s, 8);
    proof {
        assert(s@.subrange(0, 8) =~= s@.subrange(0 as int, 0 as int + 8));
        assert(s@.subrange(8, 16) =~= s@.subrange(8 as int, 8 as int + 8));
        assert(s@.skip(16) =~= s@.subrange(16, s@.len() as int));
    }
    let mut props: Vec<Prop> = Vec::new();
    let mut pos: usize = 16;
    let mut remaining = count;
    while remaining > 0
        invariant
            16 <= pos <= s@.len(),
            s@.len() >= 16,
            remaining <= count,
            props@.len() + remaining == count,
            tag == dec_u64(s@.subrange(0, 8)),
            count == dec_u64(s@.subrange(8, 16)),
            dec_props(s@.skip(16), count as nat) == prepend_props(
                props_view(props@),
                dec_props(s@.skip(pos as int), remaining as nat),
            ),
        decreases remaining,
    {
        let ghost old_pos = pos as int;
        let ghost old_rem = remaining as nat;
        let ghost old_props = props@;
        let name = match read_bytes(s, pos) {
            Some(nb) => nb,
            None => {
                proof {
                    assert(dec_props(s@.skip(old_pos), old_rem) is None);
                    assert(s@.skip(16) =~= s@.subrange(16, s@.len() as int));
                }
                return None;
            },
        };
        let value = match read_bytes(s, name.1) {
            Some(vb) => vb,
            None => {
                proof {
                    assert(dec_props(s@.skip(old_pos), old_rem) is None);
                    assert(s@.skip(16) =~= s@.subrange(16, s@.len() as int));
                }
                return None;
            },
        };
        let ghost nv = name.0@;
        let ghost vv = value.0@;
        props.push(Prop { name: name.0, value: value.0 });
        pos = value.1;
        remaining = remaining - 1;
        proof {
            assert(dec_props(s@.skip(old_pos), old_rem) == prepend_props(
                seq![PropV { name: nv, value: vv }],
                dec_props(s@.skip(pos as int), remaining as nat),
            ));
            assert(props_view(props@) =~= props_view(old_props) + seq![
                PropV { name: nv, value: vv },
            ]);
            match dec_props(s@.skip(pos as int), remaining as nat) {
                Some(pr) => {
                    assert(props_view(old_props) + (seq![PropV { name: nv, value: vv }] + pr.0)
                        =~= props_view(props@) + pr.0);
                },
                None => {},
            }
        }
    }
    if pos != s.len() {
        proof {
            assert(s@.skip(pos as int).len() > 0);
            assert(s@.skip(16) =~= s@.subrange(16, s@.len() as int));
        }
        return None;
    }
    proof {
        assert(s@.skip(pos as int).len() == 0);
        assert(props_view(props@) + Seq::<PropV>::empty() =~= props_view(props@));
        assert(s@.skip(16) =~= s@.subrange(16, s@.len() as int));
    }
    Some(IslandPayload { tag, props })
}

} // verus!
