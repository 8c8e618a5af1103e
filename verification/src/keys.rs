//! Storage keys as bytes: a tag for the kind of key, then the fields that
//! identify the entry.

use vstd::prelude::*;
use crate::types::{DataKey, Identity};

verus! {

/// The four bytes of an id, most significant first.
pub open spec fn id_bytes(id: u32) -> Seq<u8> {
    seq![
        (id / 0x100_0000) as u8,
        ((id / 0x1_0000) % 0x100) as u8,
        ((id / 0x100) % 0x100) as u8,
        (id % 0x100) as u8,
    ]
}

impl DataKey {
    /// The tag that tells the kinds of key apart.
    pub open spec fn tag(self) -> u8 {
        match self {
            DataKey::ProjectCounter => 0,
            DataKey::Project(_) => 1,
            DataKey::ProjectInvestments(_) => 2,
            DataKey::InvestorAmount(_, _) => 3,
            DataKey::Verifier => 4,
            DataKey::Token => 5,
        }
    }

    /// The key as bytes: its tag, then its project id if it has one, then
    /// its investor if it has one.
    pub open spec fn encoding(self) -> Seq<u8> {
        match self {
            DataKey::Project(id) => seq![self.tag()] + id_bytes(id),
            DataKey::ProjectInvestments(id) => seq![self.tag()] + id_bytes(id),
            DataKey::InvestorAmount(id, who) => seq![self.tag()] + id_bytes(id) + who.key@,
            _ => seq![self.tag()],
        }
    }

    /// The key as bytes.
    pub fn encode(&self) -> (r: Vec<u8>)
        ensures
            r@ == self.encoding(),
    {
        let mut out: Vec<u8> = Vec::new();
        match self {
            DataKey::ProjectCounter => {
                out.push(0);
            },
            DataKey::Project(id) => {
                out.push(1);
                push_id(&mut out, *id);
            },
            DataKey::ProjectInvestments(id) => {
                out.push(2);
                push_id(&mut out, *id);
            },
            DataKey::InvestorAmount(id, who) => {
                out.push(3);
                push_id(&mut out, *id);
                push_identity(&mut out, who);
            },
            DataKey::Verifier => {
                out.push(4);
            },
            DataKey::Token => {
                out.push(5);
            },
        }
        assert(out@ =~= self.encoding());
        out
    }
}

fn push_id(out: &mut Vec<u8>, id: u32)
    ensures
        final(out)@ == old(out)@ + id_bytes(id),
{
    out.push((id / 0x100_0000) as u8);
    out.push(((id / 0x1_0000) % 0x100) as u8);
    out.push(((id / 0x100) % 0x100) as u8);
    out.push((id % 0x100) as u8);
    assert(out@ =~= old(out)@ + id_bytes(id));
}

fn push_identity(out: &mut Vec<u8>, who: &Identity)
    ensures
        final(out)@ == old(out)@ + who.key@,
{
    let mut i: usize = 0;
    while i < 56
        invariant
            i <= 56,
            out@ == old(out)@ + who.key@.take(i as int),
        decreases 56 - i,
    {
        out.push(who.key[i]);
        assert(out@ =~= old(out)@ + who.key@.take(i + 1));
        i = i + 1;
    }
    assert(who.key@.take(56) =~= who.key@);
}

/// Ids with the same four bytes are the same id.
pub proof fn lemma_id_bytes_injective(a: u32, b: u32)
    requires
        id_bytes(a) == id_bytes(b),
    ensures
        a == b,
{
    assert(id_bytes(a)[0] == id_bytes(b)[0]);
    assert(id_bytes(a)[1] == id_bytes(b)[1]);
    assert(id_bytes(a)[2] == id_bytes(b)[2]);
    assert(id_bytes(a)[3] == id_bytes(b)[3]);
}

/// No two logical keys collide: keys with the same bytes are the same key.
pub proof fn law_keys_do_not_collide(a: DataKey, b: DataKey)
    requires
        a.encoding() == b.encoding(),
    ensures
        a == b,
{
    let ea = a.encoding();
    let eb = b.encoding();
    assert(ea[0] == a.tag());
    assert(eb[0] == b.tag());
    assert(a.tag() == b.tag());
    match (a, b) {
        (DataKey::Project(x), DataKey::Project(y)) => {
            assert(id_bytes(x) =~= ea.subrange(1, 5));
            assert(id_bytes(y) =~= eb.subrange(1, 5));
            lemma_id_bytes_injective(x, y);
        },
        (DataKey::ProjectInvestments(x), DataKey::ProjectInvestments(y)) => {
            assert(id_bytes(x) =~= ea.subrange(1, 5));
            assert(id_bytes(y) =~= eb.subrange(1, 5));
            lemma_id_bytes_injective(x, y);
        },
        (DataKey::InvestorAmount(x, p), DataKey::InvestorAmount(y, q)) => {
            assert(id_bytes(x) =~= ea.subrange(1, 5));
            assert(id_bytes(y) =~= eb.subrange(1, 5));
            lemma_id_bytes_injective(x, y);
            assert(p.key@ =~= ea.subrange(5, 61));
            assert(q.key@ =~= eb.subrange(5, 61));
            assert(p.key =~= q.key);
        },
        _ => {},
    }
}

} // verus!
