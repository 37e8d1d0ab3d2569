//! The challenger record: one per challenge and challenger key, held in the
//! account at the address derived from both.

use vstd::prelude::*;
use vstd::slice::slice_to_vec;
use crate::address::{
    address_of, derive_address, push_bump, seed_bytes, spec_derive_address, spec_is_on_curve,
    with_bump, Address, CHALLENGE_PROGRAM_ID,
};
use crate::state::challenge::SEED_PREFIX;
use crate::wire::{
    dec_bool, dec_key, dec_u8, enc_bool, enc_key, enc_u8, lemma_bool_dec_enc, lemma_bool_enc_dec,
    lemma_join, lemma_key_dec_enc, lemma_key_enc_dec, lemma_u8_dec_enc, lemma_u8_enc_dec, put_bool,
    put_key, put_u8, read_bool, read_key, read_u8, rest_of, value_of, Decoded,
};

verus! {

/// The bytes of a challenger record: two keys, the tries, the flag.
pub const CHALLENGER_SIZE: usize = 32 + 32 + 1 + 1;

/// The state of a challenger that was admitted to a challenge.
#[derive(Clone, Copy, Debug, PartialEq, Eq)]
pub struct Challenger {
    /// The key of the challenger.
    pub authority: Address,
    /// The address of the challenge that the challenger was admitted to.
    pub challenge_pda: Address,
    /// The attempts to redeem that the challenger has left.
    pub tries_remaining: u8,
    /// Whether the challenger redeemed at least once.
    pub redeemed: bool,
}

/// The seeds from which the address of a challenger record is derived.
pub open spec fn challenger_seeds(challenge_pda: Address, challenger: Address) -> Seq<Seq<u8>> {
    seq![SEED_PREFIX@, challenge_pda@, challenger@]
}

/// The address of the record of a challenger for a challenge, with its bump
/// seed.
pub open spec fn spec_challenger_pda(challenge_pda: Address, challenger: Address) -> Option<(Address, u8)> {
    spec_derive_address(CHALLENGE_PROGRAM_ID, challenger_seeds(challenge_pda, challenger))
}

impl Challenger {
    /// The byte layout of the record: its fields in declaration order.
    pub open spec fn encode(self) -> Seq<u8> {
        enc_key(self.authority) + (enc_key(self.challenge_pda) + (enc_u8(self.tries_remaining) + enc_bool(
            self.redeemed,
        )))
    }

    /// The record at the front of a byte sequence, with the bytes that
    /// follow it: the fields are read in order.
    pub open spec fn decode_front(b: Seq<u8>) -> Decoded<Challenger> {
        let authority = dec_key(b);
        let challenge_pda = dec_key(rest_of(authority));
        let tries_remaining = dec_u8(rest_of(challenge_pda));
        let redeemed = dec_bool(rest_of(tries_remaining));
        if authority is Some && challenge_pda is Some && tries_remaining is Some && redeemed is Some {
            Some(
                (
                    Challenger {
                        authority: value_of(authority),
                        challenge_pda: value_of(challenge_pda),
                        tries_remaining: value_of(tries_remaining),
                        redeemed: value_of(redeemed),
                    },
                    rest_of(redeemed),
                ),
            )
        } else {
            None
        }
    }

    /// The record that a byte sequence holds, if it is the layout of one:
    /// the record at its front, with no byte left over.
    pub open spec fn decode(b: Seq<u8>) -> Option<Challenger> {
        match Challenger::decode_front(b) {
            Some((record, rest)) => if rest.len() == 0 {
                Some(record)
            } else {
                None
            },
            None => None,
        }
    }

    /// The record at the front of a byte sequence, whatever follows it.
    pub open spec fn decode_unchecked(b: Seq<u8>) -> Option<Challenger> {
        match Challenger::decode_front(b) {
            Some((record, _)) => Some(record),
            None => None,
        }
    }

    /// The bytes that the account of a challenger takes.
    pub fn size() -> (size: usize)
        ensures
            size == CHALLENGER_SIZE,
    {
        CHALLENGER_SIZE
    }

    /// The seeds from which the address of a challenger record is derived.
    pub fn seeds_for(challenge_pda: &Address, challenger: &Address) -> (seeds: Vec<Vec<u8>>)
        ensures
            seed_bytes(seeds@) == challenger_seeds(*challenge_pda, *challenger),
    {
        let mut seeds: Vec<Vec<u8>> = Vec::new();
        seeds.push(slice_to_vec(SEED_PREFIX.as_slice()));
        seeds.push(slice_to_vec(challenge_pda.as_slice()));
        seeds.push(slice_to_vec(challenger.as_slice()));
        assert(seed_bytes(seeds@) =~= challenger_seeds(*challenge_pda, *challenger));
        seeds
    }

    /// The seeds with which the program signs for a challenger record.
    pub fn seeds_with_bump(challenge_pda: &Address, challenger: &Address, bump: u8) -> (seeds: Vec<Vec<u8>>)
        ensures
            seed_bytes(seeds@) == with_bump(challenger_seeds(*challenge_pda, *challenger), bump),
    {
        let mut seeds = Challenger::seeds_for(challenge_pda, challenger);
        push_bump(&mut seeds, bump);
        seeds
    }

    /// The address of the record of a challenger for a challenge, with its
    /// bump seed; `None` where none can be derived.
    pub fn pda_for(challenge_pda: &Address, challenger: &Address) -> (pda: Option<(Address, u8)>)
        ensures
            pda == spec_challenger_pda(*challenge_pda, *challenger),
            pda is Some ==> !spec_is_on_curve(address_of(pda)@),
    {
        let seeds = Challenger::seeds_for(challenge_pda, challenger);
        derive_address(&seeds, &CHALLENGE_PROGRAM_ID)
    }

    /// The address of this record, with its bump seed.
    pub fn pda(&self) -> (pda: Option<(Address, u8)>)
        ensures
            pda == spec_challenger_pda(self.challenge_pda, self.authority),
    {
        Challenger::pda_for(&self.challenge_pda, &self.authority)
    }

    /// The byte layout of the record.
    pub fn to_vec(&self) -> (bytes: Vec<u8>)
        ensures
            bytes@ == self.encode(),
            bytes@.len() == CHALLENGER_SIZE,
    {
        let mut out: Vec<u8> = Vec::new();
        put_key(&mut out, &self.authority);
        put_key(&mut out, &self.challenge_pda);
        put_u8(&mut out, self.tries_remaining);
        put_bool(&mut out, self.redeemed);
        assert(out@ =~= self.encode());
        out
    }

    /// Reads the record at the front of a byte sequence, and gives the
    /// position after it.
    fn read_front(bytes: &[u8]) -> (r: Option<(Challenger, usize)>)
        ensures
            match r {
                Some((c, next)) => next <= bytes.len() && Challenger::decode_front(bytes@) == Some(
                    (c, bytes@.skip(next as int)),
                ),
                None => Challenger::decode_front(bytes@) is None,
            },
    {
        assert(bytes@.skip(0) =~= bytes@);
        let (authority, pos) = match read_key(bytes, 0) {
            Some(found) => found,
            None => { return None; },
        };
        let (challenge_pda, pos) = match read_key(bytes, pos) {
            Some(found) => found,
            None => { return None; },
        };
        let (tries_remaining, pos) = match read_u8(bytes, pos) {
            Some(found) => found,
            None => { return None; },
        };
        let (redeemed, pos) = match read_bool(bytes, pos) {
            Some(found) => found,
            None => { return None; },
        };
        Some((Challenger { authority, challenge_pda, tries_remaining, redeemed }, pos))
    }

    /// The record that a byte sequence holds; `None` where the bytes are not
    /// the layout of a record.
    pub fn try_from_slice(bytes: &[u8]) -> (record: Option<Challenger>)
        ensures
            record == Challenger::decode(bytes@),
    {
        match Challenger::read_front(bytes) {
            Some((record, next)) => if next == bytes.len() {
                Some(record)
            } else {
                None
            },
            None => None,
        }
    }

    /// The record at the front of a byte sequence, whatever follows it;
    /// `None` where the bytes do not start with the layout of a record.
    pub fn try_from_slice_unchecked(bytes: &[u8]) -> (record: Option<Challenger>)
        ensures
            record == Challenger::decode_unchecked(bytes@),
    {
        match Challenger::read_front(bytes) {
            Some((record, _)) => Some(record),
            None => None,
        }
    }
}

impl View for Challenger {
    type V = Challenger;

    open spec fn view(&self) -> Challenger {
        *self
    }
}

/// The record whose layout starts a byte sequence is read from its front.
pub proof fn lemma_challenger_front(c: Challenger, rest: Seq<u8>)
    ensures
        Challenger::decode_front(c.encode() + rest) == Some((c, rest)),
{
    let t3 = enc_bool(c.redeemed) + rest;
    let t2 = enc_u8(c.tries_remaining) + t3;
    let t1 = enc_key(c.challenge_pda) + t2;
    let e3 = enc_bool(c.redeemed);
    let e2 = enc_u8(c.tries_remaining) + e3;
    let e1 = enc_key(c.challenge_pda) + e2;
    lemma_join(enc_u8(c.tries_remaining), e3, rest);
    lemma_join(enc_key(c.challenge_pda), e2, rest);
    lemma_join(enc_key(c.authority), e1, rest);
    lemma_key_enc_dec(c.authority, t1);
    lemma_key_enc_dec(c.challenge_pda, t2);
    lemma_u8_enc_dec(c.tries_remaining, t3);
    lemma_bool_enc_dec(c.redeemed, rest);
}

/// What a record was read from starts with the layout of the record.
pub proof fn lemma_challenger_front_layout(b: Seq<u8>)
    requires
        Challenger::decode_front(b) is Some,
    ensures
        b == value_of(Challenger::decode_front(b)).encode() + rest_of(Challenger::decode_front(b)),
        value_of(Challenger::decode_front(b)).encode().len() == CHALLENGER_SIZE,
{
    let authority = dec_key(b);
    let challenge_pda = dec_key(rest_of(authority));
    let tries_remaining = dec_u8(rest_of(challenge_pda));
    let redeemed = dec_bool(rest_of(tries_remaining));
    lemma_key_dec_enc(b);
    lemma_key_dec_enc(rest_of(authority));
    lemma_u8_dec_enc(rest_of(challenge_pda));
    lemma_bool_dec_enc(rest_of(tries_remaining));
    let rest = rest_of(redeemed);
    let e3 = enc_bool(value_of(redeemed));
    let e2 = enc_u8(value_of(tries_remaining)) + e3;
    let e1 = enc_key(value_of(challenge_pda)) + e2;
    lemma_join(enc_u8(value_of(tries_remaining)), e3, rest);
    lemma_join(enc_key(value_of(challenge_pda)), e2, rest);
    lemma_join(enc_key(value_of(authority)), e1, rest);
}

/// Decoding undoes encoding.
pub proof fn lemma_challenger_decode_encode(c: Challenger)
    ensures
        Challenger::decode(c.encode()) == Some(c),
{
    assert(c.encode() =~= c.encode() + Seq::<u8>::empty());
    lemma_challenger_front(c, Seq::<u8>::empty());
}

/// Encoding undoes decoding: only the layout of a record decodes to it.
pub proof fn lemma_challenger_encode_decode(b: Seq<u8>)
    requires
        Challenger::decode(b) is Some,
    ensures
        Challenger::decode(b)->0.encode() == b,
        b.len() == CHALLENGER_SIZE,
{
    lemma_challenger_front_layout(b);
    let record = Challenger::decode(b)->0;
    assert(rest_of(Challenger::decode_front(b)) =~= Seq::<u8>::empty());
    assert(record.encode() + Seq::<u8>::empty() =~= record.encode());
}

/// Bytes that follow the layout of a record are ignored where the record
/// is read without the check that none is left over.
pub proof fn lemma_challenger_decode_unchecked(c: Challenger, rest: Seq<u8>)
    ensures
        Challenger::decode_unchecked(c.encode() + rest) == Some(c),
{
    lemma_challenger_front(c, rest);
}

} // verus!
