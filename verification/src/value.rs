//! The single-value accessor: address derivation, the query conversion
//! contract, and the read/write/mutate/delete/append/measure operations.

use vstd::prelude::*;

use crate::codec::Codec;
use crate::codec::decode_compact_u32;
use crate::codec::encode_compact_u32;
use crate::codec::encode_u64;
use crate::codec::encode_vec_u64;
use crate::codec::lemma_compact_roundtrip;
use crate::codec::lemma_elems_len;
use crate::codec::lemma_elems_push;
use crate::codec::lemma_encode_vec_u64_injective;
use crate::codec::lemma_vec_u64_roundtrip;
use crate::codec::spec_compact_decode;
use crate::codec::spec_compact_len;
use crate::codec::spec_compact_u32;
use crate::codec::spec_decode_vec_u64;
use crate::codec::spec_encode_elems;
use crate::codec::spec_encode_vec_u64;
use crate::hash;
use crate::store::Store;
use vstd::pervasive::unreached;

verus! {

/// One declared storage value: two static name segments, the value type's
/// encoding, and the two query conversions.  Everything else is derived.
pub trait StorageValue {
    /// The type held in storage.
    type Value: Codec;

    /// The type read-like operations hand to the caller.
    type Query: DeepView;

    /// The owner-scope name segment.
    spec fn spec_module_prefix() -> Seq<u8>;

    /// The value name segment.
    spec fn spec_storage_prefix() -> Seq<u8>;

    fn module_prefix() -> (r: Vec<u8>)
        ensures
            r@ == Self::spec_module_prefix(),
    ;

    fn storage_prefix() -> (r: Vec<u8>)
        ensures
            r@ == Self::spec_storage_prefix(),
    ;

    /// What the caller sees for a present or absent decoded value.
    spec fn spec_from_optional_value_to_query(
        v: Option<<Self::Value as DeepView>::V>,
    ) -> <Self::Query as DeepView>::V;

    /// What a query stores: a value, or nothing.
    spec fn spec_from_query_to_optional_value(
        q: <Self::Query as DeepView>::V,
    ) -> Option<<Self::Value as DeepView>::V>;

    fn from_optional_value_to_query(v: Option<Self::Value>) -> (q: Self::Query)
        ensures
            q.deep_view() == Self::spec_from_optional_value_to_query(v.deep_view()),
    ;

    fn from_query_to_optional_value(q: Self::Query) -> (v: Option<Self::Value>)
        ensures
            v.deep_view() == Self::spec_from_query_to_optional_value(q.deep_view()),
    ;

    /// A query reached from a stored value maps back to that value.
    proof fn lemma_query_roundtrip(m: <Self::Value as DeepView>::V)
        ensures
            Self::spec_from_query_to_optional_value(
                Self::spec_from_optional_value_to_query(Some(m)),
            ) == Some(m),
    ;
}

// ---------------------------------------------------------------------------
// Address derivation
// ---------------------------------------------------------------------------

/// The 32-byte address of a value: the 16-byte hash of each name segment,
/// concatenated.  A pure function of the two segments.
pub open spec fn spec_final_key(module_prefix: Seq<u8>, storage_prefix: Seq<u8>) -> Seq<u8> {
    hash::spec_twox128(module_prefix) + hash::spec_twox128(storage_prefix)
}

/// The address of `G`'s value.
pub open spec fn spec_key<G: StorageValue>() -> Seq<u8> {
    spec_final_key(G::spec_module_prefix(), G::spec_storage_prefix())
}

/// Derive the full storage address.  Recomputed on every call; two calls for
/// the same declared value always return the same bytes.
pub fn storage_value_final_key<G: StorageValue>() -> (r: Vec<u8>)
    ensures
        r@ == spec_key::<G>(),
        r@.len() == 32,
{
    let mut k = hash::twox_128(G::module_prefix().as_slice());
    let mut tail = hash::twox_128(G::storage_prefix().as_slice());
    k.append(&mut tail);
    k
}

/// The address under which the value is stored.
pub fn hashed_key<G: StorageValue>() -> (r: Vec<u8>)
    ensures
        r@ == spec_key::<G>(),
        r@.len() == 32,
{
    storage_value_final_key::<G>()
}

// ---------------------------------------------------------------------------
// What the store holds, at the spec level
// ---------------------------------------------------------------------------

/// The raw payload at `G`'s address, if one is held.
pub open spec fn spec_raw<G: StorageValue>(m: Map<Seq<u8>, Seq<u8>>) -> Option<Seq<u8>> {
    if m.contains_key(spec_key::<G>()) {
        Some(m[spec_key::<G>()])
    } else {
        None
    }
}

/// The decoded value at `G`'s address; an absent or undecodable payload is
/// `None`.
pub open spec fn spec_decoded<G: StorageValue>(m: Map<Seq<u8>, Seq<u8>>) -> Option<
    <G::Value as DeepView>::V,
> {
    match spec_raw::<G>(m) {
        None => None,
        Some(b) => <G::Value as Codec>::spec_decode(b),
    }
}

/// The query a read returns for store contents `m`.
pub open spec fn spec_get<G: StorageValue>(m: Map<Seq<u8>, Seq<u8>>) -> <G::Query as DeepView>::V {
    G::spec_from_optional_value_to_query(spec_decoded::<G>(m))
}

/// The store after committing an optional value: a present value is encoded
/// and written, an absent one deletes the slot.
pub open spec fn spec_commit_opt<G: StorageValue>(
    m: Map<Seq<u8>, Seq<u8>>,
    ov: Option<<G::Value as DeepView>::V>,
) -> Map<Seq<u8>, Seq<u8>> {
    match ov {
        Some(vm) => m.insert(spec_key::<G>(), <G::Value as Codec>::spec_encode(vm)),
        None => m.remove(spec_key::<G>()),
    }
}

/// The store after committing a query value.
pub open spec fn spec_commit<G: StorageValue>(
    m: Map<Seq<u8>, Seq<u8>>,
    qm: <G::Query as DeepView>::V,
) -> Map<Seq<u8>, Seq<u8>> {
    spec_commit_opt::<G>(m, G::spec_from_query_to_optional_value(qm))
}

// ---------------------------------------------------------------------------
// The operations
// ---------------------------------------------------------------------------

/// Whether a payload is stored for `G`.
pub fn exists_value<G: StorageValue>(s: &Store) -> (r: bool)
    ensures
        r == s@.contains_key(spec_key::<G>()),
{
    let key = storage_value_final_key::<G>();
    s.contains(key.as_slice())
}

/// Read the query value; absence and an undecodable payload both yield the
/// converted `None`.  Never fails.
pub fn get<G: StorageValue>(s: &Store) -> (q: G::Query)
    ensures
        q.deep_view() == spec_get::<G>(s@),
{
    let key = storage_value_final_key::<G>();
    let opt_v: Option<G::Value> = match s.get_raw(key.as_slice()) {
        Some(bytes) => <G::Value as Codec>::decode(bytes.as_slice()),
        None => None,
    };
    G::from_optional_value_to_query(opt_v)
}

/// Read the stored value itself; fails if no payload is held or the payload
/// does not decode.
pub fn try_get<G: StorageValue>(s: &Store) -> (r: Result<G::Value, ()>)
    ensures
        match r {
            Ok(v) => spec_decoded::<G>(s@) == Some(v.deep_view()),
            Err(_) => spec_decoded::<G>(s@) is None,
        },
{
    let key = storage_value_final_key::<G>();
    match s.get_raw(key.as_slice()) {
        Some(bytes) => match <G::Value as Codec>::decode(bytes.as_slice()) {
            Some(v) => Ok(v),
            None => Err(()),
        },
        None => Err(()),
    }
}

/// Encode `v` and store it, overwriting any payload.
pub fn put<G: StorageValue>(s: &mut Store, v: &G::Value)
    requires
        <G::Value as Codec>::spec_encodable(v.deep_view()),
    ensures
        final(s)@ == old(s)@.insert(spec_key::<G>(), <G::Value as Codec>::spec_encode(v.deep_view())),
{
    let key = storage_value_final_key::<G>();
    let bytes = <G::Value as Codec>::encode(v);
    s.put_raw(key, bytes);
}

/// Delete the payload; does nothing if none is held.
pub fn kill<G: StorageValue>(s: &mut Store)
    ensures
        final(s)@ == old(s)@.remove(spec_key::<G>()),
{
    let key = storage_value_final_key::<G>();
    s.kill(key.as_slice());
}

/// Commit a query value: a query mapping to a value stores it, one mapping
/// to nothing frees the slot.
pub fn set<G: StorageValue>(s: &mut Store, q: G::Query)
    requires
        G::spec_from_query_to_optional_value(q.deep_view()) matches Some(vm) ==> <G::Value as Codec>::spec_encodable(vm),
    ensures
        final(s)@ == spec_commit::<G>(old(s)@, q.deep_view()),
{
    match G::from_query_to_optional_value(q) {
        Some(v) => put::<G>(s, &v),
        None => kill::<G>(s),
    }
}

/// Read the query value and clear the slot.  The slot is deleted only when
/// the typed read succeeded: an undecodable payload reads as absent but is
/// left in place.
pub fn take<G: StorageValue>(s: &mut Store) -> (q: G::Query)
    ensures
        q.deep_view() == spec_get::<G>(old(s)@),
        final(s)@ == (if spec_decoded::<G>(old(s)@) is Some {
            old(s)@.remove(spec_key::<G>())
        } else {
            old(s)@
        }),
{
    let key = storage_value_final_key::<G>();
    let opt_v: Option<G::Value> = match s.get_raw(key.as_slice()) {
        Some(bytes) => <G::Value as Codec>::decode(bytes.as_slice()),
        None => None,
    };
    if opt_v.is_some() {
        s.kill(key.as_slice());
    }
    G::from_optional_value_to_query(opt_v)
}

/// Read, apply `f`, and commit its result.  The closure cannot fail, so the
/// commit always happens.
pub fn mutate<G: StorageValue, R, F: FnOnce(G::Query) -> (G::Query, R)>(s: &mut Store, f: F) -> (r:
    R)
    requires
        forall|q: G::Query| q.deep_view() == spec_get::<G>(old(s)@) ==> #[trigger] call_requires(
            f,
            (q,),
        ),
        forall|q: G::Query, q2: G::Query, rv: R|
            #[trigger] call_ensures(f, (q,), (q2, rv)) ==> (
            G::spec_from_query_to_optional_value(q2.deep_view()) matches Some(vm)
                ==> <G::Value as Codec>::spec_encodable(vm)),
    ensures
        exists|q: G::Query, q2: G::Query|
            q.deep_view() == spec_get::<G>(old(s)@) && #[trigger] call_ensures(f, (q,), (q2, r))
                && final(s)@ == spec_commit::<G>(old(s)@, q2.deep_view()),
{
    let q = get::<G>(s);
    let (q2, rv) = f(q);
    set::<G>(s, q2);
    rv
}

/// Read, apply `f`, and commit only on success: if `f` fails, the store is
/// left byte-identical and the error is returned.
pub fn try_mutate<G: StorageValue, R, E, F: FnOnce(G::Query) -> Result<(G::Query, R), E>>(
    s: &mut Store,
    f: F,
) -> (r: Result<R, E>)
    requires
        forall|q: G::Query| q.deep_view() == spec_get::<G>(old(s)@) ==> #[trigger] call_requires(
            f,
            (q,),
        ),
        forall|q: G::Query, q2: G::Query, rv: R|
            #[trigger] call_ensures(f, (q,), Ok((q2, rv))) ==> (
            G::spec_from_query_to_optional_value(q2.deep_view()) matches Some(vm)
                ==> <G::Value as Codec>::spec_encodable(vm)),
    ensures
        r matches Ok(rv) ==> spec_mutated_ok::<G, R, E, F>(f, old(s)@, final(s)@, rv),
        r matches Err(e) ==> final(s)@ == old(s)@ && spec_mutated_err::<G, R, E, F>(
            f,
            old(s)@,
            e,
        ),
{
    let q = get::<G>(s);
    match f(q) {
        Ok((q2, rv)) => {
            set::<G>(s, q2);
            proof {
                assert(q.deep_view() == spec_get::<G>(old(s)@) && call_ensures(
                    f,
                    (q,),
                    Ok::<(G::Query, R), E>((q2, rv)),
                ) && s@ == spec_commit::<G>(old(s)@, q2.deep_view()));
                assert(spec_mutated_ok::<G, R, E, F>(f, old(s)@, s@, rv));
            }
            Ok(rv)
        },
        Err(e) => {
            proof {
                assert(q.deep_view() == spec_get::<G>(old(s)@) && call_ensures(
                    f,
                    (q,),
                    Err::<(G::Query, R), E>(e),
                ));
                assert(spec_mutated_err::<G, R, E, F>(f, old(s)@, e));
            }
            Err(e)
        },
    }
}

/// A failed conditional mutation: `f` refused some query read from `pre`.
pub open spec fn spec_mutated_err<
    G: StorageValue,
    R,
    E,
    F: FnOnce(G::Query) -> Result<(G::Query, R), E>,
>(f: F, pre: Map<Seq<u8>, Seq<u8>>, e: E) -> bool {
    exists|q: G::Query|
        q.deep_view() == spec_get::<G>(pre) && #[trigger] call_ensures(f, (q,), Err(e))
}

/// One successful conditional mutation: some query read from `pre` was taken
/// by `f` to the committed query and the returned value.
pub open spec fn spec_mutated_ok<
    G: StorageValue,
    R,
    E,
    F: FnOnce(G::Query) -> Result<(G::Query, R), E>,
>(f: F, pre: Map<Seq<u8>, Seq<u8>>, post: Map<Seq<u8>, Seq<u8>>, rv: R) -> bool {
    exists|q: G::Query, q2: G::Query|
        q.deep_view() == spec_get::<G>(pre) && #[trigger] call_ensures(f, (q,), Ok((q2, rv)))
            && post == spec_commit::<G>(pre, q2.deep_view())
}

/// What translation reads: `Some(None)` for an absent payload, `Some(Some)`
/// for one decoding as the old format, `None` where decoding fails.
pub open spec fn spec_translate_input<G: StorageValue, O: Codec>(m: Map<Seq<u8>, Seq<u8>>) -> Option<
    Option<<O as DeepView>::V>,
> {
    match spec_raw::<G>(m) {
        None => Some(None),
        Some(b) => match <O as Codec>::spec_decode(b) {
            Some(vm) => Some(Some(vm)),
            None => None,
        },
    }
}

/// Migrate the payload from old format `O`: decode it (failing, with the
/// store untouched, if it does not parse), apply `f`, store a present result
/// and delete on an absent one, and hand the result back.
pub fn translate<G: StorageValue, O: Codec, F: FnOnce(Option<O>) -> Option<G::Value>>(
    s: &mut Store,
    f: F,
) -> (r: Result<Option<G::Value>, ()>)
    requires
        forall|ov: Option<O>| Some(ov.deep_view()) == spec_translate_input::<G, O>(old(s)@)
            ==> #[trigger] call_requires(f, (ov,)),
        forall|ov: Option<O>, nv: Option<G::Value>|
            #[trigger] call_ensures(f, (ov,), nv) ==> (nv.deep_view() matches Some(vm)
                ==> <G::Value as Codec>::spec_encodable(vm)),
    ensures
        match r {
            Ok(nv) => (exists|ov: Option<O>|
                Some(ov.deep_view()) == spec_translate_input::<G, O>(old(s)@)
                    && #[trigger] call_ensures(f, (ov,), nv)) && final(s)@ == spec_commit_opt::<G>(
                old(s)@,
                nv.deep_view(),
            ),
            Err(_) => spec_translate_input::<G, O>(old(s)@) is None && final(s)@ == old(s)@,
        },
{
    let key = storage_value_final_key::<G>();
    let maybe_old: Option<O>;
    match s.get_raw(key.as_slice()) {
        Some(bytes) => {
            match <O as Codec>::decode(bytes.as_slice()) {
                Some(o) => {
                    maybe_old = Some(o);
                },
                None => {
                    return Err(());
                },
            }
        },
        None => {
            maybe_old = None;
        },
    }
    let maybe_new = f(maybe_old);
    match &maybe_new {
        Some(v) => {
            let bytes = <G::Value as Codec>::encode(v);
            s.put_raw(key, bytes);
        },
        None => {
            s.kill(key.as_slice());
        },
    }
    Ok(maybe_new)
}

// ---------------------------------------------------------------------------
// Sequence-shaped payloads: append without decode, length-only decode
// ---------------------------------------------------------------------------

/// How many bytes the compact form of `n` occupies.
fn compact_len_u32(n: u32) -> (r: usize)
    ensures
        r == spec_compact_len(n),
{
    if n < 64 {
        1
    } else if n < 16384 {
        2
    } else if n < 0x4000_0000 {
        4
    } else {
        5
    }
}

/// Append one encoded element to the payload and bump the length prefix,
/// without decoding the existing elements.  A missing payload becomes a
/// one-element sequence.  Any pre-existing payload must be a well-formed
/// sequence encoding; that is the caller's obligation and is not checked.
pub fn append<G: StorageValue<Value = Vec<u64>>>(s: &mut Store, item: u64)
    requires
        spec_raw::<G>(old(s)@) matches Some(b) ==> exists|xs: Seq<u64>|
            b == spec_encode_vec_u64(xs) && xs.len() < 0xffff_ffff,
    ensures
        spec_raw::<G>(old(s)@) is None ==> final(s)@ == old(s)@.insert(
            spec_key::<G>(),
            spec_encode_vec_u64(seq![item]),
        ),
        forall|xs: Seq<u64>|
            xs.len() < 0xffff_ffff && spec_raw::<G>(old(s)@) == Some(spec_encode_vec_u64(xs))
                ==> final(s)@ == old(s)@.insert(
                spec_key::<G>(),
                spec_encode_vec_u64(xs.push(item)),
            ),
{
    let key = storage_value_final_key::<G>();
    match s.get_raw(key.as_slice()) {
        None => {
            let mut one: Vec<u64> = Vec::new();
            one.push(item);
            proof {
                assert(one@ =~= seq![item]);
            }
            let bytes = encode_vec_u64(&one);
            s.put_raw(key, bytes);
        },
        Some(p) => {
            let ghost xs0 = choose|xs: Seq<u64>|
                p@ == spec_encode_vec_u64(xs) && xs.len() < 0xffff_ffff;
            proof {
                lemma_compact_roundtrip(xs0.len() as u32, spec_encode_elems(xs0));
                lemma_elems_len(xs0);
            }
            let n = match decode_compact_u32(p.as_slice()) {
                Some(n) => n,
                None => unreached(),
            };
            let clen = compact_len_u32(n);
            let mut out = encode_compact_u32(n + 1);
            let mut i: usize = clen;
            while i < p.len()
                invariant
                    n == xs0.len() as u32,
                    n < 0xffff_ffff,
                    clen == spec_compact_len(n),
                    clen <= i <= p@.len(),
                    out@ == spec_compact_u32((n + 1) as u32) + p@.subrange(
                        clen as int,
                        i as int,
                    ),
                decreases p@.len() - i,
            {
                let b = p[i];
                out.push(b);
                proof {
                    assert(out@ =~= spec_compact_u32((n + 1) as u32) + p@.subrange(
                        clen as int,
                        i + 1,
                    ));
                }
                i += 1;
            }
            let mut ib = encode_u64(item);
            out.append(&mut ib);
            proof {
                assert(p@.subrange(clen as int, p@.len() as int) =~= spec_encode_elems(xs0));
                lemma_elems_push(xs0, item);
                assert(out@ =~= spec_encode_vec_u64(xs0.push(item)));
            }
            s.put_raw(key, out);
            proof {
                assert forall|xs: Seq<u64>|
                    xs.len() < 0xffff_ffff && spec_raw::<G>(old(s)@) == Some(
                        spec_encode_vec_u64(xs),
                    ) implies s@ == old(s)@.insert(
                    spec_key::<G>(),
                    spec_encode_vec_u64(xs.push(item)),
                ) by {
                    lemma_encode_vec_u64_injective(xs, xs0);
                }
            }
        },
    }
}

/// The length reported for an absent payload: the length of the value the
/// default query maps back to, or zero if it maps to none.
pub open spec fn spec_absent_len<G: StorageValue<Value = Vec<u64>>>() -> int {
    match G::spec_from_query_to_optional_value(G::spec_from_optional_value_to_query(None)) {
        Some(sm) => sm.len() as int,
        None => 0,
    }
}

/// Read only the length prefix of the payload, without decoding elements.
/// An absent payload reports the default value's length; a payload whose
/// prefix does not parse is an error.
pub fn decode_len<G: StorageValue<Value = Vec<u64>>>(s: &Store) -> (r: Result<usize, &'static str>)
    ensures
        match spec_raw::<G>(s@) {
            None => r matches Ok(l) && l == spec_absent_len::<G>(),
            Some(b) => match spec_compact_decode(b) {
                Some(n) => r matches Ok(l) && l == n,
                None => r is Err,
            },
        },
{
    let key = storage_value_final_key::<G>();
    match s.get_raw(key.as_slice()) {
        Some(bytes) => match decode_compact_u32(bytes.as_slice()) {
            Some(n) => Ok(n as usize),
            None => Err("could not decode the length prefix"),
        },
        None => {
            let q = G::from_optional_value_to_query(None);
            match G::from_query_to_optional_value(q) {
                Some(v) => Ok(v.len()),
                None => Ok(0),
            }
        },
    }
}

// ---------------------------------------------------------------------------
// Laws
// ---------------------------------------------------------------------------

/// Writing a value and decoding the stored payload yields the value back.
pub proof fn lemma_put_roundtrip<G: StorageValue>(
    m: Map<Seq<u8>, Seq<u8>>,
    vm: <G::Value as DeepView>::V,
)
    requires
        <G::Value as Codec>::spec_encodable(vm),
    ensures
        spec_decoded::<G>(m.insert(spec_key::<G>(), <G::Value as Codec>::spec_encode(vm))) == Some(
            vm,
        ),
{
    <G::Value as Codec>::lemma_codec_roundtrip(vm);
}

/// A query that maps to no stored value frees the slot when committed.
pub proof fn lemma_set_default_deletes<G: StorageValue>(
    m: Map<Seq<u8>, Seq<u8>>,
    qm: <G::Query as DeepView>::V,
)
    requires
        G::spec_from_query_to_optional_value(qm) is None,
    ensures
        !spec_commit::<G>(m, qm).contains_key(spec_key::<G>()),
{
}

/// The payload after one append: a fresh one-element sequence over an absent
/// payload, otherwise the stored sequence extended by the element.
pub open spec fn spec_append_payload(p: Option<Seq<u8>>, item: u64) -> Seq<u8> {
    match p {
        None => spec_encode_vec_u64(seq![item]),
        Some(b) => {
            let xs = choose|xs: Seq<u64>| b == spec_encode_vec_u64(xs) && xs.len() < 0xffff_ffff;
            spec_encode_vec_u64(xs.push(item))
        },
    }
}

/// The payload built by appending the elements of `xs` in order, starting
/// from an absent payload.
pub open spec fn spec_append_chain(xs: Seq<u64>) -> Seq<u8>
    recommends
        1 <= xs.len(),
    decreases xs.len(),
{
    if xs.len() == 0 {
        Seq::<u8>::empty()
    } else if xs.len() == 1 {
        spec_append_payload(None, xs[0])
    } else {
        spec_append_payload(Some(spec_append_chain(xs.drop_last())), xs.last())
    }
}

/// Appending `n` elements one at a time, starting from an absent payload,
/// leaves exactly the encoding of the `n`-element sequence: its length
/// prefix reads back as `n` and it decodes to the elements in order.
pub proof fn lemma_append_chain(xs: Seq<u64>)
    requires
        1 <= xs.len() < 0xffff_ffff,
    ensures
        spec_append_chain(xs) == spec_encode_vec_u64(xs),
        spec_compact_decode(spec_append_chain(xs)) == Some(xs.len() as u32),
        spec_decode_vec_u64(spec_append_chain(xs)) == Some(xs),
    decreases xs.len(),
{
    if xs.len() == 1 {
        assert(seq![xs[0]] =~= xs);
    } else {
        let ys = xs.drop_last();
        lemma_append_chain(ys);
        let zs = choose|zs: Seq<u64>|
            spec_encode_vec_u64(ys) == spec_encode_vec_u64(zs) && zs.len() < 0xffff_ffff;
        assert(spec_encode_vec_u64(ys) == spec_encode_vec_u64(ys) && ys.len() < 0xffff_ffff);
        lemma_encode_vec_u64_injective(zs, ys);
        assert(ys.push(xs.last()) =~= xs);
    }
    lemma_compact_roundtrip(xs.len() as u32, spec_encode_elems(xs));
    lemma_vec_u64_roundtrip(xs);
}

} // verus!
