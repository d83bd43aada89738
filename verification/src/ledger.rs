//! The connection to the ledger and the data that is pulled from it.
//!
//! The ledger hands out its cryptographic values as raw bytes. What decodes them is given by the
//! caller as a function from 32 bytes to a value or an error; everything here holds of any such
//! function.
use vstd::prelude::*;

verus! {

/// A connection to the ledger through the JavaScript interface `A`.
#[derive(Debug)]
pub struct PolkadotJsLedger<A>(pub A);

impl<A> PolkadotJsLedger<A> {
    /// Builds a connection from its JavaScript interface.
    pub fn new(api: A) -> (r: PolkadotJsLedger<A>)
        ensures
            r.0 == api,
    {
        PolkadotJsLedger(api)
    }
}

/// The error of a ledger that did not take what it was sent.
#[derive(Clone, Copy, Debug, PartialEq, Eq)]
pub struct LedgerError;

/// The bytes of an unspent transaction output.
pub type RawUtxo = [u8; 32];

/// The bytes of a nullifier, without the outgoing note that goes with it.
pub type RawVoidNumber = [u8; 32];

/// An encrypted note as raw bytes.
#[derive(Clone, Debug, PartialEq, Eq, Hash)]
pub struct RawEncryptedNote {
    /// The ephemeral public key.
    pub ephemeral_public_key: [u8; 32],
    /// The ciphertext.
    pub ciphertext: [u8; 96],
}

/// The header of a message that has nothing to say outside its ciphertext.
#[derive(Clone, Copy, Debug, PartialEq, Eq, Hash)]
pub struct EmptyHeader;

/// The ciphertext of a hybrid encryption with an ephemeral public key of type `K`.
#[derive(Clone, Debug, PartialEq, Eq, Hash)]
pub struct HybridCiphertext<K> {
    /// The ephemeral public key.
    pub ephemeral_public_key: K,
    /// The ciphertext under the shared key.
    pub ciphertext: [u8; 96],
}

/// An encrypted incoming note.
#[derive(Clone, Debug, PartialEq, Eq, Hash)]
pub struct LightIncomingNote<K> {
    /// The header, which is empty.
    pub header: EmptyHeader,
    /// The ciphertext.
    pub ciphertext: HybridCiphertext<K>,
}

impl<K> LightIncomingNote<K> {
    /// Decodes the key of an encrypted note; the error is that of the decoder.
    pub fn try_from<F: Fn([u8; 32]) -> Result<K, E>, E>(
        encrypted_note: RawEncryptedNote,
        decode: F,
    ) -> (r: Result<LightIncomingNote<K>, E>)
        requires
            call_requires(decode, (encrypted_note.ephemeral_public_key,)),
        ensures
            match r {
                Ok(note) => call_ensures(
                    decode,
                    (encrypted_note.ephemeral_public_key,),
                    Ok::<K, E>(note.ciphertext.ephemeral_public_key),
                ) && note.ciphertext.ciphertext == encrypted_note.ciphertext,
                Err(error) => call_ensures(
                    decode,
                    (encrypted_note.ephemeral_public_key,),
                    Err::<K, E>(error),
                ),
            },
    {
        match decode(encrypted_note.ephemeral_public_key) {
            Ok(ephemeral_public_key) => Ok(
                LightIncomingNote {
                    header: EmptyHeader,
                    ciphertext: HybridCiphertext {
                        ephemeral_public_key,
                        ciphertext: encrypted_note.ciphertext,
                    },
                },
            ),
            Err(error) => Err(error),
        }
    }
}

/// A part of the ledger as it is pulled: `N` is the type of a full incoming note.
#[derive(Clone, Debug, PartialEq, Eq, Hash)]
pub struct RawPullResponse<N> {
    /// Whether there is more to pull.
    pub should_continue: bool,
    /// The outputs that were received, each with its note.
    pub utxo_note_data: Vec<(RawUtxo, N)>,
    /// The nullifiers of what was spent.
    pub nullifier_data: Vec<RawVoidNumber>,
}

/// The decoded data of a pull.
#[derive(Clone, Debug, PartialEq, Eq)]
pub struct SyncData<U, N, V> {
    /// The outputs that were received, each with its note.
    pub utxo_note_data: Vec<(U, N)>,
    /// The nullifiers of what was spent.
    pub nullifier_data: Vec<V>,
}

/// The decoded answer to a pull.
#[derive(Clone, Debug, PartialEq, Eq)]
pub struct ReadResponse<D> {
    /// Whether there is more to pull.
    pub should_continue: bool,
    /// The data.
    pub data: D,
}

/// Whether `decoded` is what `decode` gives for each of `raw`, in order.
pub open spec fn decodes_to<F: Fn([u8; 32]) -> Result<T, E>, T, E>(
    decode: F,
    raw: Seq<[u8; 32]>,
    decoded: Seq<T>,
) -> bool {
    &&& decoded.len() == raw.len()
    &&& forall|i: int|
        #![trigger raw[i]]
        #![trigger decoded[i]]
        0 <= i < raw.len() ==> call_ensures(decode, (raw[i],), Ok::<T, E>(decoded[i]))
}

/// Whether `decode` gives a value for each of the first `k` of `raw` and an error for the next.
pub open spec fn decoding_stops_at<F: Fn([u8; 32]) -> Result<T, E>, T, E>(
    decode: F,
    raw: Seq<[u8; 32]>,
    k: int,
) -> bool {
    &&& 0 <= k < raw.len()
    &&& exists|decoded: Seq<T>| decodes_to(decode, raw.take(k), decoded)
    &&& exists|error: E| call_ensures(decode, (raw[k],), Err::<T, E>(error))
}

/// Whether `decode` gives the same result each time for the same bytes.
pub open spec fn is_deterministic<F: Fn([u8; 32]) -> Result<T, E>, T, E>(decode: F) -> bool {
    forall|bytes: [u8; 32], a: Result<T, E>, b: Result<T, E>|
        call_ensures(decode, (bytes,), a) && call_ensures(decode, (bytes,), b) ==> a == b
}

/// A deterministic decoder leaves one way to decode a sequence of raw bytes, and none where it
/// gives an error for some of them.
pub proof fn law_decoding_is_unique<F: Fn([u8; 32]) -> Result<T, E>, T, E>(
    decode: F,
    raw: Seq<[u8; 32]>,
    decoded: Seq<T>,
)
    requires
        is_deterministic(decode),
        decodes_to(decode, raw, decoded),
    ensures
        forall|other: Seq<T>| #[trigger] decodes_to(decode, raw, other) ==> other == decoded,
        forall|k: int| !#[trigger] decoding_stops_at(decode, raw, k),
{
    assert forall|other: Seq<T>| #[trigger] decodes_to(decode, raw, other) implies other
        == decoded by {
        assert forall|i: int| 0 <= i < raw.len() implies #[trigger] other[i] == decoded[i] by {
            assert(call_ensures(decode, (raw[i],), Ok::<T, E>(decoded[i])));
            assert(call_ensures(decode, (raw[i],), Ok::<T, E>(other[i])));
        }
        assert(other =~= decoded);
    }
    assert forall|k: int| !#[trigger] decoding_stops_at(decode, raw, k) by {
        if decoding_stops_at(decode, raw, k) {
            assert(call_ensures(decode, (raw[k],), Ok::<T, E>(decoded[k])));
        }
    }
}

/// The first component of each pair.
pub open spec fn firsts<A, B>(pairs: Seq<(A, B)>) -> Seq<A> {
    Seq::new(pairs.len(), |i: int| pairs[i].0)
}

/// The second component of each pair.
pub open spec fn seconds<A, B>(pairs: Seq<(A, B)>) -> Seq<B> {
    Seq::new(pairs.len(), |i: int| pairs[i].1)
}

/// Raw bytes are decoded one by one, each at its place and none left out.
pub proof fn law_decoding_is_one_by_one<F: Fn([u8; 32]) -> Result<T, E>, T, E>(
    decode: F,
    raw: Seq<[u8; 32]>,
    decoded: Seq<T>,
)
    ensures
        decodes_to(decode, raw, decoded) <==> {
            &&& decoded.len() == raw.len()
            &&& forall|i: int|
                0 <= i < raw.len() ==> call_ensures(
                    decode,
                    (raw[i],),
                    Ok::<T, E>(#[trigger] decoded[i]),
                )
        },
{
}

/// Decoding stops only where the decoder gives an error, and gave a value for all before.
pub proof fn law_decoding_stops_at_an_error<F: Fn([u8; 32]) -> Result<T, E>, T, E>(
    decode: F,
    raw: Seq<[u8; 32]>,
    k: int,
)
    requires
        decoding_stops_at(decode, raw, k),
    ensures
        0 <= k < raw.len(),
        exists|error: E| call_ensures(decode, (raw[k],), Err::<T, E>(error)),
        exists|decoded: Seq<T>| #[trigger]
            decoded.len() == k && forall|i: int|
                0 <= i < k ==> call_ensures(decode, (raw[i],), Ok::<T, E>(#[trigger] decoded[i])),
{
    let decoded = choose|decoded: Seq<T>| decodes_to(decode, raw.take(k), decoded);
    assert forall|i: int| 0 <= i < k implies call_ensures(
        decode,
        (raw[i],),
        Ok::<T, E>(#[trigger] decoded[i]),
    ) by {
        assert(raw.take(k)[i] == raw[i]);
    }
    assert(decoded.len() == k);
}

/// The components of pairs are those of each pair, at the same place.
pub proof fn law_components_of_pairs<A, B>(pairs: Seq<(A, B)>)
    ensures
        firsts(pairs).len() == pairs.len(),
        seconds(pairs).len() == pairs.len(),
        forall|i: int|
            0 <= i < pairs.len() ==> #[trigger] pairs[i] == (firsts(pairs)[i], seconds(pairs)[i]),
{
}

/// A decoded answer says of continuing what the raw one says, has each output that was received,
/// decoded, at its place and with its own note, and each nullifier, decoded, at its place. Nothing
/// is lost and nothing is added, whatever else the answer holds.
pub proof fn law_answer_is_decoded_one_by_one<F, EU, G, EV, U, N, V>(
    read: ReadResponse<SyncData<U, N, V>>,
    response: RawPullResponse<N>,
    decode_utxo: F,
    decode_nullifier: G,
) where F: Fn(RawUtxo) -> Result<U, EU>, G: Fn(RawVoidNumber) -> Result<V, EV>
    ensures
        read.decodes(response, decode_utxo, decode_nullifier) <==> {
            &&& read.should_continue == response.should_continue
            &&& read.data.utxo_note_data@.len() == response.utxo_note_data@.len()
            &&& forall|i: int|
                0 <= i < response.utxo_note_data@.len() ==> call_ensures(
                    decode_utxo,
                    (response.utxo_note_data@[i].0,),
                    Ok::<U, EU>((#[trigger] read.data.utxo_note_data@[i]).0),
                ) && read.data.utxo_note_data@[i].1 == response.utxo_note_data@[i].1
            &&& read.data.nullifier_data@.len() == response.nullifier_data@.len()
            &&& forall|i: int|
                0 <= i < response.nullifier_data@.len() ==> call_ensures(
                    decode_nullifier,
                    (response.nullifier_data@[i],),
                    Ok::<V, EV>(#[trigger] read.data.nullifier_data@[i]),
                )
        },
{
    let raw = response.utxo_note_data@;
    let out = read.data.utxo_note_data@;
    assert(firsts(out).len() == out.len() && firsts(raw).len() == raw.len());
    assert(seconds(out).len() == out.len() && seconds(raw).len() == raw.len());
    if read.decodes(response, decode_utxo, decode_nullifier) {
        assert forall|i: int| 0 <= i < raw.len() implies call_ensures(
            decode_utxo,
            (raw[i].0,),
            Ok::<U, EU>((#[trigger] out[i]).0),
        ) && out[i].1 == raw[i].1 by {
            assert(firsts(out)[i] == out[i].0 && firsts(raw)[i] == raw[i].0);
            assert(seconds(out)[i] == out[i].1 && seconds(raw)[i] == raw[i].1);
        }
    }
    if out.len() == raw.len() && forall|i: int|
        0 <= i < raw.len() ==> call_ensures(
            decode_utxo,
            (raw[i].0,),
            Ok::<U, EU>((#[trigger] out[i]).0),
        ) && out[i].1 == raw[i].1 {
        assert forall|i: int| 0 <= i < firsts(raw).len() implies call_ensures(
            decode_utxo,
            (firsts(raw)[i],),
            Ok::<U, EU>(firsts(out)[i]),
        ) by {
            assert(out[i].1 == raw[i].1);
        }
        assert(seconds(out) =~= seconds(raw));
    }
}

/// Decodes each of `raw`, in order, up to the first error.
fn decode_all<F: Fn([u8; 32]) -> Result<T, E>, T, E>(raw: Vec<[u8; 32]>, decode: F) -> (r: Result<
    Vec<T>,
    (),
>)
    requires
        forall|b: [u8; 32]| call_requires(decode, (b,)),
    ensures
        match r {
            Ok(decoded) => decodes_to(decode, raw@, decoded@),
            Err(()) => exists|k: int| decoding_stops_at(decode, raw@, k),
        },
        match r {
            Ok(decoded) => decoded@.len() == raw@.len() && forall|i: int|
                0 <= i < raw@.len() ==> call_ensures(
                    decode,
                    (raw@[i],),
                    Ok::<T, E>(#[trigger] decoded@[i]),
                ),
            Err(()) => exists|i: int, error: E|
                0 <= i < raw@.len() && #[trigger] call_ensures(
                    decode,
                    (raw@[i],),
                    Err::<T, E>(error),
                ),
        },
{
    let mut decoded: Vec<T> = Vec::new();
    for bytes in it: raw
        invariant
            it.seq() == raw@,
            forall|b: [u8; 32]| call_requires(decode, (b,)),
            decoded@.len() == it.index(),
            decodes_to(decode, raw@.take(it.index() as int), decoded@),
    {
        let ghost k = it.index() as int;
        match decode(bytes) {
            Ok(value) => {
                decoded.push(value);
            },
            Err(error) => {
                assert(call_ensures(decode, (raw@[k],), Err::<T, E>(error)));
                assert(decoding_stops_at(decode, raw@, k));
                return Err(());
            },
        }
    }
    assert(raw@.take(raw@.len() as int) =~= raw@);
    Ok(decoded)
}

/// Decodes the first component of each of `raw`, in order, up to the first error.
fn decode_firsts<F: Fn([u8; 32]) -> Result<T, E>, T, E, N>(
    raw: Vec<([u8; 32], N)>,
    decode: F,
) -> (r: Result<Vec<(T, N)>, ()>)
    requires
        forall|b: [u8; 32]| call_requires(decode, (b,)),
    ensures
        match r {
            Ok(decoded) => decodes_to(decode, firsts(raw@), firsts(decoded@)) && seconds(decoded@)
                == seconds(raw@),
            Err(()) => exists|k: int| decoding_stops_at(decode, firsts(raw@), k),
        },
        match r {
            Ok(decoded) => decoded@.len() == raw@.len() && forall|i: int|
                0 <= i < raw@.len() ==> call_ensures(
                    decode,
                    (raw@[i].0,),
                    Ok::<T, E>((#[trigger] decoded@[i]).0),
                ) && decoded@[i].1 == raw@[i].1,
            Err(()) => exists|i: int, error: E|
                0 <= i < raw@.len() && #[trigger] call_ensures(
                    decode,
                    (raw@[i].0,),
                    Err::<T, E>(error),
                ),
        },
{
    let mut decoded: Vec<(T, N)> = Vec::new();
    for pair in it: raw
        invariant
            it.seq() == raw@,
            forall|b: [u8; 32]| call_requires(decode, (b,)),
            decoded@.len() == it.index(),
            decodes_to(decode, firsts(raw@).take(it.index() as int), firsts(decoded@)),
            forall|i: int|
                0 <= i < decoded@.len() ==> call_ensures(
                    decode,
                    (raw@[i].0,),
                    Ok::<T, E>((#[trigger] decoded@[i]).0),
                ) && decoded@[i].1 == raw@[i].1,
    {
        let ghost k = it.index() as int;
        let ghost before = firsts(decoded@);
        let (bytes, rest) = pair;
        assert(firsts(raw@)[k] == bytes);
        match decode(bytes) {
            Ok(value) => {
                decoded.push((value, rest));
                assert(firsts(decoded@) =~= before.push(value));
            },
            Err(error) => {
                assert(call_ensures(decode, (raw@[k].0,), Err::<T, E>(error)));
                assert(call_ensures(decode, (firsts(raw@)[k],), Err::<T, E>(error)));
                assert(decoding_stops_at(decode, firsts(raw@), k));
                return Err(());
            },
        }
    }
    assert(firsts(raw@).take(raw@.len() as int) =~= firsts(raw@));
    assert(seconds(decoded@) =~= seconds(raw@));
    Ok(decoded)
}

impl<U, N, V> ReadResponse<SyncData<U, N, V>> {
    /// Whether `self` is `response` with its outputs and nullifiers decoded and all else kept.
    pub open spec fn decodes<F, EU, G, EV>(
        self,
        response: RawPullResponse<N>,
        decode_utxo: F,
        decode_nullifier: G,
    ) -> bool where F: Fn(RawUtxo) -> Result<U, EU>, G: Fn(RawVoidNumber) -> Result<V, EV> {
        &&& self.should_continue == response.should_continue
        &&& decodes_to(
            decode_utxo,
            firsts(response.utxo_note_data@),
            firsts(self.data.utxo_note_data@),
        )
        &&& seconds(self.data.utxo_note_data@) == seconds(response.utxo_note_data@)
        &&& decodes_to(decode_nullifier, response.nullifier_data@, self.data.nullifier_data@)
    }

    /// Decodes the outputs and then the nullifiers of `response`. One that does not decode fails
    /// the whole.
    pub fn try_from<F, EU, G, EV>(
        response: RawPullResponse<N>,
        decode_utxo: F,
        decode_nullifier: G,
    ) -> (r: Result<ReadResponse<SyncData<U, N, V>>, ()>) where
        F: Fn(RawUtxo) -> Result<U, EU>,
        G: Fn(RawVoidNumber) -> Result<V, EV>,

        requires
            forall|b: RawUtxo| call_requires(decode_utxo, (b,)),
            forall|b: RawVoidNumber| call_requires(decode_nullifier, (b,)),
        ensures
            match r {
                Ok(read) => {
                    &&& read.should_continue == response.should_continue
                    &&& read.data.utxo_note_data@.len() == response.utxo_note_data@.len()
                    &&& forall|i: int|
                        0 <= i < response.utxo_note_data@.len() ==> call_ensures(
                            decode_utxo,
                            (response.utxo_note_data@[i].0,),
                            Ok::<U, EU>((#[trigger] read.data.utxo_note_data@[i]).0),
                        ) && read.data.utxo_note_data@[i].1 == response.utxo_note_data@[i].1
                    &&& read.data.nullifier_data@.len() == response.nullifier_data@.len()
                    &&& forall|i: int|
                        0 <= i < response.nullifier_data@.len() ==> call_ensures(
                            decode_nullifier,
                            (response.nullifier_data@[i],),
                            Ok::<V, EV>(#[trigger] read.data.nullifier_data@[i]),
                        )
                },
                Err(()) => {
                    ||| exists|i: int, error: EU|
                        0 <= i < response.utxo_note_data@.len() && #[trigger] call_ensures(
                            decode_utxo,
                            (response.utxo_note_data@[i].0,),
                            Err::<U, EU>(error),
                        )
                    ||| exists|i: int, error: EV|
                        0 <= i < response.nullifier_data@.len() && #[trigger] call_ensures(
                            decode_nullifier,
                            (response.nullifier_data@[i],),
                            Err::<V, EV>(error),
                        )
                },
            },
            match r {
                Ok(read) => read.decodes(response, decode_utxo, decode_nullifier),
                Err(()) => {
                    ||| exists|k: int|
                        decoding_stops_at(decode_utxo, firsts(response.utxo_note_data@), k)
                    ||| {
                        &&& exists|utxos: Seq<U>|
                            decodes_to(decode_utxo, firsts(response.utxo_note_data@), utxos)
                        &&& exists|k: int|
                            decoding_stops_at(decode_nullifier, response.nullifier_data@, k)
                    }
                },
            },
    {
        let utxo_note_data = match decode_firsts(response.utxo_note_data, decode_utxo) {
            Ok(data) => data,
            Err(()) => {
                return Err(());
            },
        };
        let nullifier_data = match decode_all(response.nullifier_data, decode_nullifier) {
            Ok(data) => data,
            Err(()) => {
                return Err(());
            },
        };
        Ok(
            ReadResponse {
                should_continue: response.should_continue,
                data: SyncData { utxo_note_data, nullifier_data },
            },
        )
    }
}

} // verus!
