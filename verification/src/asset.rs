//! Asset identifiers, assets, and the balances of a wallet.
use vstd::arithmetic::power::{
    lemma_pow0, lemma_pow1, lemma_pow_adds, lemma_pow_increases, lemma_pow_positive, pow,
};
use vstd::prelude::*;
use vstd::utf8::{
    decode_utf8, decode_utf8_encode_utf8, encode_utf8, encode_utf8_decode_utf8,
    encode_utf8_valid_utf8, valid_utf8,
};

verus! {

/// The number that `bytes` encode, least significant byte first.
pub open spec fn le_value(bytes: Seq<u8>) -> nat
    decreases bytes.len(),
{
    if bytes.len() == 0 {
        0
    } else {
        bytes[0] as nat + 256 * le_value(bytes.drop_first())
    }
}

/// The encoding of `n` in `len` bytes, least significant byte first.
pub open spec fn le_bytes(n: nat, len: nat) -> Seq<u8>
    decreases len,
{
    if len == 0 {
        Seq::empty()
    } else {
        seq![(n % 256) as u8] + le_bytes(n / 256, (len - 1) as nat)
    }
}

/// Whether every byte of `bytes` is zero.
pub open spec fn all_zero(bytes: Seq<u8>) -> bool {
    forall|i: int| 0 <= i < bytes.len() ==> #[trigger] bytes[i] == 0
}

/// Whether the identifier encoded in the 32 bytes of `field` is a 128-bit one, that is, whether
/// the more significant half of its bytes is zero.
pub open spec fn is_standard_id(field: Seq<u8>) -> bool {
    all_zero(field.subrange(16, 32))
}

/// The length of `le_bytes` is the one asked for.
proof fn lemma_le_bytes_len(n: nat, len: nat)
    ensures
        le_bytes(n, len).len() == len,
    decreases len,
{
    if len > 0 {
        lemma_le_bytes_len(n / 256, (len - 1) as nat);
    }
}

/// The value of `len` bytes is below `256^len`, and zero for zero bytes only.
proof fn lemma_le_value_bounds(bytes: Seq<u8>)
    ensures
        le_value(bytes) < pow(256, bytes.len()),
        le_value(bytes) == 0 <==> all_zero(bytes),
    decreases bytes.len(),
{
    if bytes.len() == 0 {
        lemma_pow0(256);
    } else {
        let rest = bytes.drop_first();
        lemma_le_value_bounds(rest);
        lemma_pow1(256);
        lemma_pow_adds(256, 1, rest.len());
        assert(256 * le_value(rest) + 256 <= 256 * pow(256, rest.len()));
        if all_zero(bytes) {
            assert forall|i: int| 0 <= i < rest.len() implies #[trigger] rest[i] == 0 by {
                assert(rest[i] == bytes[i + 1]);
            }
        }
        if le_value(bytes) == 0 {
            assert forall|i: int| 0 <= i < bytes.len() implies #[trigger] bytes[i] == 0 by {
                if i > 0 {
                    assert(bytes[i] == rest[i - 1]);
                }
            }
        }
    }
}

/// The value of bytes is that of a low part plus that of a high part, shifted.
proof fn lemma_le_value_split(bytes: Seq<u8>, k: nat)
    requires
        k <= bytes.len(),
    ensures
        le_value(bytes) == le_value(bytes.take(k as int)) + pow(256, k) * le_value(
            bytes.skip(k as int),
        ),
    decreases k,
{
    let low = bytes.take(k as int);
    let high = bytes.skip(k as int);
    if k == 0 {
        lemma_pow0(256);
        assert(high =~= bytes);
        assert(1 * le_value(high) == le_value(high));
    } else {
        let rest = bytes.drop_first();
        let j = (k - 1) as nat;
        lemma_le_value_split(rest, j);
        assert(low.drop_first() =~= rest.take(j as int));
        assert(high =~= rest.skip(j as int));
        lemma_pow1(256);
        lemma_pow_adds(256, 1, j);
        let p = pow(256, j);
        let h = le_value(high) as int;
        assert(256 * (p * h) == (256 * p) * h) by (nonlinear_arith);
    }
}

/// A byte that is put before others counts once, and the others count 256 times as much.
pub proof fn law_le_value_by_byte(byte: u8, rest: Seq<u8>)
    ensures
        le_value(Seq::empty()) == 0,
        le_value(seq![byte] + rest) == byte + 256 * le_value(rest),
{
    let bytes = seq![byte] + rest;
    assert(bytes.drop_first() =~= rest);
    assert(bytes[0] == byte);
}

/// A standard identifier is one that 128 bits hold.
pub proof fn law_standard_id_is_128_bit(field: Seq<u8>)
    requires
        field.len() == 32,
    ensures
        is_standard_id(field) <==> le_value(field) < pow(256, 16),
{
    let low = field.take(16);
    let high = field.skip(16);
    assert(field.subrange(16, 32) =~= high);
    lemma_le_value_split(field, 16);
    lemma_le_value_bounds(low);
    lemma_le_value_bounds(high);
    let p = pow(256, 16);
    let h = le_value(high) as int;
    lemma_pow_positive(256, 16);
    if h == 0 {
        assert(p * h == 0) by (nonlinear_arith)
            requires
                h == 0,
        ;
    } else {
        assert(p * h >= p) by (nonlinear_arith)
            requires
                h >= 1,
                p > 0,
        ;
    }
}

/// A standard identifier is one whose 16 more significant bytes are zero, one by one.
proof fn lemma_standard_id_bytes(field: Seq<u8>)
    requires
        field.len() == 32,
    ensures
        is_standard_id(field) <==> forall|i: int| 16 <= i < 32 ==> #[trigger] field[i] == 0,
{
    let high = field.subrange(16, 32);
    if is_standard_id(field) {
        assert forall|i: int| 16 <= i < 32 implies #[trigger] field[i] == 0 by {
            assert(high[i - 16] == 0);
        }
    }
}

/// A number that fits is read back from its encoding.
pub proof fn law_le_round_trip(n: nat, len: nat)
    requires
        n < pow(256, len),
    ensures
        le_bytes(n, len).len() == len,
        le_value(le_bytes(n, len)) == n,
    decreases len,
{
    lemma_le_bytes_len(n, len);
    if len == 0 {
        lemma_pow0(256);
    } else {
        let j = (len - 1) as nat;
        lemma_pow1(256);
        lemma_pow_adds(256, 1, j);
        let p = pow(256, j);
        assert(n < 256 * p);
        assert(n / 256 < p);
        law_le_round_trip(n / 256, j);
        assert(le_bytes(n, len).drop_first() =~= le_bytes(n / 256, j));
    }
}

/// The identifier with a 32-bit number is a standard one, and its bytes encode that number.
pub proof fn law_numbered_id_is_standard(id: u32)
    ensures
        le_bytes(id as nat, 32).len() == 32,
        le_value(le_bytes(id as nat, 32)) == id,
        is_standard_id(le_bytes(id as nat, 32)),
{
    assert(pow(256, 4) == 0x1_0000_0000) by {
        reveal_with_fuel(pow, 5);
    }
    lemma_pow_increases(256, 4, 16);
    lemma_pow_increases(256, 16, 32);
    law_le_round_trip(id as nat, 32);
    law_standard_id_is_128_bit(le_bytes(id as nat, 32));
}

/// Turns bytes into a string where they are well-formed UTF-8.
///
/// Calls [`String::from_utf8`] and drops its error. Trusted: it succeeds exactly on well-formed
/// UTF-8, and the string then has the given bytes as its encoding.
#[verifier::external_body]
fn string_from_utf8(bytes: Vec<u8>) -> (r: Option<String>)
    ensures
        r is Some <==> valid_utf8(bytes@),
        r matches Some(s) ==> encode_utf8(s@) == bytes@,
{
    String::from_utf8(bytes).ok()
}

/// The string that names the identifier encoded in the 32 bytes of `field`: the one whose UTF-8
/// encoding is `field`. Only a standard identifier whose bytes are UTF-8 has such a name.
pub open spec fn id_string(field: Seq<u8>) -> Option<Seq<char>> {
    if is_standard_id(field) && valid_utf8(field) {
        Some(decode_utf8(field))
    } else {
        None
    }
}

/// An identifier has a name exactly where its 16 more significant bytes are zero and its bytes are
/// UTF-8, and the name then has those bytes as its encoding.
pub proof fn law_id_string_is_exact(field: Seq<u8>)
    requires
        field.len() == 32,
    ensures
        id_string(field) is Some <==> valid_utf8(field) && forall|i: int|
            16 <= i < 32 ==> #[trigger] field[i] == 0,
        id_string(field) matches Some(name) ==> encode_utf8(name) == field,
{
    lemma_standard_id_bytes(field);
    if id_string(field) is Some {
        decode_utf8_encode_utf8(field);
    }
}

/// The bytes of an identifier that has a name are those that its name gives back.
pub proof fn law_field_of_id_string(field: Seq<u8>)
    requires
        id_string(field) is Some,
    ensures
        encode_utf8(id_string(field)->0) == field,
{
    decode_utf8_encode_utf8(field);
}

/// A string of 32 bytes is the name of the identifier that it encodes exactly where that one is a
/// standard identifier; otherwise that identifier has no name.
pub proof fn law_id_string_of_field(id: Seq<char>)
    requires
        encode_utf8(id).len() == 32,
    ensures
        id_string(encode_utf8(id)) == if is_standard_id(encode_utf8(id)) {
            Some(id)
        } else {
            None
        },
{
    encode_utf8_valid_utf8(id);
    encode_utf8_decode_utf8(id);
}

/// The string that names the identifier encoded in the 32 bytes of `id`, if it has a name.
pub fn id_string_from_field(id: [u8; 32]) -> (r: Option<String>)
    ensures
        match r {
            Some(s) => id_string(id@) == Some(s@),
            None => id_string(id@) is None,
        },
        r is Some <==> valid_utf8(id@) && forall|i: int| 16 <= i < 32 ==> #[trigger] id@[i] == 0,
        r matches Some(s) ==> encode_utf8(s@) == id@,
{
    proof {
        law_id_string_is_exact(id@);
    }
    let mut i: usize = 16;
    while i < 32
        invariant
            16 <= i <= 32,
            forall|j: int| 16 <= j < i ==> #[trigger] id@[j] == 0,
        decreases 32 - i,
    {
        if id[i] != 0 {
            assert(id@.subrange(16, 32)[i - 16] != 0);
            return None;
        }
        i += 1;
    }
    let r = string_from_utf8(vstd::slice::slice_to_vec(id.as_slice()));
    proof {
        if r is Some {
            encode_utf8_decode_utf8((r->0)@);
        }
    }
    r
}

/// The 32 bytes of the identifier that `id` names: those of its UTF-8 encoding.
pub fn field_from_id_string(id: String) -> (r: [u8; 32])
    requires
        encode_utf8(id@).len() == 32,
    ensures
        r@ == encode_utf8(id@),
{
    let bytes = id.as_str().as_bytes();
    let mut field: [u8; 32] = [0u8; 32];
    let mut i: usize = 0;
    while i < 32
        invariant
            0 <= i <= 32,
            bytes@ == encode_utf8(id@),
            bytes@.len() == 32,
            forall|j: int| 0 <= j < i ==> #[trigger] field@[j] == bytes@[j],
        decreases 32 - i,
    {
        field[i] = bytes[i];
        i += 1;
    }
    assert(field@ =~= encode_utf8(id@));
    field
}

/// An asset identifier: an element of the field that the protocol computes in, as the 32 bytes
/// of its encoding, least significant byte first. That the bytes are those of an element is for
/// whoever decodes them to see to.
#[derive(Clone, Copy, Debug, PartialEq, Eq, Hash)]
pub struct AssetId(pub [u8; 32]);

impl View for AssetId {
    type V = Seq<u8>;

    open spec fn view(&self) -> Seq<u8> {
        self.0@
    }
}

/// An identifier is all of its 32 bytes: two are the same exactly where each byte is.
pub proof fn law_id_is_its_bytes(a: AssetId, b: AssetId)
    ensures
        a@ == a.0@,
        a@ == b@ <==> forall|i: int| 0 <= i < 32 ==> #[trigger] a.0@[i] == b.0@[i],
{
    if forall|i: int| 0 <= i < 32 ==> #[trigger] a.0@[i] == b.0@[i] {
        assert(a.0@ =~= b.0@);
    }
}

impl AssetId {
    /// The identifier with the number `id`.
    pub fn from_u32(id: u32) -> (r: AssetId)
        ensures
            r@ == le_bytes(id as nat, 32),
            le_value(r.0@) == id,
    {
        let mut field: [u8; 32] = [0u8; 32];
        let mut rest: u32 = id;
        let mut i: usize = 0;
        proof {
            assert(field@.subrange(0, 0) + le_bytes(id as nat, 32) =~= le_bytes(id as nat, 32));
        }
        while i < 32
            invariant
                0 <= i <= 32,
                field@.subrange(0, i as int) + le_bytes(rest as nat, (32 - i) as nat) == le_bytes(
                    id as nat,
                    32,
                ),
            decreases 32 - i,
        {
            let ghost before = field@.subrange(0, i as int);
            field[i] = (rest % 256) as u8;
            proof {
                let tail = le_bytes((rest / 256) as nat, (31 - i) as nat);
                assert(le_bytes(rest as nat, (32 - i) as nat) == seq![(rest % 256) as u8] + tail);
                assert(field@.subrange(0, i + 1) =~= before.push((rest % 256) as u8));
                assert(field@.subrange(0, i + 1) + tail =~= before + (seq![(rest % 256) as u8]
                    + tail));
            }
            rest = rest / 256;
            i += 1;
        }
        assert(field@.subrange(0, 32) + le_bytes(rest as nat, 0) =~= field@);
        proof {
            law_numbered_id_is_standard(id);
        }
        AssetId(field)
    }

    /// Whether two identifiers are the same.
    pub fn same(&self, other: &AssetId) -> (r: bool)
        ensures
            r == (self@ == other@),
            r == forall|i: int| 0 <= i < 32 ==> #[trigger] self.0@[i] == other.0@[i],
    {
        let mut i: usize = 0;
        while i < 32
            invariant
                0 <= i <= 32,
                forall|j: int| 0 <= j < i ==> #[trigger] self.0@[j] == other.0@[j],
            decreases 32 - i,
        {
            if self.0[i] != other.0[i] {
                assert(self@[i as int] != other@[i as int]);
                return false;
            }
            i += 1;
        }
        assert(self@ =~= other@);
        true
    }
}

/// An amount of one kind of asset, the amount as a decimal numeral.
#[derive(Clone, Debug, PartialEq, Eq, Hash)]
pub struct Asset {
    /// The kind of the asset.
    pub id: AssetId,
    /// How much of it.
    pub value: String,
}

/// How much of each kind of asset a wallet holds.
#[derive(Debug)]
pub struct BalanceState {
    entries: Vec<(AssetId, u128)>,
}

impl View for BalanceState {
    type V = Map<Seq<u8>, u128>;

    closed spec fn view(&self) -> Map<Seq<u8>, u128> {
        balances(self.entries@)
    }
}

/// Whether some entry is of the kind `id`.
spec fn has_entry(entries: Seq<(AssetId, u128)>, id: Seq<u8>) -> bool {
    exists|i: int| 0 <= i < entries.len() && (#[trigger] entries[i]).0@ == id
}

/// The balance of each kind of asset that has an entry.
spec fn balances(entries: Seq<(AssetId, u128)>) -> Map<Seq<u8>, u128> {
    Map::new(
        |id: Seq<u8>| has_entry(entries, id),
        |id: Seq<u8>|
            entries[choose|i: int| 0 <= i < entries.len() && (#[trigger] entries[i]).0@ == id].1,
    )
}

/// Whether no two entries are of the same kind.
spec fn distinct_ids(entries: Seq<(AssetId, u128)>) -> bool {
    forall|i: int, j: int|
        0 <= i < j < entries.len() ==> (#[trigger] entries[i]).0@ != (#[trigger] entries[j]).0@
}

/// Replacing the balance of one kind, or adding an entry for a new one, sets that balance.
proof fn lemma_set_balance(
    before: Seq<(AssetId, u128)>,
    after: Seq<(AssetId, u128)>,
    k: int,
    entry: (AssetId, u128),
)
    requires
        distinct_ids(before),
        0 <= k <= before.len(),
        k < before.len() ==> before[k].0@ == entry.0@ && after == before.update(k, entry),
        k == before.len() ==> !has_entry(before, entry.0@) && after == before.push(entry),
    ensures
        distinct_ids(after),
        balances(after) == balances(before).insert(entry.0@, entry.1),
{
    let target = balances(before).insert(entry.0@, entry.1);
    assert(after[k] == entry);
    assert(distinct_ids(after)) by {
        assert forall|i: int, j: int| 0 <= i < j < after.len() implies (#[trigger] after[i]).0@
            != (#[trigger] after[j]).0@ by {
            if i != k && i < before.len() {
                assert(after[i] == before[i]);
            }
            if j != k && j < before.len() {
                assert(after[j] == before[j]);
            }
        }
    }
    assert forall|id: Seq<u8>| has_entry(after, id) <==> target.contains_key(id) by {
        if has_entry(after, id) && id != entry.0@ {
            let i = choose|i: int| 0 <= i < after.len() && (#[trigger] after[i]).0@ == id;
            assert(before[i] == after[i]);
        }
        if has_entry(before, id) && id != entry.0@ {
            let i = choose|i: int| 0 <= i < before.len() && (#[trigger] before[i]).0@ == id;
            assert(before[i] == after[i]);
        }
    }
    assert forall|id: Seq<u8>| has_entry(after, id) implies balances(after)[id] == target[id] by {
        let i = choose|i: int| 0 <= i < after.len() && (#[trigger] after[i]).0@ == id;
        if id == entry.0@ {
            assert(after[i].0@ == after[k].0@);
            assert(i == k);
        } else {
            assert(before[i] == after[i]);
            let j = choose|j: int| 0 <= j < before.len() && (#[trigger] before[j]).0@ == id;
            assert(before[i].0@ == before[j].0@);
            assert(i == j);
        }
    }
    assert(balances(after) =~= target);
}

impl BalanceState {
    /// No two entries are of the same kind.
    #[verifier::type_invariant]
    spec fn well_formed(&self) -> bool {
        distinct_ids(self.entries@)
    }

    /// The state of a wallet that holds nothing.
    pub fn new() -> (r: BalanceState)
        ensures
            r@ == Map::<Seq<u8>, u128>::empty(),
    {
        let r = BalanceState { entries: Vec::new() };
        assert(r@ =~= Map::<Seq<u8>, u128>::empty());
        r
    }

    /// Where the entry of the kind `id` stands; the number of entries if there is none.
    fn position(&self, id: &AssetId) -> (k: usize)
        ensures
            0 <= k <= self.entries@.len(),
            k < self.entries@.len() ==> self.entries@[k as int].0@ == id@,
            k == self.entries@.len() ==> !has_entry(self.entries@, id@),
    {
        let mut k: usize = 0;
        while k < self.entries.len()
            invariant
                0 <= k <= self.entries@.len(),
                forall|j: int| 0 <= j < k ==> (#[trigger] self.entries@[j]).0@ != id@,
            decreases self.entries@.len() - k,
        {
            if self.entries[k].0.same(id) {
                return k;
            }
            k += 1;
        }
        k
    }

    /// The balance of the kind `id`, where there is one.
    pub fn get(&self, id: &AssetId) -> (r: Option<u128>)
        ensures
            r == if self@.contains_key(id@) {
                Some(self@[id@])
            } else {
                None
            },
    {
        proof {
            use_type_invariant(self);
        }
        let k = self.position(id);
        if k < self.entries.len() {
            proof {
                let j = choose|j: int|
                    0 <= j < self.entries@.len() && (#[trigger] self.entries@[j]).0@ == id@;
                assert(self.entries@[k as int].0@ == self.entries@[j].0@);
                assert(j == k);
            }
            Some(self.entries[k].1)
        } else {
            None
        }
    }

    /// Sets the balance of the kind `id` to `value`.
    pub fn set(&mut self, id: AssetId, value: u128)
        ensures
            final(self)@ == old(self)@.insert(id@, value),
    {
        proof {
            use_type_invariant(&*self);
        }
        let k = self.position(&id);
        let mut entries: Vec<(AssetId, u128)> = Vec::new();
        std::mem::swap(&mut entries, &mut self.entries);
        let ghost before = entries@;
        if k < entries.len() {
            entries.set(k, (id, value));
        } else {
            entries.push((id, value));
        }
        proof {
            lemma_set_balance(before, entries@, k as int, (id, value));
        }
        self.entries = entries;
    }
}

} // verus!
