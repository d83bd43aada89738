//! Transfer posts: what the wallet sends to the ledger.
use vstd::prelude::*;
use vstd::utf8::encode_utf8;

use crate::asset::{field_from_id_string, id_string, law_field_of_id_string};
use crate::decimal::{amount, decimal, decimal_string, law_amount_round_trip};
use crate::ledger::is_deterministic;

verus! {

/// The body of a transfer as the signer hands it out, with its amounts as integers.
///
/// The asset identifier (`I`), the posts of the senders (`S`) and receivers (`R`) and the proof of
/// validity (`P`) are carried along and never looked into.
#[derive(Clone, Debug, PartialEq, Eq)]
pub struct TransferPostBody<I, S, R, P> {
    /// The kind of asset that is made public by the transfer, if any is.
    pub asset_id: Option<I>,
    /// The public amounts that go into the transfer.
    pub sources: Vec<u128>,
    /// What the senders post.
    pub sender_posts: Vec<S>,
    /// What the receivers post.
    pub receiver_posts: Vec<R>,
    /// The public amounts that come out of the transfer.
    pub sinks: Vec<u128>,
    /// The proof that the transfer is valid.
    pub validity_proof: P,
}

/// A transfer in the form that the ledger takes, with its amounts as decimal numerals.
#[derive(Clone, Debug, PartialEq, Eq)]
pub struct TransferPost<I, S, R, P> {
    /// The kind of asset that is made public by the transfer, if any is.
    pub asset_id: Option<I>,
    /// The public amounts that go into the transfer.
    pub sources: Vec<String>,
    /// What the senders post.
    pub sender_posts: Vec<S>,
    /// What the receivers post.
    pub receiver_posts: Vec<R>,
    /// The public amounts that come out of the transfer.
    pub sinks: Vec<String>,
    /// The proof that the transfer is valid.
    pub validity_proof: P,
}

/// What a [`TransferPost`] holds.
#[verifier::ext_equal]
pub struct TransferPostView<I, S, R, P> {
    /// The asset identifier.
    pub asset_id: Option<I>,
    /// The numerals of the sources.
    pub sources: Seq<Seq<char>>,
    /// What the senders post.
    pub sender_posts: Seq<S>,
    /// What the receivers post.
    pub receiver_posts: Seq<R>,
    /// The numerals of the sinks.
    pub sinks: Seq<Seq<char>>,
    /// The proof that the transfer is valid.
    pub validity_proof: P,
}

/// The characters of each string.
pub open spec fn strings(values: Seq<String>) -> Seq<Seq<char>> {
    Seq::new(values.len(), |i: int| values[i]@)
}

/// The decimal numeral of each value.
pub open spec fn decimals(values: Seq<u128>) -> Seq<Seq<char>> {
    Seq::new(values.len(), |i: int| decimal(values[i] as nat))
}

/// Whether `result` is what `decode` gives for the 32 bytes of the identifier that `name` names.
pub open spec fn name_decodes_to<F: Fn([u8; 32]) -> Result<I, E>, I, E>(
    decode: F,
    name: Seq<char>,
    result: Result<I, E>,
) -> bool {
    exists|field: [u8; 32]|
        field@ == encode_utf8(name) && #[trigger] call_ensures(decode, (field,), result)
}

impl<I, S, R, P> View for TransferPost<I, S, R, P> {
    type V = TransferPostView<I, S, R, P>;

    open spec fn view(&self) -> TransferPostView<I, S, R, P> {
        TransferPostView {
            asset_id: self.asset_id,
            sources: strings(self.sources@),
            sender_posts: self.sender_posts@,
            receiver_posts: self.receiver_posts@,
            sinks: strings(self.sinks@),
            validity_proof: self.validity_proof,
        }
    }
}

impl<I, S, R, P> TransferPostView<I, S, R, P> {
    /// Whether this is a post with the given parts, whose asset identifier is what `decode` gives
    /// for the one that `name` names.
    pub open spec fn has_parts<F: Fn([u8; 32]) -> Result<I, E>, E>(
        self,
        name: Option<Seq<char>>,
        decode: F,
        sources: Seq<Seq<char>>,
        sender_posts: Seq<S>,
        receiver_posts: Seq<R>,
        sinks: Seq<Seq<char>>,
        validity_proof: P,
    ) -> bool {
        &&& match name {
            Some(name) => self.asset_id matches Some(id) && name_decodes_to(
                decode,
                name,
                Ok::<I, E>(id),
            ),
            None => self.asset_id is None,
        }
        &&& self.sources == sources
        &&& self.sender_posts == sender_posts
        &&& self.receiver_posts == receiver_posts
        &&& self.sinks == sinks
        &&& self.validity_proof == validity_proof
    }
}

impl<I, S, R, P> TransferPostBody<I, S, R, P> {
    /// The post of this body: the same transfer, each amount written as a decimal numeral.
    pub open spec fn post(self) -> TransferPostView<I, S, R, P> {
        TransferPostView {
            asset_id: self.asset_id,
            sources: decimals(self.sources@),
            sender_posts: self.sender_posts@,
            receiver_posts: self.receiver_posts@,
            sinks: decimals(self.sinks@),
            validity_proof: self.validity_proof,
        }
    }
}

/// The posts of a sequence of bodies, in their order.
pub open spec fn posts_of<I, S, R, P>(bodies: Seq<TransferPostBody<I, S, R, P>>) -> Seq<
    TransferPostView<I, S, R, P>,
> {
    Seq::new(bodies.len(), |i: int| bodies[i].post())
}

/// What each post of a sequence holds.
pub open spec fn post_views<I, S, R, P>(posts: Seq<TransferPost<I, S, R, P>>) -> Seq<
    TransferPostView<I, S, R, P>,
> {
    Seq::new(posts.len(), |i: int| posts[i]@)
}

/// A post is all that it holds: its view has each of its parts, whole and in order.
pub proof fn law_post_view_is_the_post<I, S, R, P>(post: TransferPost<I, S, R, P>)
    ensures
        post@.asset_id == post.asset_id,
        post@.sources.len() == post.sources@.len(),
        forall|i: int|
            0 <= i < post.sources@.len() ==> #[trigger] post@.sources[i] == post.sources@[i]@,
        post@.sender_posts == post.sender_posts@,
        post@.receiver_posts == post.receiver_posts@,
        post@.sinks.len() == post.sinks@.len(),
        forall|i: int|
            0 <= i < post.sinks@.len() ==> #[trigger] post@.sinks[i] == post.sinks@[i]@,
        post@.validity_proof == post.validity_proof,
{
}

/// What a name decodes to is what the decoder gives for the bytes of its UTF-8 encoding, and for no
/// others.
pub proof fn law_name_is_decoded_by_its_bytes<F: Fn([u8; 32]) -> Result<I, E>, I, E>(
    decode: F,
    name: Seq<char>,
    field: [u8; 32],
    result: Result<I, E>,
)
    ensures
        field@ == encode_utf8(name) && call_ensures(decode, (field,), result) ==> name_decodes_to(
            decode,
            name,
            result,
        ),
        field@ == encode_utf8(name) && name_decodes_to(decode, name, result) ==> call_ensures(
            decode,
            (field,),
            result,
        ),
        name_decodes_to(decode, name, result) ==> encode_utf8(name).len() == 32,
{
    if name_decodes_to(decode, name, result) {
        let other = choose|other: [u8; 32]|
            other@ == encode_utf8(name) && #[trigger] call_ensures(decode, (other,), result);
        assert(other@.len() == 32);
        if field@ == encode_utf8(name) {
            assert(field =~= other);
        }
    }
}

/// A post that is built from parts has each of them, whole, and an identifier exactly where a name
/// was given: the one that the name decodes to.
pub proof fn law_built_post_has_its_parts<I, S, R, P, F: Fn([u8; 32]) -> Result<I, E>, E>(
    post: TransferPostView<I, S, R, P>,
    name: Option<Seq<char>>,
    decode: F,
    sources: Seq<Seq<char>>,
    sender_posts: Seq<S>,
    receiver_posts: Seq<R>,
    sinks: Seq<Seq<char>>,
    validity_proof: P,
)
    ensures
        post.has_parts(
            name,
            decode,
            sources,
            sender_posts,
            receiver_posts,
            sinks,
            validity_proof,
        ) <==> {
            &&& post.sources == sources
            &&& post.sender_posts == sender_posts
            &&& post.receiver_posts == receiver_posts
            &&& post.sinks == sinks
            &&& post.validity_proof == validity_proof
            &&& post.asset_id is Some <==> name is Some
            &&& name is Some ==> name_decodes_to(decode, name->0, Ok::<I, E>(post.asset_id->0))
        },
{
}

/// The post of a body has everything that the body has: its asset identifier, all that senders and
/// receivers post, in order, its proof, and a numeral for each amount, in order.
pub proof fn law_post_keeps_every_part<I, S, R, P>(body: TransferPostBody<I, S, R, P>)
    ensures
        body.post().asset_id == body.asset_id,
        body.post().sender_posts == body.sender_posts@,
        body.post().receiver_posts == body.receiver_posts@,
        body.post().validity_proof == body.validity_proof,
        body.post().sources.len() == body.sources@.len(),
        forall|i: int|
            0 <= i < body.sources@.len() ==> #[trigger] body.post().sources[i] == decimal(
                body.sources@[i] as nat,
            ),
        body.post().sinks.len() == body.sinks@.len(),
        forall|i: int|
            0 <= i < body.sinks@.len() ==> #[trigger] body.post().sinks[i] == decimal(
                body.sinks@[i] as nat,
            ),
{
}

/// Bodies with the same post are the same in every part: a post loses nothing.
pub proof fn law_post_determines_its_body<I, S, R, P>(
    a: TransferPostBody<I, S, R, P>,
    b: TransferPostBody<I, S, R, P>,
)
    requires
        a.post() == b.post(),
    ensures
        a.asset_id == b.asset_id,
        a.sources@ == b.sources@,
        a.sender_posts@ == b.sender_posts@,
        a.receiver_posts@ == b.receiver_posts@,
        a.sinks@ == b.sinks@,
        a.validity_proof == b.validity_proof,
{
    law_post_keeps_amounts(a);
    law_post_keeps_amounts(b);
    assert forall|i: int| 0 <= i < a.sources@.len() implies a.sources@[i] == b.sources@[i] by {
        assert(a.post().sources[i] == b.post().sources[i]);
    }
    assert forall|i: int| 0 <= i < a.sinks@.len() implies a.sinks@[i] == b.sinks@[i] by {
        assert(a.post().sinks[i] == b.post().sinks[i]);
    }
    assert(a.sources@ =~= b.sources@);
    assert(a.sinks@ =~= b.sinks@);
}

/// There is one post for each body, at the same place.
pub proof fn law_one_post_for_each_body<I, S, R, P>(bodies: Seq<TransferPostBody<I, S, R, P>>)
    ensures
        posts_of(bodies).len() == bodies.len(),
        forall|i: int|
            0 <= i < bodies.len() ==> #[trigger] posts_of(bodies)[i] == bodies[i].post(),
{
}

/// The views of posts are those of each, at the same place.
pub proof fn law_one_view_for_each_post<I, S, R, P>(posts: Seq<TransferPost<I, S, R, P>>)
    ensures
        post_views(posts).len() == posts.len(),
        forall|i: int| 0 <= i < posts.len() ==> #[trigger] post_views(posts)[i] == posts[i]@,
{
}

/// The posts of bodies that are handed in together are those of the bodies handed in apart.
pub proof fn law_posts_of_concatenation<I, S, R, P>(
    a: Seq<TransferPostBody<I, S, R, P>>,
    b: Seq<TransferPostBody<I, S, R, P>>,
)
    ensures
        posts_of(a + b) == posts_of(a) + posts_of(b),
{
    assert(posts_of(a + b) =~= posts_of(a) + posts_of(b));
}

/// The post holds every amount of its body: as many of them, and each is read back unchanged.
pub proof fn law_post_keeps_amounts<I, S, R, P>(body: TransferPostBody<I, S, R, P>)
    ensures
        body.post().sources.len() == body.sources@.len(),
        body.post().sinks.len() == body.sinks@.len(),
        forall|i: int|
            0 <= i < body.sources@.len() ==> amount(#[trigger] body.post().sources[i]) == Some(
                body.sources@[i],
            ),
        forall|i: int|
            0 <= i < body.sinks@.len() ==> amount(#[trigger] body.post().sinks[i]) == Some(
                body.sinks@[i],
            ),
{
    assert forall|i: int| 0 <= i < body.sources@.len() implies amount(
        #[trigger] body.post().sources[i],
    ) == Some(body.sources@[i]) by {
        law_amount_round_trip(body.sources@[i]);
    }
    assert forall|i: int| 0 <= i < body.sinks@.len() implies amount(
        #[trigger] body.post().sinks[i],
    ) == Some(body.sinks@[i]) by {
        law_amount_round_trip(body.sinks@[i]);
    }
}

/// The post of a body whose asset identifier has a name is the one post that has that name, under
/// a deterministic decoder, and the other parts of the post: it is one, and any such is it.
pub proof fn law_post_rebuilt_from_parts<F: Fn([u8; 32]) -> Result<I, E>, I, E, S, R, P>(
    body: TransferPostBody<I, S, R, P>,
    field: [u8; 32],
    name: Option<Seq<char>>,
    decode: F,
    post: TransferPostView<I, S, R, P>,
)
    requires
        is_deterministic(decode),
        match body.asset_id {
            Some(id) => name is Some && id_string(field@) == name && call_ensures(
                decode,
                (field,),
                Ok::<I, E>(id),
            ),
            None => name is None,
        },
    ensures
        post.has_parts(
            name,
            decode,
            body.post().sources,
            body.post().sender_posts,
            body.post().receiver_posts,
            body.post().sinks,
            body.post().validity_proof,
        ) <==> post == body.post(),
{
    if let Some(id) = body.asset_id {
        law_field_of_id_string(field@);
        let name = name->0;
        assert(name_decodes_to(decode, name, Ok::<I, E>(id)));
        if post.asset_id matches Some(other) && name_decodes_to(decode, name, Ok::<I, E>(other)) {
            let bytes = choose|bytes: [u8; 32]|
                bytes@ == encode_utf8(name) && #[trigger] call_ensures(
                    decode,
                    (bytes,),
                    Ok::<I, E>(post.asset_id->0),
                );
            assert(bytes =~= field);
        }
    }
}

/// Writes each value as a decimal numeral.
fn decimal_strings(values: &Vec<u128>) -> (r: Vec<String>)
    ensures
        strings(r@) == decimals(values@),
        r@.len() == values@.len(),
        forall|j: int| 0 <= j < r@.len() ==> (#[trigger] r@[j])@ == decimal(values@[j] as nat),
{
    let mut r: Vec<String> = Vec::new();
    let mut i: usize = 0;
    while i < values.len()
        invariant
            0 <= i <= values@.len(),
            r@.len() == i,
            forall|j: int| 0 <= j < i ==> (#[trigger] r@[j])@ == decimal(values@[j] as nat),
        decreases values@.len() - i,
    {
        r.push(decimal_string(values[i]));
        i += 1;
    }
    assert(strings(r@) =~= decimals(values@));
    r
}

impl<I, S, R, P> TransferPost<I, S, R, P> {
    /// Builds a post from its parts, the asset identifier by its name, which `decode` turns into
    /// an identifier; the error is that of the decoder.
    pub fn new<F: Fn([u8; 32]) -> Result<I, E>, E>(
        asset_id: Option<String>,
        decode: F,
        sources: Vec<String>,
        sender_posts: Vec<S>,
        receiver_posts: Vec<R>,
        sinks: Vec<String>,
        validity_proof: P,
    ) -> (r: Result<TransferPost<I, S, R, P>, E>)
        requires
            asset_id matches Some(id) ==> encode_utf8(id@).len() == 32,
            asset_id matches Some(id) ==> forall|field: [u8; 32]|
                field@ == encode_utf8(id@) ==> #[trigger] call_requires(decode, (field,)),
        ensures
            r matches Ok(post) ==> {
                &&& post.sources == sources
                &&& post.sender_posts == sender_posts
                &&& post.receiver_posts == receiver_posts
                &&& post.sinks == sinks
                &&& post.validity_proof == validity_proof
                &&& post.asset_id is Some <==> asset_id is Some
            },
            asset_id is None ==> r is Ok,
            match r {
                Ok(post) => post@.has_parts(
                    match asset_id {
                        Some(id) => Some(id@),
                        None => None,
                    },
                    decode,
                    strings(sources@),
                    sender_posts@,
                    receiver_posts@,
                    strings(sinks@),
                    validity_proof,
                ),
                Err(error) => asset_id matches Some(id) && name_decodes_to(
                    decode,
                    id@,
                    Err::<I, E>(error),
                ),
            },
    {
        let asset_id: Option<I> = match asset_id {
            Some(id) => {
                let field = field_from_id_string(id);
                match decode(field) {
                    Ok(id) => Some(id),
                    Err(error) => {
                        return Err(error);
                    },
                }
            },
            None => None,
        };
        Ok(TransferPost { asset_id, sources, sender_posts, receiver_posts, sinks, validity_proof })
    }

    /// The post of `body`.
    pub fn from(body: TransferPostBody<I, S, R, P>) -> (r: TransferPost<I, S, R, P>)
        ensures
            r@ == body.post(),
            r.asset_id == body.asset_id,
            r.sources@.len() == body.sources@.len(),
            forall|i: int|
                0 <= i < body.sources@.len() ==> (#[trigger] r.sources@[i])@ == decimal(
                    body.sources@[i] as nat,
                ),
            r.sender_posts == body.sender_posts,
            r.receiver_posts == body.receiver_posts,
            r.sinks@.len() == body.sinks@.len(),
            forall|i: int|
                0 <= i < body.sinks@.len() ==> (#[trigger] r.sinks@[i])@ == decimal(
                    body.sinks@[i] as nat,
                ),
            r.validity_proof == body.validity_proof,
    {
        let sources = decimal_strings(&body.sources);
        let sinks = decimal_strings(&body.sinks);
        TransferPost {
            asset_id: body.asset_id,
            sources,
            sender_posts: body.sender_posts,
            receiver_posts: body.receiver_posts,
            sinks,
            validity_proof: body.validity_proof,
        }
    }
}

/// The posts of `bodies`, in their order.
pub fn transfer_posts<I, S, R, P>(bodies: Vec<TransferPostBody<I, S, R, P>>) -> (r: Vec<
    TransferPost<I, S, R, P>,
>)
    ensures
        post_views(r@) == posts_of(bodies@),
        r@.len() == bodies@.len(),
        forall|i: int| 0 <= i < bodies@.len() ==> (#[trigger] r@[i])@ == bodies@[i].post(),
{
    let mut r: Vec<TransferPost<I, S, R, P>> = Vec::new();
    for body in it: bodies
        invariant
            it.seq() == bodies@,
            r@.len() == it.index(),
            forall|j: int| 0 <= j < r@.len() ==> (#[trigger] r@[j])@ == bodies@[j].post(),
    {
        r.push(TransferPost::from(body));
    }
    assert(post_views(r@) =~= posts_of(bodies@));
    r
}

} // verus!
