//! The wallet: its balances, and the calls that it makes of the signer and the ledger.
//!
//! A call passes through three steps. It is *scheduled* when it is asked for, *begun* when its
//! turn comes, and *completed* when the signer and the ledger have answered. The signer works for
//! one network at a time: that of a call is set when the call begins and cleared when it
//! completes, whatever the answer. From its beginning to its completion a call has the wallet to
//! itself: others may be scheduled meanwhile, which does not disturb it, and begin when it has
//! completed.
use vstd::prelude::*;
use vstd::string::*;

use crate::asset::{le_bytes, Asset, AssetId, BalanceState};
use crate::decimal::{
    decimal, decimal_string, is_numeral, law_decimal_denotes, law_numeral_is_digits,
    numeral_value, parse_amount,
};
use crate::ledger::PolkadotJsLedger;
use crate::post::{post_views, posts_of, transfer_posts, TransferPost, TransferPostBody};

verus! {

/// A connection to a signer through the client `S`.
#[derive(Debug)]
pub struct Signer<S>(pub S);

impl<S> Signer<S> {
    /// Connects to the signer at `server_url`; [`None`] where `connect` fails.
    pub fn new<F: FnOnce(String) -> Result<S, E>, E>(server_url: String, connect: F) -> (r: Option<
        Signer<S>,
    >)
        requires
            call_requires(connect, (server_url,)),
        ensures
            match r {
                Some(signer) => call_ensures(connect, (server_url,), Ok::<S, E>(signer.0)),
                None => exists|error: E| call_ensures(connect, (server_url,), Err::<S, E>(error)),
            },
    {
        match connect(server_url) {
            Ok(client) => Some(Signer(client)),
            Err(error) => {
                assert(call_ensures(connect, (server_url,), Err::<S, E>(error)));
                None
            },
        }
    }
}

/// What a call asks of the signer and the ledger. `T` is a transaction, `M` the metadata of an
/// asset.
#[derive(Clone, Debug, PartialEq, Eq)]
pub enum Request<T, M> {
    /// Recover the whole wallet.
    Restart,
    /// Pull from the ledger until there is nothing more to pull.
    Sync,
    /// Pull from the ledger once.
    SyncPartial,
    /// Sign a transaction.
    Sign(T, Option<M>),
    /// Sign a transaction and post it to the ledger.
    Post(T, Option<M>),
    /// Give the address that the wallet receives at.
    Address,
}

/// The kind of a [`Request`].
#[derive(Clone, Copy, Debug, PartialEq, Eq, Structural)]
pub enum RequestKind {
    /// Recover the whole wallet.
    Restart,
    /// Pull from the ledger until there is nothing more to pull.
    Sync,
    /// Pull from the ledger once.
    SyncPartial,
    /// Sign a transaction.
    Sign,
    /// Sign a transaction and post it to the ledger.
    Post,
    /// Give the address that the wallet receives at.
    Address,
}

impl RequestKind {
    /// Whether such a request follows the ledger, so that it may change balances and checkpoint.
    /// Neither signing nor giving an address does.
    pub open spec fn synchronizes(self) -> bool {
        !(self is Sign) && !(self is Address)
    }
}

impl<T, M> Request<T, M> {
    /// The kind of this request.
    pub open spec fn spec_kind(self) -> RequestKind {
        match self {
            Request::Restart => RequestKind::Restart,
            Request::Sync => RequestKind::Sync,
            Request::SyncPartial => RequestKind::SyncPartial,
            Request::Sign(_, _) => RequestKind::Sign,
            Request::Post(_, _) => RequestKind::Post,
            Request::Address => RequestKind::Address,
        }
    }

    /// The kind of this request.
    pub fn kind(&self) -> (r: RequestKind)
        ensures
            r == self.spec_kind(),
            match self {
                Request::Restart => r == RequestKind::Restart,
                Request::Sync => r == RequestKind::Sync,
                Request::SyncPartial => r == RequestKind::SyncPartial,
                Request::Sign(_, _) => r == RequestKind::Sign,
                Request::Post(_, _) => r == RequestKind::Post,
                Request::Address => r == RequestKind::Address,
            },
    {
        match self {
            Request::Restart => RequestKind::Restart,
            Request::Sync => RequestKind::Sync,
            Request::SyncPartial => RequestKind::SyncPartial,
            Request::Sign(_, _) => RequestKind::Sign,
            Request::Post(_, _) => RequestKind::Post,
            Request::Address => RequestKind::Address,
        }
    }
}

/// A call that is scheduled: what it asks for, and the network that it asks it on.
#[derive(Clone, Debug, PartialEq, Eq)]
pub struct Call<T, M, N> {
    /// What is asked for.
    pub request: Request<T, M>,
    /// The network.
    pub network: N,
}

/// The state of a wallet, where `B` is what it talks to the signer and the ledger through, `N` a
/// network and `K` a checkpoint of the ledger.
#[verifier::ext_equal]
pub struct WalletView<B, N, K> {
    /// What talks to the signer and to the ledger.
    pub backend: B,
    /// The network that the signer works for, if one is set.
    pub network: Option<N>,
    /// What the call asks for that has begun and not completed, if there is one.
    pub running: Option<RequestKind>,
    /// How much of each kind of asset the wallet holds, by the bytes of its identifier.
    pub assets: Map<Seq<u8>, u128>,
    /// Up to where the wallet has followed the ledger.
    pub checkpoint: K,
}

/// A call that has run its course.
pub struct CompletedCall<N, K> {
    /// The kind of what was asked for.
    pub kind: RequestKind,
    /// The network.
    pub network: N,
    /// The balances that the ledger was then followed to.
    pub assets: Map<Seq<u8>, u128>,
    /// The checkpoint that the ledger was then followed to.
    pub checkpoint: K,
}

impl<B, N, K> WalletView<B, N, K> {
    /// Whether a call has begun and not completed.
    pub open spec fn is_running(self) -> bool {
        self.running is Some
    }

    /// The state once a call is scheduled. No network stays set but that of a running call.
    pub open spec fn scheduled(self) -> WalletView<B, N, K> {
        if self.is_running() {
            self
        } else {
            WalletView { network: None, ..self }
        }
    }

    /// The state once a call for a request of the given kind on `network` has begun.
    pub open spec fn begun(self, kind: RequestKind, network: N) -> WalletView<B, N, K> {
        WalletView { network: Some(network), running: Some(kind), ..self }
    }

    /// The state once the running call has ended, balances and checkpoint apart.
    pub open spec fn ended(self) -> WalletView<B, N, K> {
        WalletView { network: None, running: None, ..self }
    }

    /// The state once the running call has completed, when `assets` and `checkpoint` are what the
    /// ledger was then followed to. A call that does not synchronize leaves both as they were.
    pub open spec fn completed(self, assets: Map<Seq<u8>, u128>, checkpoint: K) -> WalletView<
        B,
        N,
        K,
    > {
        if self.running matches Some(kind) && kind.synchronizes() {
            WalletView { assets, checkpoint, ..self.ended() }
        } else {
            self.ended()
        }
    }

    /// Whether the signer has a network set exactly while a call is running.
    pub open spec fn is_consistent(self) -> bool {
        self.network is Some <==> self.is_running()
    }

    /// The state once a number of calls have been scheduled, begun and completed one after the
    /// other, each of its kind, on its network, and with what the ledger was then followed to.
    pub open spec fn after_calls(self, calls: Seq<CompletedCall<N, K>>) -> WalletView<B, N, K>
        decreases calls.len(),
    {
        if calls.len() == 0 {
            self
        } else {
            let call = calls.last();
            self.after_calls(calls.drop_last()).scheduled().begun(
                call.kind,
                call.network,
            ).completed(call.assets, call.checkpoint)
        }
    }

    /// The balance of the kind of asset with the identifier `id`.
    pub open spec fn balance(self, id: Seq<u8>) -> nat {
        if self.assets.contains_key(id) {
            self.assets[id] as nat
        } else {
            0
        }
    }

    /// Whether the wallet holds at least what `value` denotes of the kind `id`. What is no
    /// numeral denotes no amount.
    pub open spec fn holds(self, id: Seq<u8>, value: Seq<char>) -> bool {
        is_numeral(value) && numeral_value(value) <= self.balance(id)
    }
}

/// The message for a call that failed with an error that is shown as `text`.
pub open spec fn call_error(text: Seq<char>) -> Seq<char> {
    "Error during asynchronous call: "@ + text
}

/// A call works on the network that it was made for, and leaves none set.
pub proof fn law_call_sets_its_network<B, N, K>(
    wallet: WalletView<B, N, K>,
    kind: RequestKind,
    network: N,
    assets: Map<Seq<u8>, u128>,
    checkpoint: K,
)
    ensures
        !wallet.is_running() ==> wallet.scheduled().network is None,
        wallet.scheduled().begun(kind, network).network == Some(network),
        wallet.scheduled().begun(kind, network).completed(assets, checkpoint).network is None,
{
}

/// Every step keeps it that a network is set exactly while a call is running.
pub proof fn law_network_is_set_while_running<B, N, K>(
    wallet: WalletView<B, N, K>,
    kind: RequestKind,
    network: N,
    assets: Map<Seq<u8>, u128>,
    checkpoint: K,
)
    requires
        wallet.is_consistent(),
    ensures
        wallet.scheduled().is_consistent(),
        wallet.begun(kind, network).is_consistent(),
        wallet.completed(assets, checkpoint).is_consistent(),
{
}

/// A call may be scheduled while another is running: that one goes on undisturbed, on its own
/// network, and ends as it would have; the other can then begin, on its own network.
pub proof fn law_scheduling_does_not_disturb<B, N, K>(
    wallet: WalletView<B, N, K>,
    kind: RequestKind,
    network: N,
    assets: Map<Seq<u8>, u128>,
    checkpoint: K,
    next: RequestKind,
    next_network: N,
)
    ensures
        wallet.begun(kind, network).scheduled() == wallet.begun(kind, network),
        ({
            let done = wallet.begun(kind, network).scheduled().completed(assets, checkpoint);
            &&& done == wallet.begun(kind, network).completed(assets, checkpoint)
            &&& !done.is_running()
            &&& done.begun(next, next_network).network == Some(next_network)
        }),
{
}

/// Once a call has completed, with or without an error, the wallet can be read and can begin
/// another call: no call is running. What is then read is what the call left, and goes on being so
/// while further calls are scheduled.
pub proof fn law_wallet_is_usable_after_a_call<B, N, K>(
    wallet: WalletView<B, N, K>,
    kind: RequestKind,
    network: N,
    assets: Map<Seq<u8>, u128>,
    checkpoint: K,
)
    ensures
        ({
            let done = wallet.begun(kind, network).completed(assets, checkpoint);
            &&& !done.is_running()
            &&& done.assets == if kind.synchronizes() {
                assets
            } else {
                wallet.assets
            }
            &&& done.checkpoint == if kind.synchronizes() {
                checkpoint
            } else {
                wallet.checkpoint
            }
            &&& done.scheduled() == done
        }),
{
}

/// After any number of calls no network is set, no call is running, and the connections are those
/// that the wallet started with.
pub proof fn law_calls_end_at_rest<B, N, K>(
    wallet: WalletView<B, N, K>,
    calls: Seq<CompletedCall<N, K>>,
)
    requires
        calls.len() > 0,
    ensures
        wallet.after_calls(calls).network is None,
        !wallet.after_calls(calls).is_running(),
        wallet.after_calls(calls).backend == wallet.backend,
    decreases calls.len(),
{
    if calls.len() > 1 {
        law_calls_end_at_rest(wallet, calls.drop_last());
    } else {
        assert(wallet.after_calls(calls.drop_last()) == wallet);
    }
}

/// Calls that do not synchronize leave balances and checkpoint as they were.
pub proof fn law_calls_that_do_not_synchronize<B, N, K>(
    wallet: WalletView<B, N, K>,
    calls: Seq<CompletedCall<N, K>>,
)
    requires
        forall|i: int| 0 <= i < calls.len() ==> !(#[trigger] calls[i]).kind.synchronizes(),
    ensures
        wallet.after_calls(calls).assets == wallet.assets,
        wallet.after_calls(calls).checkpoint == wallet.checkpoint,
    decreases calls.len(),
{
    if calls.len() > 0 {
        law_calls_that_do_not_synchronize(wallet, calls.drop_last());
    }
}

/// After any number of calls the wallet has the balances and the checkpoint of the last of them
/// that synchronized.
pub proof fn law_last_synchronizing_call_decides<B, N, K>(
    wallet: WalletView<B, N, K>,
    calls: Seq<CompletedCall<N, K>>,
    k: int,
)
    requires
        0 <= k < calls.len(),
        calls[k].kind.synchronizes(),
        forall|i: int| k < i < calls.len() ==> !(#[trigger] calls[i]).kind.synchronizes(),
    ensures
        wallet.after_calls(calls).assets == calls[k].assets,
        wallet.after_calls(calls).checkpoint == calls[k].checkpoint,
    decreases calls.len(),
{
    if k < calls.len() - 1 {
        law_last_synchronizing_call_decides(wallet, calls.drop_last(), k);
    }
}

/// What a call leaves behind does not depend on the network that it was made for.
pub proof fn law_network_leaves_no_trace<B, N, K>(
    wallet: WalletView<B, N, K>,
    kind: RequestKind,
    network: N,
    other: N,
    assets: Map<Seq<u8>, u128>,
    checkpoint: K,
)
    ensures
        wallet.begun(kind, network).completed(assets, checkpoint) == wallet.begun(
            kind,
            other,
        ).completed(assets, checkpoint),
{
}

/// A call has the wallet to itself from its beginning to its completion, and no longer.
pub proof fn law_call_is_exclusive<B, N, K>(
    wallet: WalletView<B, N, K>,
    kind: RequestKind,
    network: N,
    assets: Map<Seq<u8>, u128>,
    checkpoint: K,
)
    ensures
        wallet.scheduled().running == wallet.running,
        wallet.begun(kind, network).running == Some(kind),
        !wallet.begun(kind, network).completed(assets, checkpoint).is_running(),
{
}

/// Balances and checkpoint change when a call that synchronizes completes, and at no other step:
/// the checkpoint that is read before a call is still the wallet's when the call begins.
pub proof fn law_balances_change_on_completion_only<B, N, K>(
    wallet: WalletView<B, N, K>,
    kind: RequestKind,
    network: N,
)
    ensures
        wallet.scheduled().assets == wallet.assets,
        wallet.scheduled().checkpoint == wallet.checkpoint,
        wallet.scheduled().begun(kind, network).assets == wallet.assets,
        wallet.scheduled().begun(kind, network).checkpoint == wallet.checkpoint,
{
}

/// Neither signing nor asking for an address synchronizes: whatever the ledger holds by then, the
/// wallet is left as if the call had only been scheduled.
pub proof fn law_signing_does_not_synchronize<B, N, K>(
    wallet: WalletView<B, N, K>,
    kind: RequestKind,
    network: N,
    assets: Map<Seq<u8>, u128>,
    checkpoint: K,
)
    requires
        !wallet.is_running(),
        kind is Sign || kind is Address,
    ensures
        wallet.scheduled().begun(kind, network).completed(assets, checkpoint)
            == wallet.scheduled(),
{
}

/// Other calls that are scheduled before a call begins do not change what it works on.
pub proof fn law_scheduling_again_changes_nothing<B, N, K>(
    wallet: WalletView<B, N, K>,
    kind: RequestKind,
    network: N,
)
    ensures
        wallet.scheduled().scheduled() == wallet.scheduled(),
        wallet.scheduled().begun(kind, network) == wallet.begun(kind, network),
{
}

/// A wallet holds what its balance says, and no more than that.
pub proof fn law_wallet_holds_its_balance<B, N, K>(wallet: WalletView<B, N, K>, id: Seq<u8>, value: nat)
    ensures
        wallet.holds(id, decimal(value)) <==> value <= wallet.balance(id),
{
    law_decimal_denotes(value);
}

/// What the wallet has of a kind is what its balances hold for it, whatever that is, and nothing
/// where they hold nothing.
pub proof fn law_balance_is_what_is_held<B, N, K>(
    wallet: WalletView<B, N, K>,
    id: Seq<u8>,
    value: Seq<char>,
)
    ensures
        wallet.assets.contains_key(id) ==> wallet.balance(id) == wallet.assets[id],
        !wallet.assets.contains_key(id) ==> wallet.balance(id) == 0,
        wallet.holds(id, value) ==> value.len() > 0 && forall|i: int|
            0 <= i < value.len() ==> '0' <= #[trigger] value[i] <= '9',
        value.len() > 0 && (forall|i: int|
            0 <= i < value.len() ==> '0' <= #[trigger] value[i] <= '9') ==> {
            &&& wallet.assets.contains_key(id) ==> (wallet.holds(id, value) <==> numeral_value(
                value,
            ) <= wallet.assets[id])
            &&& !wallet.assets.contains_key(id) ==> (wallet.holds(id, value) <==> numeral_value(
                value,
            ) == 0)
        },
{
    law_numeral_is_digits(value);
}

/// A balance that is put in is the balance that is read, and that of every other kind stays.
pub proof fn law_balance_follows_the_assets<B, N, K>(
    wallet: WalletView<B, N, K>,
    id: Seq<u8>,
    amount: u128,
    other: Seq<u8>,
)
    requires
        other != id,
    ensures
        ({
            let after = WalletView { assets: wallet.assets.insert(id, amount), ..wallet };
            after.balance(id) == amount && after.balance(other) == wallet.balance(other)
        }),
{
}

/// A recovery, a synchronization, whole or partial, and a posting leave the wallet with the
/// balances and the checkpoint that the ledger was followed to.
pub proof fn law_following_the_ledger_is_kept<B, N, K>(
    wallet: WalletView<B, N, K>,
    assets: Map<Seq<u8>, u128>,
    checkpoint: K,
)
    requires
        wallet.running == Some(RequestKind::Restart) || wallet.running == Some(RequestKind::Sync)
            || wallet.running == Some(RequestKind::SyncPartial) || wallet.running == Some(
            RequestKind::Post,
        ),
    ensures
        wallet.completed(assets, checkpoint).assets == assets,
        wallet.completed(assets, checkpoint).checkpoint == checkpoint,
{
}

/// Signing and giving an address leave the wallet with the balances and the checkpoint that it had.
pub proof fn law_other_calls_keep_balances<B, N, K>(
    wallet: WalletView<B, N, K>,
    assets: Map<Seq<u8>, u128>,
    checkpoint: K,
)
    requires
        wallet.running == Some(RequestKind::Sign) || wallet.running == Some(RequestKind::Address),
    ensures
        wallet.completed(assets, checkpoint).assets == wallet.assets,
        wallet.completed(assets, checkpoint).checkpoint == wallet.checkpoint,
{
}

/// A call that ends, whatever it was for, clears the network, is no longer running, and leaves the
/// connections alone.
pub proof fn law_every_call_ends<B, N, K>(
    wallet: WalletView<B, N, K>,
    assets: Map<Seq<u8>, u128>,
    checkpoint: K,
)
    ensures
        wallet.completed(assets, checkpoint).network is None,
        wallet.completed(assets, checkpoint).running is None,
        wallet.completed(assets, checkpoint).backend == wallet.backend,
        wallet.ended().network is None,
        wallet.ended().running is None,
        wallet.ended().backend == wallet.backend,
        wallet.ended().assets == wallet.assets,
        wallet.ended().checkpoint == wallet.checkpoint,
{
}

/// Scheduling changes the network alone, and that only where no call is running.
pub proof fn law_scheduling_changes_the_network_alone<B, N, K>(wallet: WalletView<B, N, K>)
    ensures
        wallet.is_running() <==> wallet.running is Some,
        wallet.running is Some ==> wallet.scheduled().network == wallet.network,
        wallet.running is None ==> wallet.scheduled().network is None,
        wallet.scheduled().running == wallet.running,
        wallet.scheduled().backend == wallet.backend,
        wallet.scheduled().assets == wallet.assets,
        wallet.scheduled().checkpoint == wallet.checkpoint,
{
}

/// A call that begins sets its own network and its own kind, and changes nothing else.
pub proof fn law_beginning_sets_the_call_alone<T, M, B, N, K>(
    wallet: WalletView<B, N, K>,
    request: Request<T, M>,
    network: N,
)
    ensures
        ({
            let begun = wallet.begun(request.spec_kind(), network);
            &&& begun.network == Some(network)
            &&& match request {
                Request::Restart => begun.running == Some(RequestKind::Restart),
                Request::Sync => begun.running == Some(RequestKind::Sync),
                Request::SyncPartial => begun.running == Some(RequestKind::SyncPartial),
                Request::Sign(_, _) => begun.running == Some(RequestKind::Sign),
                Request::Post(_, _) => begun.running == Some(RequestKind::Post),
                Request::Address => begun.running == Some(RequestKind::Address),
            }
            &&& begun.backend == wallet.backend
            &&& begun.assets == wallet.assets
            &&& begun.checkpoint == wallet.checkpoint
        }),
{
}

/// A request that runs its course leaves the wallet following the ledger where it was to recover,
/// to synchronize or to post, and as it was where it was to sign or to give an address.
pub proof fn law_request_decides_what_is_kept<T, M, B, N, K>(
    wallet: WalletView<B, N, K>,
    request: Request<T, M>,
    network: N,
    assets: Map<Seq<u8>, u128>,
    checkpoint: K,
)
    ensures
        ({
            let done = wallet.scheduled().begun(request.spec_kind(), network).completed(
                assets,
                checkpoint,
            );
            match request {
                Request::Restart | Request::Sync | Request::SyncPartial | Request::Post(_, _) => {
                    done.assets == assets && done.checkpoint == checkpoint
                },
                Request::Sign(_, _) | Request::Address => {
                    done.assets == wallet.assets && done.checkpoint == wallet.checkpoint
                },
            }
        }),
{
}

/// Recovering, synchronizing, wholly or partially, and posting follow the ledger; signing and
/// giving an address do not.
pub proof fn law_kinds_that_synchronize()
    ensures
        RequestKind::Restart.synchronizes(),
        RequestKind::Sync.synchronizes(),
        RequestKind::SyncPartial.synchronizes(),
        RequestKind::Post.synchronizes(),
        !RequestKind::Sign.synchronizes(),
        !RequestKind::Address.synchronizes(),
{
}

/// Calls run one after the other: each finds the wallet as those before it left it.
pub proof fn law_calls_follow_each_other<B, N, K>(
    wallet: WalletView<B, N, K>,
    first: Seq<CompletedCall<N, K>>,
    second: Seq<CompletedCall<N, K>>,
)
    ensures
        wallet.after_calls(Seq::empty()) == wallet,
        wallet.after_calls(first + second) == wallet.after_calls(first).after_calls(second),
    decreases second.len(),
{
    if second.len() == 0 {
        assert(first + second =~= first);
    } else {
        assert((first + second).drop_last() =~= first + second.drop_last());
        assert((first + second).last() == second.last());
        law_calls_follow_each_other(wallet, first, second.drop_last());
    }
}

/// The message of a failed call is the same words for every error, followed by the whole of what
/// the error says.
pub proof fn law_call_error_ends_in_the_error(text: Seq<char>)
    ensures
        call_error(text).len() == 32 + text.len(),
        call_error(text).take(32) == "Error during asynchronous call: "@,
        call_error(text).skip(32) == text,
{
    reveal_strlit("Error during asynchronous call: ");
    assert(call_error(text).take(32) =~= "Error during asynchronous call: "@);
    assert(call_error(text).skip(32) =~= text);
}

/// A wallet with the connections `B`, on networks `N`, over a ledger with checkpoints `K`.
pub struct Wallet<B, N, K> {
    /// What talks to the signer and to the ledger.
    pub backend: B,
    network: Option<N>,
    running: Option<RequestKind>,
    assets: BalanceState,
    checkpoint: K,
}

impl<B, N, K> View for Wallet<B, N, K> {
    type V = WalletView<B, N, K>;

    closed spec fn view(&self) -> WalletView<B, N, K> {
        WalletView {
            backend: self.backend,
            network: self.network,
            running: self.running,
            assets: self.assets@,
            checkpoint: self.checkpoint,
        }
    }
}

impl<B, N, K> Wallet<B, N, K> {
    /// Starts a wallet from connections to a ledger and a signer, which `connect` joins into what
    /// the wallet talks through, with the balances and the checkpoint to start from.
    pub fn new<A, S, F>(ledger: PolkadotJsLedger<A>, signer: Signer<S>, connect: F) -> (r: Wallet<
        B,
        N,
        K,
    >) where F: FnOnce(PolkadotJsLedger<A>, S) -> (B, BalanceState, K)
        requires
            call_requires(connect, (ledger, signer.0)),
        ensures
            exists|assets: BalanceState|
                #![trigger assets@]
                call_ensures(
                    connect,
                    (ledger, signer.0),
                    (r@.backend, assets, r@.checkpoint),
                ) && r@ == (WalletView {
                    backend: r@.backend,
                    network: None::<N>,
                    running: None,
                    assets: assets@,
                    checkpoint: r@.checkpoint,
                }),
    {
        let (backend, assets, checkpoint) = connect(ledger, signer.0);
        let ghost balances = assets@;
        let r = Wallet { backend, network: None, running: None, assets, checkpoint };
        assert(r@.assets == balances);
        r
    }

    /// The current balance of the kind of asset with the number `id`, as a decimal numeral.
    pub fn balance(&self, id: u32) -> (r: String)
        requires
            !self@.is_running(),
        ensures
            r@ == decimal(self@.balance(le_bytes(id as nat, 32))),
            ({
                let key = le_bytes(id as nat, 32);
                &&& self@.assets.contains_key(key) ==> r@ == decimal(self@.assets[key] as nat)
                &&& !self@.assets.contains_key(key) ==> r@ == decimal(0)
            }),
    {
        match self.assets.get(&AssetId::from_u32(id)) {
            Some(value) => decimal_string(value),
            None => decimal_string(0),
        }
    }

    /// Whether the wallet holds at least `asset.value` of the asset of kind `asset.id`.
    pub fn contains(&self, asset: Asset) -> (r: bool)
        requires
            !self@.is_running(),
        ensures
            r == self@.holds(asset.id@, asset.value@),
            r <==> {
                &&& asset.value@.len() > 0
                &&& forall|i: int|
                    0 <= i < asset.value@.len() ==> '0' <= #[trigger] asset.value@[i] <= '9'
                &&& if self@.assets.contains_key(asset.id@) {
                    numeral_value(asset.value@) <= self@.assets[asset.id@]
                } else {
                    numeral_value(asset.value@) == 0
                }
            },
    {
        proof {
            law_numeral_is_digits(asset.value@);
        }
        let balance: u128 = match self.assets.get(&asset.id) {
            Some(value) => value,
            None => 0,
        };
        match parse_amount(asset.value.as_str()) {
            Some(value) => value <= balance,
            None => false,
        }
    }

    /// The balances of the wallet.
    pub fn assets(&self) -> (r: &BalanceState)
        requires
            !self@.is_running(),
        ensures
            r@ == self@.assets,
    {
        &self.assets
    }

    /// Up to where the wallet has followed the ledger.
    pub fn checkpoint(&self) -> (r: &K)
        requires
            !self@.is_running(),
        ensures
            *r == self@.checkpoint,
    {
        &self.checkpoint
    }

    /// The network that the signer works for, if one is set.
    pub fn network(&self) -> (r: &Option<N>)
        ensures
            *r == self@.network,
    {
        &self.network
    }

    /// Whether a call has begun and not completed.
    pub fn is_running(&self) -> (r: bool)
        ensures
            r == self@.is_running(),
            r == self@.running is Some,
    {
        self.running.is_some()
    }

    /// What the call asks for that has begun and not completed, if there is one.
    pub fn running(&self) -> (r: Option<RequestKind>)
        ensures
            r == self@.running,
    {
        self.running
    }

    /// Schedules `request` on `network`.
    fn with_async<T, M>(&mut self, request: Request<T, M>, network: N) -> (r: Call<T, M, N>)
        ensures
            final(self)@ == old(self)@.scheduled(),
            r == (Call { request, network }),
    {
        if self.running.is_none() {
            self.network = None;
        }
        Call { request, network }
    }

    /// Schedules a full recovery of the wallet.
    pub fn restart<T, M>(&mut self, network: N) -> (r: Call<T, M, N>)
        ensures
            final(self)@ == old(self)@.scheduled(),
            r == (Call { request: Request::<T, M>::Restart, network }),
    {
        self.with_async(Request::Restart, network)
    }

    /// Schedules a synchronization with all that the ledger holds.
    pub fn sync<T, M>(&mut self, network: N) -> (r: Call<T, M, N>)
        ensures
            final(self)@ == old(self)@.scheduled(),
            r == (Call { request: Request::<T, M>::Sync, network }),
    {
        self.with_async(Request::Sync, network)
    }

    /// Schedules a synchronization with the next part of what the ledger holds.
    pub fn sync_partial<T, M>(&mut self, network: N) -> (r: Call<T, M, N>)
        ensures
            final(self)@ == old(self)@.scheduled(),
            r == (Call { request: Request::<T, M>::SyncPartial, network }),
    {
        self.with_async(Request::SyncPartial, network)
    }

    /// Schedules the signing of `transaction`, with `metadata` for context.
    pub fn sign<T, M>(&mut self, transaction: T, metadata: Option<M>, network: N) -> (r: Call<
        T,
        M,
        N,
    >)
        ensures
            final(self)@ == old(self)@.scheduled(),
            r == (Call { request: Request::Sign(transaction, metadata), network }),
    {
        self.with_async(Request::Sign(transaction, metadata), network)
    }

    /// Schedules the posting of `transaction`, with `metadata` for context.
    pub fn post<T, M>(&mut self, transaction: T, metadata: Option<M>, network: N) -> (r: Call<
        T,
        M,
        N,
    >)
        ensures
            final(self)@ == old(self)@.scheduled(),
            r == (Call { request: Request::Post(transaction, metadata), network }),
    {
        self.with_async(Request::Post(transaction, metadata), network)
    }

    /// Schedules a request for the public receiving keys.
    pub fn receiving_keys<T, M>(&mut self, network: N) -> (r: Call<T, M, N>)
        ensures
            final(self)@ == old(self)@.scheduled(),
            r == (Call { request: Request::<T, M>::Address, network }),
    {
        self.with_async(Request::Address, network)
    }

    /// Begins a scheduled call: sets its network and hands out what is to be asked.
    pub fn begin<T, M>(&mut self, call: Call<T, M, N>) -> (r: Request<T, M>)
        requires
            !old(self)@.is_running(),
        ensures
            final(self)@ == old(self)@.begun(call.request.spec_kind(), call.network),
            r == call.request,
    {
        self.running = Some(call.request.kind());
        self.network = Some(call.network);
        call.request
    }

    /// Ends a call that was answered with `response`: clears its network, and gives what the
    /// caller is told.
    fn settle<V>(&mut self, response: Result<V, String>) -> (r: Result<V, String>)
        ensures
            final(self)@ == old(self)@.ended(),
            match response {
                Ok(value) => r == Ok::<V, String>(value),
                Err(text) => r matches Err(message) && message@ == call_error(text@),
            },
            response matches Err(text) ==> r matches Err(message) && message@
                == "Error during asynchronous call: "@ + text@,
    {
        self.network = None;
        self.running = None;
        match response {
            Ok(value) => Ok(value),
            Err(text) => {
                let mut message = String::new();
                message.append("Error during asynchronous call: ");
                message.append(text.as_str());
                assert(message@ =~= call_error(text@));
                Err(message)
            },
        }
    }

    /// Completes a call, other than one to sign, that was answered with `response`, an error by
    /// the text that shows it, when the ledger was followed to `assets` at `checkpoint`. A request
    /// for an address leaves balances and checkpoint as they were. Gives what the caller is told.
    pub fn complete<V>(
        &mut self,
        response: Result<V, String>,
        assets: BalanceState,
        checkpoint: K,
    ) -> (r: Result<V, String>)
        requires
            old(self)@.running matches Some(kind) && !(kind is Sign),
        ensures
            final(self)@ == old(self)@.completed(assets@, checkpoint),
            old(self)@.running == Some(RequestKind::Restart) || old(self)@.running == Some(
                RequestKind::Sync,
            ) || old(self)@.running == Some(RequestKind::SyncPartial) || old(self)@.running == Some(
                RequestKind::Post,
            ) ==> final(self)@.assets == assets@ && final(self)@.checkpoint == checkpoint,
            final(self)@.network is None,
            final(self)@.running is None,
            final(self)@.backend == old(self)@.backend,
            old(self)@.running == Some(RequestKind::Address) ==> final(self)@.assets == old(
                self,
            )@.assets && final(self)@.checkpoint == old(self)@.checkpoint,
            match response {
                Ok(value) => r == Ok::<V, String>(value),
                Err(text) => r matches Err(message) && message@ == call_error(text@),
            },
            response matches Err(text) ==> r matches Err(message) && message@
                == "Error during asynchronous call: "@ + text@,
    {
        let synchronizes: bool = match self.running {
            Some(RequestKind::Address) => false,
            _ => true,
        };
        if synchronizes {
            self.assets = assets;
            self.checkpoint = checkpoint;
        }
        self.settle(response)
    }

    /// Completes a call to sign: as [`Wallet::complete`], with the signed bodies as posts, except
    /// that balances and checkpoint stay as they were, for signing does not synchronize.
    pub fn complete_sign<I, S, R, P>(
        &mut self,
        response: Result<Vec<TransferPostBody<I, S, R, P>>, String>,
    ) -> (r: Result<Vec<TransferPost<I, S, R, P>>, String>)
        requires
            old(self)@.running == Some(RequestKind::Sign),
        ensures
            final(self)@ == old(self)@.ended(),
            forall|assets: Map<Seq<u8>, u128>, checkpoint: K|
                final(self)@ == #[trigger] old(self)@.completed(assets, checkpoint),
            match response {
                Ok(bodies) => r matches Ok(posts) && post_views(posts@) == posts_of(bodies@),
                Err(text) => r matches Err(message) && message@ == call_error(text@),
            },
            match response {
                Ok(bodies) => r matches Ok(posts) && posts@.len() == bodies@.len() && forall|i: int|
                    0 <= i < bodies@.len() ==> (#[trigger] posts@[i])@ == bodies@[i].post(),
                Err(text) => r matches Err(message) && message@
                    == "Error during asynchronous call: "@ + text@,
            },
            final(self)@.network is None,
            final(self)@.running is None,
            final(self)@.backend == old(self)@.backend,
            final(self)@.assets == old(self)@.assets,
            final(self)@.checkpoint == old(self)@.checkpoint,
    {
        let posts: Result<Vec<TransferPost<I, S, R, P>>, String> = match response {
            Ok(bodies) => Ok(transfer_posts(bodies)),
            Err(text) => Err(text),
        };
        self.settle(posts)
    }

    /// Checks whether `transaction` can be executed, as `execute` decides it: gives the kind of
    /// update that the transaction makes, or the asset that there is too little of.
    pub fn check<T, Q, F>(&self, transaction: &T, execute: F) -> (r: Result<Q, Asset>) where
        F: Fn(&B, &T) -> Result<Q, (AssetId, u128)>,

        requires
            !self@.is_running(),
            call_requires(execute, (&self@.backend, transaction)),
        ensures
            match r {
                Ok(kind) => call_ensures(
                    execute,
                    (&self@.backend, transaction),
                    Ok::<Q, (AssetId, u128)>(kind),
                ),
                Err(asset) => exists|value: u128|
                    #![trigger decimal(value as nat)]
                    call_ensures(
                        execute,
                        (&self@.backend, transaction),
                        Err::<Q, (AssetId, u128)>((asset.id, value)),
                    ) && asset.value@ == decimal(value as nat),
            },
    {
        match execute(&self.backend, transaction) {
            Ok(kind) => Ok(kind),
            Err((id, value)) => Err(Asset { id, value: decimal_string(value) }),
        }
    }
}

} // verus!
