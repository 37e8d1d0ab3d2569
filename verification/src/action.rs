//! What a handler asks of the host, and what each request does to the
//! ledger. A handler performs its requests on a copy of the ledger as it
//! plans them, so that every check sees the balances and buffers that the
//! host will hold at that point.

use vstd::prelude::*;
use vstd::slice::slice_to_vec;
use crate::address::{seed_bytes, Address};
use crate::ledger::{AccountState, Ledger, LedgerView};

verus! {

/// A request to the host.
#[derive(Debug, PartialEq, Eq)]
pub enum Action {
    /// Move lamports from one account to another.
    Transfer { from: Address, to: Address, lamports: u64 },
    /// Give an account a zeroed buffer of `space` bytes; the program signs
    /// for the account with the seeds.
    Allocate { account: Address, space: usize, signer_seeds: Vec<Vec<u8>> },
    /// Hand an account to an owning program; the program signs for the
    /// account with the seeds.
    Assign { account: Address, owner: Address, signer_seeds: Vec<Vec<u8>> },
    /// Change the size of the buffer of an account, keeping the bytes that
    /// fit and zeroing the bytes that are new.
    Resize { account: Address, new_size: usize },
    /// Replace the buffer of an account.
    Write { account: Address, data: Vec<u8> },
    /// Make an account the mint of a reward ledger without a freeze
    /// authority.
    InitializeMint { token_program: Address, mint: Address, mint_authority: Address, decimals: u8 },
    /// Create the account that binds a wallet to a mint, unless it exists.
    CreateAssociatedTokenAccount {
        payer: Address,
        wallet: Address,
        mint: Address,
        token_program: Address,
        associated_account: Address,
    },
    /// Mint tokens to an account; the program signs for the mint authority
    /// with the seeds.
    MintTo {
        token_program: Address,
        mint: Address,
        account: Address,
        mint_authority: Address,
        amount: u64,
        signer_seeds: Vec<Vec<u8>>,
    },
}

/// A request to the host as a mathematical value.
pub enum ActionView {
    Transfer { from: Address, to: Address, lamports: u64 },
    Allocate { account: Address, space: usize, signer_seeds: Seq<Seq<u8>> },
    Assign { account: Address, owner: Address, signer_seeds: Seq<Seq<u8>> },
    Resize { account: Address, new_size: usize },
    Write { account: Address, data: Seq<u8> },
    InitializeMint { token_program: Address, mint: Address, mint_authority: Address, decimals: u8 },
    CreateAssociatedTokenAccount {
        payer: Address,
        wallet: Address,
        mint: Address,
        token_program: Address,
        associated_account: Address,
    },
    MintTo {
        token_program: Address,
        mint: Address,
        account: Address,
        mint_authority: Address,
        amount: u64,
        signer_seeds: Seq<Seq<u8>>,
    },
}

impl View for Action {
    type V = ActionView;

    open spec fn view(&self) -> ActionView {
        match *self {
            Action::Transfer { from, to, lamports } => ActionView::Transfer { from, to, lamports },
            Action::Allocate { account, space, signer_seeds } => ActionView::Allocate {
                account,
                space,
                signer_seeds: seed_bytes(signer_seeds@),
            },
            Action::Assign { account, owner, signer_seeds } => ActionView::Assign {
                account,
                owner,
                signer_seeds: seed_bytes(signer_seeds@),
            },
            Action::Resize { account, new_size } => ActionView::Resize { account, new_size },
            Action::Write { account, data } => ActionView::Write { account, data: data@ },
            Action::InitializeMint { token_program, mint, mint_authority, decimals } => ActionView::InitializeMint {
                token_program,
                mint,
                mint_authority,
                decimals,
            },
            Action::CreateAssociatedTokenAccount { payer, wallet, mint, token_program, associated_account } =>
                ActionView::CreateAssociatedTokenAccount { payer, wallet, mint, token_program, associated_account },
            Action::MintTo { token_program, mint, account, mint_authority, amount, signer_seeds } =>
                ActionView::MintTo {
                    token_program,
                    mint,
                    account,
                    mint_authority,
                    amount,
                    signer_seeds: seed_bytes(signer_seeds@),
                },
        }
    }
}

/// The requests of a list as mathematical values.
pub open spec fn action_views(actions: Seq<Action>) -> Seq<ActionView> {
    Seq::new(actions.len(), |i: int| actions[i]@)
}

/// A buffer of `n` zero bytes.
pub open spec fn zeros(n: nat) -> Seq<u8> {
    Seq::new(n, |i: int| 0u8)
}

/// A buffer brought to `n` bytes: the bytes that fit stay, new bytes are
/// zero.
pub open spec fn resized(data: Seq<u8>, n: nat) -> Seq<u8> {
    Seq::new(n, |i: int| if i < data.len() { data[i] } else { 0u8 })
}

/// Whether the host can carry out a request on a ledger: a transfer needs
/// the balance at its source and room for it at its target.
pub open spec fn applicable(ledger: LedgerView, action: ActionView) -> bool {
    match action {
        ActionView::Transfer { from, to, lamports } => ledger[from].lamports >= lamports && (from == to
            || ledger[to].lamports + lamports <= u64::MAX),
        _ => true,
    }
}

/// The ledger after a request was carried out. Requests to the token
/// program leave the accounts of this model as they are: what that program
/// keeps in them is its own.
pub open spec fn apply(ledger: LedgerView, action: ActionView) -> LedgerView {
    match action {
        ActionView::Transfer { from, to, lamports } => {
            let debited = ledger.insert(
                from,
                AccountState { lamports: (ledger[from].lamports - lamports) as u64, ..ledger[from] },
            );
            debited.insert(to, AccountState { lamports: (debited[to].lamports + lamports) as u64, ..debited[to] })
        },
        ActionView::Allocate { account, space, signer_seeds } => ledger.insert(
            account,
            AccountState { data: zeros(space as nat), ..ledger[account] },
        ),
        ActionView::Assign { account, owner, signer_seeds } => ledger.insert(
            account,
            AccountState { owner, ..ledger[account] },
        ),
        ActionView::Resize { account, new_size } => ledger.insert(
            account,
            AccountState { data: resized(ledger[account].data, new_size as nat), ..ledger[account] },
        ),
        ActionView::Write { account, data } => ledger.insert(account, AccountState { data, ..ledger[account] }),
        _ => ledger,
    }
}

/// The ledger after a list of requests was carried out in order.
pub open spec fn apply_all(ledger: LedgerView, actions: Seq<ActionView>) -> LedgerView
    decreases actions.len(),
{
    if actions.len() == 0 {
        ledger
    } else {
        apply(apply_all(ledger, actions.drop_last()), actions.last())
    }
}

/// The run of one instruction: the requests planned so far and the ledger as
/// it stands after them.
#[derive(Debug)]
pub struct Execution {
    /// The ledger after the requests.
    pub ledger: Ledger,
    /// The requests, in the order in which the host has to carry them out.
    pub actions: Vec<Action>,
}

/// The run of one instruction as a mathematical value.
pub struct ExecutionView {
    pub ledger: LedgerView,
    pub actions: Seq<ActionView>,
}

impl View for Execution {
    type V = ExecutionView;

    open spec fn view(&self) -> ExecutionView {
        ExecutionView { ledger: self.ledger@, actions: action_views(self.actions@) }
    }
}

/// The run after one more request.
pub open spec fn perform(ex: ExecutionView, action: ActionView) -> ExecutionView {
    ExecutionView { ledger: apply(ex.ledger, action), actions: ex.actions.push(action) }
}

/// A buffer of `n` zero bytes.
fn zero_bytes(n: usize) -> (buffer: Vec<u8>)
    ensures
        buffer@ == zeros(n as nat),
{
    let mut buffer: Vec<u8> = Vec::new();
    let mut i: usize = 0;
    while i < n
        invariant
            i <= n,
            buffer@ == zeros(i as nat),
        decreases n - i,
    {
        buffer.push(0u8);
        assert(buffer@ =~= zeros((i + 1) as nat));
        i += 1;
    }
    buffer
}

/// A buffer brought to `n` bytes.
fn resize_bytes(data: &[u8], n: usize) -> (buffer: Vec<u8>)
    ensures
        buffer@ == resized(data@, n as nat),
{
    let mut buffer: Vec<u8> = Vec::new();
    let mut i: usize = 0;
    while i < n
        invariant
            i <= n,
            buffer@ == resized(data@, i as nat),
        decreases n - i,
    {
        buffer.push(if i < data.len() { data[i] } else { 0u8 });
        assert(buffer@ =~= resized(data@, (i + 1) as nat));
        i += 1;
    }
    buffer
}

impl Execution {
    /// The run that starts on a copy of a ledger, with no request yet.
    pub fn begin(ledger: &Ledger) -> (ex: Execution)
        ensures
            ex@.ledger == ledger@,
            ex@.actions == Seq::<ActionView>::empty(),
    {
        let ex = Execution { ledger: ledger.duplicate(), actions: Vec::new() };
        assert(ex@.actions =~= Seq::<ActionView>::empty());
        ex
    }

    /// Plans a request and carries it out on the ledger of the run.
    pub fn perform(&mut self, action: Action)
        requires
            applicable(old(self)@.ledger, action@),
        ensures
            final(self)@ == perform(old(self)@, action@),
    {
        match &action {
            Action::Transfer { from, to, lamports } => {
                let source = self.ledger.lamports(from);
                self.ledger.set_lamports(from, source - *lamports);
                let target = self.ledger.lamports(to);
                self.ledger.set_lamports(to, target + *lamports);
            },
            Action::Allocate { account, space, signer_seeds } => {
                self.ledger.set_data(account, zero_bytes(*space));
            },
            Action::Assign { account, owner, signer_seeds } => {
                self.ledger.set_owner(account, *owner);
            },
            Action::Resize { account, new_size } => {
                let current = self.ledger.data(account);
                self.ledger.set_data(account, resize_bytes(current.as_slice(), *new_size));
            },
            Action::Write { account, data } => {
                self.ledger.set_data(account, slice_to_vec(data.as_slice()));
            },
            _ => {},
        }
        self.actions.push(action);
        assert(action_views(self.actions@) =~= action_views(old(self).actions@).push(action@));
    }
}

/// The ledger of a run that started on `start` is what the requests of the
/// run make of `start`.
pub open spec fn consistent(start: LedgerView, ex: ExecutionView) -> bool {
    ex.ledger == apply_all(start, ex.actions)
}

/// One more request keeps a run consistent with the ledger it started on.
pub proof fn lemma_perform_consistent(start: LedgerView, ex: ExecutionView, action: ActionView)
    requires
        consistent(start, ex),
    ensures
        consistent(start, perform(ex, action)),
{
    assert(ex.actions.push(action).drop_last() =~= ex.actions);
}

} // verus!
