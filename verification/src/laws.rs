//! What holds of the ledger whatever is asked of it, proved from the step
//! functions that specify the operations.

use crate::address::spec_credential_account_address;
use crate::error::CredentialError;
use crate::model::{
    derives, initialize_step, initializations, issuances, issuances_to, issue, issue_step, run,
    step, InitializeModel, IssueModel, LedgerModel, Request,
};
use vstd::prelude::*;

verus! {

/// Every operation keeps a valid ledger valid, whether it succeeds or not.
pub proof fn law_step_keeps_valid(ledger: LedgerModel, request: Request)
    requires
        ledger.valid(),
    ensures
        step(ledger, request).0.valid(),
{
}

/// Every sequence of operations keeps a valid ledger valid.
pub proof fn law_run_keeps_valid(ledger: LedgerModel, requests: Seq<Request>)
    requires
        ledger.valid(),
    ensures
        run(ledger, requests).valid(),
    decreases requests.len(),
{
    if requests.len() > 0 {
        law_run_keeps_valid(ledger, requests.drop_last());
        law_step_keeps_valid(run(ledger, requests.drop_last()), requests.last());
    }
}

/// Once the registry exists, no operation removes it or changes its
/// precision, its flag or its authorities; only its supply can change.
pub proof fn law_registry_is_fixed(ledger: LedgerModel, requests: Seq<Request>)
    requires
        ledger.registry is Some,
    ensures
        run(ledger, requests).mint_address == ledger.mint_address,
        run(ledger, requests).registry matches Some(after) && {
            let before = ledger.registry->0;
            &&& after.decimals == before.decimals
            &&& after.non_transferable == before.non_transferable
            &&& after.mint_authority == before.mint_authority
            &&& after.freeze_authority == before.freeze_authority
            &&& after.supply >= before.supply
        },
    decreases requests.len(),
{
    if requests.len() > 0 {
        law_registry_is_fixed(ledger, requests.drop_last());
    }
}

/// The addresses and services of a ledger never change.
pub proof fn law_configuration_is_fixed(ledger: LedgerModel, requests: Seq<Request>)
    ensures
        run(ledger, requests).mint_address == ledger.mint_address,
        run(ledger, requests).token_program == ledger.token_program,
        run(ledger, requests).associated_token_program == ledger.associated_token_program,
        run(ledger, requests).storage_price == ledger.storage_price,
    decreases requests.len(),
{
    if requests.len() > 0 {
        law_configuration_is_fixed(ledger, requests.drop_last());
    }
}

/// After initialization the registry has no decimals and its flag is set,
/// whatever sequence of operations follows.
pub proof fn law_precision_and_flag(
    ledger: LedgerModel,
    request: InitializeModel,
    requests: Seq<Request>,
)
    requires
        initialize_step(ledger, request).1 is Ok,
    ensures
        run(initialize_step(ledger, request).0, requests).registry matches Some(registry)
            && registry.decimals == 0 && registry.non_transferable,
{
    law_registry_is_fixed(initialize_step(ledger, request).0, requests);
}

/// In any sequence of operations at most one initialization succeeds, and
/// none does on a ledger whose registry exists already.
pub proof fn law_single_initialization(ledger: LedgerModel, requests: Seq<Request>)
    ensures
        initializations(ledger, requests) <= 1,
        ledger.registry is Some ==> initializations(ledger, requests) == 0,
        initializations(ledger, requests) == 1 ==> run(ledger, requests).registry is Some,
        ledger.registry is None && initializations(ledger, requests) == 0 ==> run(
            ledger,
            requests,
        ).registry is None,
    decreases requests.len(),
{
    if requests.len() > 0 {
        let before = requests.drop_last();
        law_single_initialization(ledger, before);
        if ledger.registry is Some {
            law_registry_is_fixed(ledger, before);
        }
    }
}

/// After a successful initialization every later initialization fails with
/// `AlreadyInitialized` and changes nothing, whatever it names and whatever
/// happened in between.
pub proof fn law_second_initialization_fails(
    ledger: LedgerModel,
    first: InitializeModel,
    between: Seq<Request>,
    second: InitializeModel,
)
    requires
        initialize_step(ledger, first).1 is Ok,
    ensures
        first.mint == ledger.mint_address,
        initialize_step(run(initialize_step(ledger, first).0, between), second) == (
            run(initialize_step(ledger, first).0, between),
            Err::<(), CredentialError>(CredentialError::AlreadyInitialized),
        ),
{
    law_registry_is_fixed(initialize_step(ledger, first).0, between);
}

/// An issuance asked by anyone but the registry's mint authority fails with
/// `Unauthorized` and changes nothing, whatever else the request holds.
pub proof fn law_authority_gate(ledger: LedgerModel, request: IssueModel, derived: Option<Seq<u8>>)
    requires
        ledger.registry matches Some(registry) && request.authority != registry.mint_authority,
        request.mint == ledger.mint_address,
    ensures
        issue_step(ledger, request, derived) == (
            ledger,
            Err::<(), CredentialError>(CredentialError::Unauthorized),
        ),
{
}

/// A failed operation changes nothing.
pub proof fn law_failure_changes_nothing(ledger: LedgerModel, request: Request)
    requires
        step(ledger, request).1 is Err,
    ensures
        step(ledger, request).0 == ledger,
{
}

/// A successful issuance adds exactly one unit to the account at the derived
/// address and to the supply, and leaves every other account as it was.
pub proof fn law_issuance_credits_one(
    ledger: LedgerModel,
    request: IssueModel,
    derived: Option<Seq<u8>>,
)
    requires
        issue_step(ledger, request, derived).1 is Ok,
    ensures
        derived matches Some(target) && {
            let next = issue_step(ledger, request, derived).0;
            &&& next.balance(target) == ledger.balance(target) + 1
            &&& next.supply() == ledger.supply() + 1
            &&& next.accounts[target].owner == request.recipient
            &&& forall|other: Seq<u8>|
                other != target ==> next.balance(other) == ledger.balance(other)
                    && next.accounts.dom().contains(other) == ledger.accounts.dom().contains(other)
        },
{
}

/// After any sequence of operations, an account holds what it held before
/// plus one unit for each successful issuance to it, and the supply has grown
/// by one unit for each successful issuance.
pub proof fn law_balances_count_issuances(
    ledger: LedgerModel,
    requests: Seq<Request>,
    address: Seq<u8>,
)
    ensures
        run(ledger, requests).balance(address) == ledger.balance(address) + issuances_to(
            ledger,
            requests,
            address,
        ),
        run(ledger, requests).supply() == ledger.supply() + issuances(ledger, requests),
    decreases requests.len(),
{
    if requests.len() > 0 {
        let before = requests.drop_last();
        law_balances_count_issuances(ledger, before, address);
    }
}

/// An account, once made, is never removed or bound anew: after any sequence
/// of operations it is still there, with the same owner and mint, and holds
/// no less than before.
pub proof fn law_accounts_persist(ledger: LedgerModel, requests: Seq<Request>, address: Seq<u8>)
    requires
        ledger.valid(),
        ledger.accounts.dom().contains(address),
    ensures
        run(ledger, requests).accounts.dom().contains(address),
        run(ledger, requests).accounts[address].owner == ledger.accounts[address].owner,
        run(ledger, requests).accounts[address].mint == ledger.accounts[address].mint,
        run(ledger, requests).accounts[address].balance >= ledger.accounts[address].balance,
    decreases requests.len(),
{
    if requests.len() > 0 {
        let before = requests.drop_last();
        law_accounts_persist(ledger, before, address);
        law_run_keeps_valid(ledger, before);
        law_configuration_is_fixed(ledger, before);
    }
}

/// Issuances to different holding accounts do not depend on each other: in
/// either order each gets the same answer, and the ledger ends the same.
pub proof fn law_disjoint_issuances_commute(
    ledger: LedgerModel,
    one: IssueModel,
    one_derived: Option<Seq<u8>>,
    other: IssueModel,
    other_derived: Option<Seq<u8>>,
)
    requires
        one_derived is Some && other_derived is Some ==> one_derived != other_derived,
    ensures
        ({
            let (after_one, answer_one) = issue_step(ledger, one, one_derived);
            let (after_other, answer_other) = issue_step(ledger, other, other_derived);
            &&& issue_step(after_other, one, one_derived).1 == answer_one
            &&& issue_step(after_one, other, other_derived).1 == answer_other
            &&& issue_step(after_other, one, one_derived).0 == issue_step(
                after_one,
                other,
                other_derived,
            ).0
        }),
{
    let one_then_other = issue_step(issue_step(ledger, one, one_derived).0, other, other_derived).0;
    let other_then_one = issue_step(issue_step(ledger, other, other_derived).0, one, one_derived).0;
    assert(one_then_other.accounts =~= other_then_one.accounts);
}

/// Where every issuance derives the address of the holding account from the
/// recipient and the mint, every account stands at the address derived for
/// its owner, so a recipient never has a second account.
pub proof fn law_one_account_per_recipient(ledger: LedgerModel, requests: Seq<Request>)
    requires
        ledger.accounts_derived(),
        forall|i: int| 0 <= i < requests.len() ==> derives(ledger, #[trigger] requests[i]),
    ensures
        run(ledger, requests).accounts_derived(),
        forall|one: Seq<u8>, other: Seq<u8>|
            #![trigger
                run(ledger, requests).accounts.dom().contains(one),
                run(ledger, requests).accounts.dom().contains(other),
            ]
            run(ledger, requests).accounts.dom().contains(one) && run(
                ledger,
                requests,
            ).accounts.dom().contains(other) && run(ledger, requests).accounts[one].owner == run(
                ledger,
                requests,
            ).accounts[other].owner ==> one == other,
    decreases requests.len(),
{
    if requests.len() > 0 {
        let before = requests.drop_last();
        law_one_account_per_recipient(ledger, before);
        law_configuration_is_fixed(ledger, before);
    }
}

/// The same issuance asked `count` times in a row.
pub open spec fn repeated(request: IssueModel, derived: Option<Seq<u8>>, count: nat) -> Seq<
    Request,
> {
    Seq::new(count, |i: int| Request::Issue(request, derived))
}

/// If an issuance succeeds, then asking it again succeeds every time, and
/// after `count` calls in a row the recipient's account holds `count` units
/// more than before, as does the supply. For a recipient without an account
/// the balance after `count` calls is `count`.
pub proof fn law_repeated_issuance(
    ledger: LedgerModel,
    request: IssueModel,
    derived: Option<Seq<u8>>,
    count: nat,
)
    requires
        issue_step(ledger, request, derived).1 is Ok,
    ensures
        issue_step(run(ledger, repeated(request, derived, count)), request, derived).1 is Ok,
        run(ledger, repeated(request, derived, count)).balance(derived->0) == ledger.balance(
            derived->0,
        ) + count,
        run(ledger, repeated(request, derived, count)).supply() == ledger.supply() + count,
        !ledger.accounts.dom().contains(derived->0) ==> run(
            ledger,
            repeated(request, derived, count),
        ).balance(derived->0) == count,
    decreases count,
{
    if count > 0 {
        let shorter = (count - 1) as nat;
        law_repeated_issuance(ledger, request, derived, shorter);
        let all = repeated(request, derived, count);
        assert(all.drop_last() == repeated(request, derived, shorter));
        let middle = run(ledger, repeated(request, derived, shorter));
        law_issuance_credits_one(middle, request, derived);
    }
}

/// The first issuance to a recipient without an account makes exactly one
/// account, at the address derived for the recipient and bound to the
/// recipient; the same request asked again succeeds, derives the same
/// address, and reuses that account instead of making another.
pub proof fn law_account_is_made_once(ledger: LedgerModel, request: IssueModel)
    requires
        ledger.valid(),
        issue(ledger, request).1 is Ok,
        !ledger.accounts.dom().contains(
            spec_credential_account_address(
                request.recipient,
                request.mint,
                ledger.token_program,
                ledger.associated_token_program,
            )->0,
        ),
    ensures
        ({
            let address = spec_credential_account_address(
                request.recipient,
                request.mint,
                ledger.token_program,
                ledger.associated_token_program,
            )->0;
            let once = issue(ledger, request).0;
            let twice = issue(once, request).0;
            &&& once.accounts.dom() == ledger.accounts.dom().insert(address)
            &&& once.accounts.dom().len() == ledger.accounts.dom().len() + 1
            &&& once.accounts[address].owner == request.recipient
            &&& once.accounts[address].mint == ledger.mint_address
            &&& once.accounts[address].balance == 1
            &&& issue(once, request).1 is Ok
            &&& twice.accounts.dom() == once.accounts.dom()
            &&& twice.accounts[address].owner == request.recipient
            &&& twice.accounts[address].balance == 2
        }),
{
}

} // verus!
