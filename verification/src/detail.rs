use vstd::prelude::*;

use crate::address::Address;
use crate::address::CallStackElement;
use crate::error::Error;

verus! {

/// The address a call-stack element acts as: session and stored-session
/// frames act as their account, stored contracts as their package.
pub open spec fn element_address(element: CallStackElement) -> Address {
    match element {
        CallStackElement::Session { account } => Address::Account(account),
        CallStackElement::StoredSession { account, .. } => Address::Account(account),
        CallStackElement::StoredContract { contract_package, .. } => Address::ContractPackage(
            contract_package,
        ),
    }
}

/// Returns the address a call-stack element acts as.
pub fn call_stack_element_to_address(element: &CallStackElement) -> (r: Address)
    ensures
        r == element_address(*element),
{
    match element {
        CallStackElement::Session { account } => Address::Account(*account),
        CallStackElement::StoredSession { account, .. } => Address::Account(*account),
        CallStackElement::StoredContract { contract_package, .. } => Address::ContractPackage(
            *contract_package,
        ),
    }
}

/// Returns the address of the immediate caller of the current execution:
/// the frame below the top of the call stack.  A stack with fewer than two
/// frames has no immediate caller.
pub fn get_immediate_caller_address(call_stack: &Vec<CallStackElement>) -> (r: Result<
    Address,
    Error,
>)
    ensures
        call_stack@.len() >= 2 ==> r == Ok::<Address, Error>(
            element_address(call_stack@[call_stack@.len() - 2]),
        ),
        call_stack@.len() < 2 ==> r == Err::<Address, Error>(Error::InvalidContext),
{
    if call_stack.len() >= 2 {
        let element = &call_stack[call_stack.len() - 2];
        Ok(call_stack_element_to_address(element))
    } else {
        Err(Error::InvalidContext)
    }
}

/// Returns the address on top of the call stack: the identity the current
/// execution itself acts as.  An empty stack has no caller at all.
pub fn get_caller_address(call_stack: &Vec<CallStackElement>) -> (r: Result<Address, Error>)
    ensures
        call_stack@.len() >= 1 ==> r == Ok::<Address, Error>(
            element_address(call_stack@[call_stack@.len() - 1]),
        ),
        call_stack@.len() == 0 ==> r == Err::<Address, Error>(Error::InvalidContext),
{
    if call_stack.len() >= 1 {
        let element = &call_stack[call_stack.len() - 1];
        Ok(call_stack_element_to_address(element))
    } else {
        Err(Error::InvalidContext)
    }
}

} // verus!
