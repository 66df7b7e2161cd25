//! Decisions about franchises and their students, taken on answers from the
//! main DAO and from a franchise DAO.

use vstd::prelude::*;

use crate::config::list_contains;
use crate::types::Address;

verus! {

/// Which view of a franchise DAO finds a student: contracts are registered by
/// address, people by wallet.
#[derive(Clone, Copy, Debug, PartialEq, Eq, Structural)]
pub enum StudentLookup {
    /// `getStudentByAddress`
    ByAddress,
    /// `getStudentByWallet`
    ByWallet,
}

/// Helpers about franchises.
pub struct HelpersModule;

impl HelpersModule {
    /// Whether `address` is among `franchises`, the main DAO's list of
    /// franchises.
    pub fn is_franchise(franchises: &Vec<Address>, address: &Address) -> (r: bool)
        ensures
            r == franchises@.contains(*address),
    {
        list_contains(franchises, address)
    }

    /// The first step of `is_franchise_student`: which view of the franchise
    /// DAO to ask. The student is a franchise student exactly when that view
    /// finds one.
    pub fn student_lookup(student_is_contract: bool) -> (r: StudentLookup)
        ensures
            r == if student_is_contract {
                StudentLookup::ByAddress
            } else {
                StudentLookup::ByWallet
            },
    {
        if student_is_contract {
            StudentLookup::ByAddress
        } else {
            StudentLookup::ByWallet
        }
    }
}

} // verus!
