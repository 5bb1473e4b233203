//! The credential record handed to the system keychain.  The keychain
//! itself (the OS service and its entries) lives outside this crate; what
//! is verified here is the record and its canonical JSON text.

use vstd::prelude::*;

use crate::credjson::{cred_json, opt_str_view, spec_cred_json};

verus! {

/// Sensitive SSH credentials stored in the system keychain.
#[derive(Debug, PartialEq)]
pub struct SensitiveData {
    /// SSH password for password-based authentication.
    pub password: Option<String>,
    /// Passphrase for encrypted private keys.
    pub key_passphrase: Option<String>,
}

impl SensitiveData {
    /// The record's mathematical content: both members as character
    /// sequences.
    pub open spec fn model(self) -> (Option<Seq<char>>, Option<Seq<char>>) {
        (opt_str_view(self.password), opt_str_view(self.key_passphrase))
    }

    /// The canonical JSON text of the record.
    pub fn to_json(&self) -> (r: String)
        ensures
            r@ == spec_cred_json(self.model().0, self.model().1),
    {
        cred_json(&self.password, &self.key_passphrase)
    }
}

impl Clone for SensitiveData {
    fn clone(&self) -> (r: Self)
        ensures
            r == *self,
    {
        let password = match &self.password {
            Some(p) => Some(p.clone()),
            None => None,
        };
        let key_passphrase = match &self.key_passphrase {
            Some(p) => Some(p.clone()),
            None => None,
        };
        SensitiveData { password, key_passphrase }
    }
}

} // verus!
