//! Account IDs of the ledger, checked by the ledger's own parser.
use vstd::prelude::*;

verus! {

pub open spec fn is_id_separator(c: char) -> bool {
    c == '-' || c == '_' || c == '.'
}

pub open spec fn is_id_char(c: char) -> bool {
    ('a' <= c && c <= 'z') || ('0' <= c && c <= '9') || is_id_separator(c)
}

/// A well-formed account ID: 2 to 64 lower-case letters, digits and
/// separators, with no separator at either end and none next to another.
pub open spec fn valid_account_id(s: Seq<char>) -> bool {
    &&& 2 <= s.len() <= 64
    &&& forall|i: int| 0 <= i < s.len() ==> is_id_char(#[trigger] s[i])
    &&& !is_id_separator(s[0])
    &&& !is_id_separator(s[s.len() - 1])
    &&& forall|i: int| 0 <= i < s.len() - 1 ==> !(is_id_separator(#[trigger] s[i]) && is_id_separator(s[i + 1]))
}

/// Relies on near_primitives' `AccountId::from_str` (near-account-id's
/// `validation::validate`): it accepts exactly the well-formed IDs.
#[verifier::external_body]
pub(crate) fn is_account_id(s: &str) -> (r: bool)
    ensures
        r == valid_account_id(s@),
{
    <near_primitives::types::AccountId as std::str::FromStr>::from_str(s).is_ok()
}

/// A well-formed account ID.
#[derive(Debug, PartialEq, Eq, Hash)]
pub struct AccountId {
    id: String,
}

impl View for AccountId {
    type V = Seq<char>;

    closed spec fn view(&self) -> Seq<char> {
        self.id@
    }
}

impl AccountId {
    #[verifier::type_invariant]
    spec fn well_formed(&self) -> bool {
        valid_account_id(self.id@)
    }

    /// The ID spelled by `s`, if `s` is well-formed.
    pub fn parse(s: &str) -> (r: Option<AccountId>)
        ensures
            r is Some <==> valid_account_id(s@),
            r matches Some(a) ==> a@ == s@,
    {
        if is_account_id(s) {
            Some(AccountId { id: String::from_str(s) })
        } else {
            None
        }
    }

    /// The text of the ID.
    pub fn as_str(&self) -> (r: &str)
        ensures
            r@ == self@,
            valid_account_id(r@),
    {
        proof {
            use_type_invariant(self);
        }
        self.id.as_str()
    }
}

/// The well-formed IDs among `s`, in their order.
pub open spec fn well_formed_ids(s: Seq<String>) -> Seq<String>
    decreases s.len(),
{
    if s.len() == 0 {
        s
    } else {
        let rest = well_formed_ids(s.drop_last());
        if valid_account_id(s.last()@) {
            rest.push(s.last())
        } else {
            rest
        }
    }
}

/// Keeps the well-formed account IDs of a list, in order, and drops the rest.
pub fn keep_well_formed_ids(ids: &Vec<String>) -> (r: Vec<String>)
    ensures
        r@ == well_formed_ids(ids@),
{
    let mut out: Vec<String> = Vec::new();
    let mut i: usize = 0;
    while i < ids.len()
        invariant
            i <= ids@.len(),
            out@ == well_formed_ids(ids@.subrange(0, i as int)),
        decreases ids@.len() - i,
    {
        assert(ids@.subrange(0, i + 1).drop_last() =~= ids@.subrange(0, i as int));
        if is_account_id(ids[i].as_str()) {
            out.push(ids[i].clone());
        }
        i = i + 1;
    }
    assert(ids@.subrange(0, i as int) =~= ids@);
    out
}

} // verus!
