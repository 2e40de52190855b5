//! The store of loaded schemas, addressable by account.
//!
//! A schema is checked when it is loaded: a chain of aliases or of base
//! structs that comes back to itself is refused. Whether every type that it
//! mentions exists is found out when the type is used.
use vstd::prelude::*;
use vstd::string::*;
use crate::abi::{Abi, AbiView};
use crate::decode::{decode, decode_spec};
use crate::encode::{encode, encode_params, encode_params_spec, encode_spec};
use crate::value::{Value, ValueView, item_views};
use crate::error::{CodecError, CodecErrorView};
use crate::resolve::{resolve_spec, struct_fields_spec};
use crate::text::{index_of, index_of_from, lemma_index_of, str_eq};

verus! {

/// The fault that loading finds among the first `n` aliases: the failure of
/// the first one whose chain of aliases comes back to itself.
pub open spec fn alias_fault(abi: AbiView, n: nat) -> Option<CodecErrorView>
    decreases n,
{
    if n == 0 || n > abi.types.len() {
        None
    } else {
        match alias_fault(abi, (n - 1) as nat) {
            Some(e) => Some(e),
            None => match resolve_spec(abi, abi.types[n - 1].new_type_name) {
                Err(CodecErrorView::SchemaParseError { ty }) => Some(
                    CodecErrorView::SchemaParseError { ty },
                ),
                _ => None,
            },
        }
    }
}

/// The fault that loading finds among the first `n` structs: the failure of
/// the first one whose chain of bases comes back to itself.
pub open spec fn base_fault(abi: AbiView, n: nat) -> Option<CodecErrorView>
    decreases n,
{
    if n == 0 || n > abi.structs.len() {
        None
    } else {
        match base_fault(abi, (n - 1) as nat) {
            Some(e) => Some(e),
            None => match struct_fields_spec(abi, abi.structs[n - 1]) {
                Err(CodecErrorView::SchemaParseError { ty }) => Some(
                    CodecErrorView::SchemaParseError { ty },
                ),
                _ => None,
            },
        }
    }
}

/// The fault for which a schema is refused when it is loaded, if it has one:
/// that of its aliases first, else that of its structs.
pub open spec fn schema_fault(abi: AbiView) -> Option<CodecErrorView> {
    match alias_fault(abi, abi.types.len()) {
        Some(e) => Some(e),
        None => base_fault(abi, abi.structs.len()),
    }
}

/// Once some aliases hold a fault, more aliases hold the same.
pub proof fn lemma_alias_fault_stays(abi: AbiView, m: nat, n: nat)
    requires
        m <= n <= abi.types.len(),
        alias_fault(abi, m).is_some(),
    ensures
        alias_fault(abi, n) == alias_fault(abi, m),
    decreases n - m,
{
    if m < n {
        lemma_alias_fault_stays(abi, m, (n - 1) as nat);
    }
}

/// Once some structs hold a fault, more structs hold the same.
pub proof fn lemma_base_fault_stays(abi: AbiView, m: nat, n: nat)
    requires
        m <= n <= abi.structs.len(),
        base_fault(abi, m).is_some(),
    ensures
        base_fault(abi, n) == base_fault(abi, m),
    decreases n - m,
{
    if m < n {
        lemma_base_fault_stays(abi, m, (n - 1) as nat);
    }
}

/// Checks a schema as loading does.
pub fn check_schema(abi: &Abi) -> (r: Result<(), CodecError>)
    ensures
        match r {
            Ok(_) => schema_fault(abi@).is_none(),
            Err(e) => schema_fault(abi@) == Some(e@),
        },
{
    let mut i: usize = 0;
    while i < abi.types.len()
        invariant
            0 <= i <= abi.types.len(),
            alias_fault(abi@, i as nat).is_none(),
        decreases abi.types.len() - i,
    {
        match abi.resolve_type(abi.types[i].new_type_name.as_str()) {
            Err(CodecError::SchemaParseError { ty }) => {
                proof {
                    lemma_alias_fault_stays(abi@, (i + 1) as nat, abi@.types.len());
                }
                return Err(CodecError::SchemaParseError { ty });
            },
            _ => {},
        }
        i += 1;
    }
    let mut j: usize = 0;
    while j < abi.structs.len()
        invariant
            0 <= j <= abi.structs.len(),
            alias_fault(abi@, abi@.types.len()).is_none(),
            base_fault(abi@, j as nat).is_none(),
        decreases abi.structs.len() - j,
    {
        match abi.struct_fields(&abi.structs[j]) {
            Err(CodecError::SchemaParseError { ty }) => {
                proof {
                    lemma_base_fault_stays(abi@, (j + 1) as nat, abi@.structs.len());
                }
                return Err(CodecError::SchemaParseError { ty });
            },
            _ => {},
        }
        j += 1;
    }
    Ok(())
}

/// A failure of the codec, with the account and the type or action that were
/// asked for.
#[derive(Debug, PartialEq, Eq)]
pub struct CodecFailure {
    pub account: String,
    pub requested: String,
    pub error: CodecError,
}

/// The mathematical model of [`CodecFailure`].
pub ghost struct CodecFailureView {
    pub account: Seq<char>,
    pub requested: Seq<char>,
    pub error: CodecErrorView,
}

impl View for CodecFailure {
    type V = CodecFailureView;

    open spec fn view(&self) -> CodecFailureView {
        CodecFailureView { account: self.account@, requested: self.requested@, error: self.error@ }
    }
}

/// What a codec operation on the schema of `account` gives: without a
/// schema a `SchemaNotFound`, else what `op` gives for it; each failure with
/// the account and with what was asked for.
pub open spec fn with_schema<T>(
    store: Map<Seq<char>, AbiView>,
    account: Seq<char>,
    requested: Seq<char>,
    op: spec_fn(AbiView) -> Result<T, CodecErrorView>,
) -> Result<T, CodecFailureView> {
    if !store.contains_key(account) {
        Err(
            CodecFailureView {
                account,
                requested,
                error: CodecErrorView::SchemaNotFound { account },
            },
        )
    } else {
        match op(store[account]) {
            Ok(x) => Ok(x),
            Err(error) => Err(CodecFailureView { account, requested, error }),
        }
    }
}

/// The loaded schemas, each under the account that it was loaded for.
pub struct AbiStore {
    entries: Vec<(String, Abi)>,
}

/// The accounts of the entries, in order.
pub open spec fn accounts_of(entries: Seq<(String, Abi)>) -> Seq<Seq<char>> {
    entries.map_values(|e: (String, Abi)| e.0@)
}

impl View for AbiStore {
    type V = Map<Seq<char>, AbiView>;

    closed spec fn view(&self) -> Map<Seq<char>, AbiView> {
        Map::new(
            |account: Seq<char>| index_of(accounts_of(self.entries@), account).is_some(),
            |account: Seq<char>|
                self.entries@[index_of(accounts_of(self.entries@), account).unwrap()].1@,
        )
    }
}

impl AbiStore {
    /// No account has two entries.
    #[verifier::type_invariant]
    spec fn wf(&self) -> bool {
        let accounts = accounts_of(self.entries@);
        forall|i: int, j: int|
            0 <= i < accounts.len() && 0 <= j < accounts.len() && i != j ==> accounts[i]
                != accounts[j]
    }

    /// A store without schemas.
    pub fn new() -> (r: Self)
        ensures
            r@ == Map::<Seq<char>, AbiView>::empty(),
    {
        let r = AbiStore { entries: Vec::new() };
        assert(r@ =~= Map::<Seq<char>, AbiView>::empty());
        r
    }

    /// Position of the entry of `account`.
    fn find(&self, account: &str) -> (r: Option<usize>)
        ensures
            match r {
                Some(i) => i < self.entries@.len() && index_of(
                    accounts_of(self.entries@),
                    account@,
                ) == Some(i as int),
                None => index_of(accounts_of(self.entries@), account@).is_none(),
            },
    {
        let ghost keys = accounts_of(self.entries@);
        let mut i: usize = 0;
        while i < self.entries.len()
            invariant
                0 <= i <= self.entries.len(),
                keys == accounts_of(self.entries@),
                index_of(keys, account@) == index_of_from(keys, account@, i as int),
            decreases self.entries.len() - i,
        {
            if str_eq(self.entries[i].0.as_str(), account) {
                return Some(i);
            }
            i += 1;
        }
        None
    }
}

/// Loads `abi` for `account`, in place of the schema that the account had
/// before, if any. A schema with a fault is refused and the store stays
/// as it was.
pub fn load_abi(store: &mut AbiStore, account: &str, abi: Abi) -> (r: Result<(), CodecError>)
    ensures
        match r {
            Ok(_) => schema_fault(abi@).is_none() && final(store)@ == old(store)@.insert(
                account@,
                abi@,
            ),
            Err(e) => schema_fault(abi@) == Some(e@) && final(store)@ == old(store)@,
        },
{
    match check_schema(&abi) {
        Err(e) => {
            return Err(e);
        },
        Ok(_) => {},
    }
    proof {
        use_type_invariant(&*store);
    }
    let ghost before = accounts_of(store.entries@);
    let found: Option<usize> = store.find(account);
    let mut taken: AbiStore = AbiStore::new();
    core::mem::swap(store, &mut taken);
    let mut entries: Vec<(String, Abi)> = taken.entries;
    entries.push((account.to_owned(), abi));
    match found {
        Some(i) => {
            let replaced: (String, Abi) = entries.swap_remove(i);
            let ghost after = accounts_of(entries@);
            proof {
                lemma_index_of(before, account@);
                assert(after =~= before);
            }
            *store = AbiStore { entries };
            proof {
                lemma_index_of(before, account@);
                assert(after =~= before);
                assert forall|k: Seq<char>|
                    #![auto]
                    store@.dom().contains(k) == old(store)@.insert(
                        account@,
                        abi@,
                    ).dom().contains(k) by {
                    lemma_index_of(before, k);
                    lemma_index_of(before, account@);
                }
                assert forall|k: Seq<char>| #![auto] store@.dom().contains(k) implies store@[k]
                    == old(store)@.insert(account@, abi@)[k] by {
                    lemma_index_of(before, k);
                    lemma_index_of(before, account@);
                }
                assert(store@ =~= old(store)@.insert(account@, abi@));
            }
        },
        None => {
            let ghost after = accounts_of(entries@);
            proof {
                assert(after =~= before.push(account@));
                lemma_index_of(before, account@);
                assert forall|i: int, j: int|
                    0 <= i < after.len() && 0 <= j < after.len() && i != j implies after[i]
                    != after[j] by {
                    if i < before.len() {
                        assert(after[i] == before[i]);
                    }
                    if j < before.len() {
                        assert(after[j] == before[j]);
                    }
                }
            }
            *store = AbiStore { entries };
            proof {
                assert(after[before.len() as int] == account@);
                assert forall|k: Seq<char>|
                    #![auto]
                    store@.dom().contains(k) == old(store)@.insert(
                        account@,
                        abi@,
                    ).dom().contains(k) by {
                    lemma_index_of(before, k);
                    lemma_index_of(after, k);
                    if index_of(before, k).is_some() {
                        let p = index_of(before, k).unwrap();
                        assert(after[p] == k);
                    }
                    if index_of(after, k).is_some() && k != account@ {
                        let q = index_of(after, k).unwrap();
                        assert(before[q] == k);
                    }
                }
                assert forall|k: Seq<char>| #![auto] store@.dom().contains(k) implies store@[k]
                    == old(store)@.insert(account@, abi@)[k] by {
                    lemma_index_of(before, k);
                    lemma_index_of(after, k);
                    if k != account@ {
                        let q = index_of(after, k).unwrap();
                        assert(before[q] == k);
                        let p = index_of(before, k).unwrap();
                        assert(after[p] == k);
                    }
                }
                assert(store@ =~= old(store)@.insert(account@, abi@));
            }
        },
    }
    Ok(())
}

/// Removes the schema of `account`, if one is loaded.
pub fn unload_abi(store: &mut AbiStore, account: &str)
    ensures
        final(store)@ == old(store)@.remove(account@),
{
    proof {
        use_type_invariant(&*store);
    }
    let ghost before = accounts_of(store.entries@);
    match store.find(account) {
        Some(i) => {
            let mut taken: AbiStore = AbiStore::new();
            core::mem::swap(store, &mut taken);
            let mut entries: Vec<(String, Abi)> = taken.entries;
            let removed: (String, Abi) = entries.remove(i);
            let ghost after = accounts_of(entries@);
            proof {
                assert(after =~= before.remove(i as int));
                assert forall|p: int, q: int|
                    0 <= p < after.len() && 0 <= q < after.len() && p != q implies after[p]
                    != after[q] by {
                    let pp = if p < i { p } else { p + 1 };
                    let qq = if q < i { q } else { q + 1 };
                    assert(after[p] == before[pp]);
                    assert(after[q] == before[qq]);
                }
            }
            *store = AbiStore { entries };
            proof {
                lemma_index_of(before, account@);
                assert forall|k: Seq<char>|
                    #![auto]
                    store@.dom().contains(k) == old(store)@.remove(account@).dom().contains(
                        k,
                    ) by {
                    lemma_index_of(before, k);
                    lemma_index_of(after, k);
                    if index_of(before, k).is_some() && k != account@ {
                        let p = index_of(before, k).unwrap();
                        let q = if p < i { p } else { p - 1 };
                        assert(after[q] == k);
                    }
                    if index_of(after, k).is_some() {
                        let q = index_of(after, k).unwrap();
                        let p = if q < i { q } else { q + 1 };
                        assert(before[p] == k);
                    }
                }
                assert forall|k: Seq<char>| #![auto] store@.dom().contains(k) implies store@[k]
                    == old(store)@.remove(account@)[k] by {
                    lemma_index_of(before, k);
                    lemma_index_of(after, k);
                    let q = index_of(after, k).unwrap();
                    let p = if q < i { q } else { q + 1 };
                    assert(before[p] == k);
                }
                assert(store@ =~= old(store)@.remove(account@));
            }
        },
        None => {
            proof {
                assert(store@ =~= old(store)@.remove(account@));
            }
        },
    }
}

/// A copy of the schema of `account`. Without one the result is a
/// `SchemaNotFound`.
pub fn get_abi(store: &AbiStore, account: &str) -> (r: Result<Abi, CodecError>)
    ensures
        match r {
            Ok(abi) => store@.contains_key(account@) && abi@ == store@[account@],
            Err(e) => !store@.contains_key(account@) && e@ == (CodecErrorView::SchemaNotFound {
                account: account@,
            }),
        },
{
    match store.find(account) {
        Some(i) => Ok(store.entries[i].1.clone()),
        None => Err(CodecError::SchemaNotFound { account: account.to_owned() }),
    }
}

impl AbiStore {
    /// Encodes `value` as a value of the type that `ty` names in the schema
    /// of `account`.
    pub fn encode(&self, account: &str, ty: &str, value: &Value) -> (r: Result<
        Vec<u8>,
        CodecFailure,
    >)
        ensures
            match r {
                Ok(bytes) => with_schema(
                    self@,
                    account@,
                    ty@,
                    |abi: AbiView| encode_spec(abi, ty@, value@),
                ) == Ok::<Seq<u8>, CodecFailureView>(bytes@),
                Err(f) => with_schema(
                    self@,
                    account@,
                    ty@,
                    |abi: AbiView| encode_spec(abi, ty@, value@),
                ) == Err::<Seq<u8>, CodecFailureView>(f@),
            },
    {
        let outcome: Result<Vec<u8>, CodecError> = match get_abi(self, account) {
            Err(e) => Err(e),
            Ok(abi) => encode(&abi, ty, value),
        };
        match outcome {
            Ok(bytes) => Ok(bytes),
            Err(error) => Err(
                CodecFailure { account: account.to_owned(), requested: ty.to_owned(), error },
            ),
        }
    }

    /// Decodes the value of the type that `ty` names in the schema of
    /// `account` at the start of `data`.
    pub fn decode(&self, account: &str, ty: &str, data: &[u8]) -> (r: Result<Value, CodecFailure>)
        ensures
            match r {
                Ok(value) => with_schema(
                    self@,
                    account@,
                    ty@,
                    |abi: AbiView| decode_spec(abi, ty@, data@),
                ) == Ok::<ValueView, CodecFailureView>(value@),
                Err(f) => with_schema(
                    self@,
                    account@,
                    ty@,
                    |abi: AbiView| decode_spec(abi, ty@, data@),
                ) == Err::<ValueView, CodecFailureView>(f@),
            },
    {
        let outcome: Result<Value, CodecError> = match get_abi(self, account) {
            Err(e) => Err(e),
            Ok(abi) => decode(&abi, ty, data),
        };
        match outcome {
            Ok(value) => Ok(value),
            Err(error) => Err(
                CodecFailure { account: account.to_owned(), requested: ty.to_owned(), error },
            ),
        }
    }

    /// Encodes the parameters of the action `action_name` of `account_name`,
    /// in the order of the fields of the struct of that name.
    pub fn encode_params(&self, account_name: &str, action_name: &str, params: &Vec<Value>) -> (r:
        Result<Vec<u8>, CodecFailure>)
        ensures
            match r {
                Ok(bytes) => with_schema(
                    self@,
                    account_name@,
                    action_name@,
                    |abi: AbiView| encode_params_spec(abi, action_name@, item_views(params@)),
                ) == Ok::<Seq<u8>, CodecFailureView>(bytes@),
                Err(f) => with_schema(
                    self@,
                    account_name@,
                    action_name@,
                    |abi: AbiView| encode_params_spec(abi, action_name@, item_views(params@)),
                ) == Err::<Seq<u8>, CodecFailureView>(f@),
            },
    {
        let outcome: Result<Vec<u8>, CodecError> = match get_abi(self, account_name) {
            Err(e) => Err(e),
            Ok(abi) => encode_params(&abi, action_name, params),
        };
        match outcome {
            Ok(bytes) => Ok(bytes),
            Err(error) => Err(
                CodecFailure {
                    account: account_name.to_owned(),
                    requested: action_name.to_owned(),
                    error,
                },
            ),
        }
    }
}

} // verus!
