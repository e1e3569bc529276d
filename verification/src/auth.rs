//! The contract's instance storage: the admin list, the provider whitelist and the
//! pause flag, with the helpers that read and change them.

use vstd::prelude::*;
use crate::bytes::bytes_eq;
use crate::keymap::KeyMap;
use crate::types::{Address, Symbol, bytes_list, copy_bytes_list};
use crate::bytes::copy_bytes;

verus! {

/// The contract's instance storage.
pub struct InstanceStorage {
    /// The authorized admin list, once one has been stored.
    pub admins: Option<Vec<Address>>,
    /// The base currency pairs recorded at initialization.
    pub base_currency_pairs: Option<Vec<Symbol>>,
    /// Whitelisted providers, each stored with the flag `true`.
    pub providers: KeyMap<bool>,
    /// Whether the contract is paused (false when never set).
    pub paused: bool,
}

/// The mathematical value of [`InstanceStorage`].
pub struct InstanceView {
    pub admins: Option<Seq<Seq<u8>>>,
    pub base_currency_pairs: Option<Seq<Seq<u8>>>,
    pub providers: Map<Seq<u8>, bool>,
    pub paused: bool,
}

/// The views of an optional list of byte strings.
pub open spec fn opt_bytes_list(v: Option<Vec<Vec<u8>>>) -> Option<Seq<Seq<u8>>> {
    match v {
        Some(l) => Some(bytes_list(l@)),
        None => None,
    }
}

impl View for InstanceStorage {
    type V = InstanceView;

    open spec fn view(&self) -> InstanceView {
        InstanceView {
            admins: opt_bytes_list(self.admins),
            base_currency_pairs: opt_bytes_list(self.base_currency_pairs),
            providers: self.providers@,
            paused: self.paused,
        }
    }
}

impl InstanceStorage {
    /// Instance storage of a freshly deployed contract: nothing stored.
    pub fn new() -> (r: Self)
        ensures
            r.wf(),
            r@.admins is None,
            r@.base_currency_pairs is None,
            r@.providers == Map::<Seq<u8>, bool>::empty(),
            !r@.paused,
    {
        InstanceStorage {
            admins: None,
            base_currency_pairs: None,
            providers: KeyMap::new(),
            paused: false,
        }
    }

    /// The provider whitelist is well formed.
    pub open spec fn wf(&self) -> bool {
        self.providers.wf()
    }
}

/// `caller` is on the stored admin list.
pub open spec fn authorized(s: InstanceView, caller: Seq<u8>) -> bool {
    s.admins matches Some(l) && l.contains(caller)
}

/// `addr` is a whitelisted provider.
pub open spec fn provider(s: InstanceView, addr: Seq<u8>) -> bool {
    s.providers.contains_key(addr) && s.providers[addr]
}

/// Stores `admins` as the admin list.
pub fn _set_admin(store: &mut InstanceStorage, admins: &Vec<Address>)
    ensures
        final(store)@ == (InstanceView { admins: Some(bytes_list(admins@)), ..old(store)@ }),
        final(store).wf() == old(store).wf(),
{
    store.admins = Some(copy_bytes_list(admins));
}

/// The stored admin list.
pub fn _get_admin(store: &InstanceStorage) -> (r: &Vec<Address>)
    requires
        store@.admins is Some,
    ensures
        store@.admins == Some(bytes_list(r@)),
{
    match &store.admins {
        Some(l) => l,
        None => vstd::pervasive::unreached(),
    }
}

/// Whether an admin list has been stored.
pub fn _has_admin(store: &InstanceStorage) -> (r: bool)
    ensures
        r == store@.admins is Some,
{
    store.admins.is_some()
}

/// Whether `l` holds `x`.
fn list_contains(l: &Vec<Address>, x: &Address) -> (r: bool)
    ensures
        r == bytes_list(l@).contains(x@),
{
    let mut i: usize = 0;
    while i < l.len()
        invariant
            i <= l.len(),
            forall|j: int| 0 <= j < i ==> #[trigger] l@[j]@ != x@,
        decreases l.len() - i,
    {
        if bytes_eq(&l[i], x) {
            assert(bytes_list(l@)[i as int] == x@);
            return true;
        }
        i = i + 1;
    }
    proof {
        if bytes_list(l@).contains(x@) {
            let j = choose|j: int| 0 <= j < l.len() && bytes_list(l@)[j] == x@;
            assert(l@[j]@ == x@);
        }
    }
    false
}

/// Check if a caller is in the authorized admin list.
pub fn _is_authorized(store: &InstanceStorage, caller: &Address) -> (r: bool)
    ensures
        r == authorized(store@, caller@),
{
    match &store.admins {
        Some(l) => list_contains(l, caller),
        None => false,
    }
}

/// Add an address to the authorized admin list, unless it is already there.
pub fn _add_authorized(store: &mut InstanceStorage, new_admin: &Address)
    requires
        old(store)@.admins is Some,
    ensures
        ({
            let l = old(store)@.admins->0;
            final(store)@ == (InstanceView {
                admins: Some(if l.contains(new_admin@) { l } else { l.push(new_admin@) }),
                ..old(store)@
            })
        }),
        final(store).wf() == old(store).wf(),
{
    let mut admins = copy_bytes_list(_get_admin(store));
    if !list_contains(&admins, new_admin) {
        let ghost before = admins@;
        admins.push(copy_bytes(new_admin));
        assert(bytes_list(admins@) =~= bytes_list(before).push(new_admin@));
        _set_admin(store, &admins);
    }
}

/// Remove every occurrence of an address from the authorized admin list.
pub fn _remove_authorized(store: &mut InstanceStorage, admin_to_remove: &Address)
    requires
        old(store)@.admins is Some,
    ensures
        final(store)@ == (InstanceView {
            admins: Some(old(store)@.admins->0.filter(|a: Seq<u8>| a != admin_to_remove@)),
            ..old(store)@
        }),
        final(store).wf() == old(store).wf(),
{
    let admins = _get_admin(store);
    let ghost pred = |a: Seq<u8>| a != admin_to_remove@;
    let mut filtered: Vec<Address> = Vec::new();
    let mut i: usize = 0;
    while i < admins.len()
        invariant
            i <= admins.len(),
            pred == (|a: Seq<u8>| a != admin_to_remove@),
            bytes_list(filtered@) == bytes_list(admins@).take(i as int).filter(pred),
        decreases admins.len() - i,
    {
        let ghost prefix = bytes_list(admins@).take(i as int);
        assert(bytes_list(admins@).take(i as int + 1) =~= prefix.push(admins@[i as int]@));
        proof {
            prefix.lemma_filter_push(admins@[i as int]@, pred);
        }
        if !bytes_eq(&admins[i], admin_to_remove) {
            let ghost before = filtered@;
            filtered.push(copy_bytes(&admins[i]));
            assert(bytes_list(filtered@) =~= bytes_list(before).push(admins@[i as int]@));
        }
        i = i + 1;
    }
    assert(bytes_list(admins@).take(i as int) =~= bytes_list(admins@));
    if filtered.len() < admins.len() {
        _set_admin(store, &filtered);
    } else {
        proof {
            bytes_list(admins@).lemma_filter_len(pred);
            lemma_filter_full(bytes_list(admins@), pred);
        }
    }
}

/// Filtering that drops nothing leaves the sequence unchanged.
proof fn lemma_filter_full(s: Seq<Seq<u8>>, pred: spec_fn(Seq<u8>) -> bool)
    requires
        s.filter(pred).len() >= s.len(),
    ensures
        s.filter(pred) == s,
    decreases s.len(),
{
    reveal_with_fuel(Seq::filter, 1);
    if s.len() > 0 {
        s.drop_last().lemma_filter_len(pred);
        if !pred(s.last()) {
            assert(s.filter(pred) == s.drop_last().filter(pred));
        }
        lemma_filter_full(s.drop_last(), pred);
        assert(s =~= s.drop_last().push(s.last()));
    }
}

/// Whether the contract is paused.
pub fn _is_paused(store: &InstanceStorage) -> (r: bool)
    ensures
        r == store@.paused,
{
    store.paused
}

/// Sets the pause flag.
pub fn _set_paused(store: &mut InstanceStorage, paused: bool)
    ensures
        final(store)@ == (InstanceView { paused: paused, ..old(store)@ }),
        final(store).wf() == old(store).wf(),
{
    store.paused = paused;
}

/// Whitelist a provider address.
pub fn _add_provider(store: &mut InstanceStorage, provider: &Address)
    requires
        old(store).wf(),
    ensures
        final(store).wf(),
        final(store)@ == (InstanceView {
            providers: old(store)@.providers.insert(provider@, true),
            ..old(store)@
        }),
{
    store.providers.set(copy_bytes(provider), true);
}

/// Remove a provider from the whitelist.
pub fn _remove_provider(store: &mut InstanceStorage, provider: &Address)
    requires
        old(store).wf(),
    ensures
        final(store).wf(),
        final(store)@ == (InstanceView {
            providers: old(store)@.providers.remove(provider@),
            ..old(store)@
        }),
{
    store.providers.remove(provider);
}

/// Returns `true` if the address is a whitelisted provider.
pub fn _is_provider(store: &InstanceStorage, addr: &Address) -> (r: bool)
    requires
        store.wf(),
    ensures
        r == provider(store@, addr@),
{
    match store.providers.get(addr) {
        Some(flag) => *flag,
        None => false,
    }
}

} // verus!
