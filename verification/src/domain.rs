//! The domain filter: which hosts an allow-list of domains lets through.

use crate::text::{before, chars_of, has_suffix, lowercase, lowercased, same_chars, take_before, trim, trimmed};
use vstd::prelude::*;

verus! {

/// The form in which a requested host is compared: lower case, without a
/// port suffix, without white space around it.
pub open spec fn host_key(host: Seq<char>) -> Seq<char> {
    trimmed(before(lowercased(host), ':'))
}

/// The form in which an entry of the allow-list is compared.
pub open spec fn entry_key(entry: Seq<char>) -> Seq<char> {
    trimmed(lowercased(entry))
}

/// Whether the entry `entry` lets the host `host` through, both in the form
/// in which they are compared: the host is the entry itself, or a name under
/// it. An empty entry lets nothing through.
pub open spec fn covers(entry: Seq<char>, host: Seq<char>) -> bool {
    entry.len() > 0 && (host == entry || (seq!['.'] + entry).is_suffix_of(host))
}

/// Whether some entry of `allowed` lets the host key `key` through.
pub open spec fn key_permitted(key: Seq<char>, allowed: Seq<Seq<char>>) -> bool {
    key.len() > 0 && exists|i: int|
        0 <= i < allowed.len() && covers(entry_key(#[trigger] allowed[i]), key)
}

/// Whether the allow-list `allowed` lets the host `host` through.
pub open spec fn domain_permitted(host: Seq<char>, allowed: Seq<Seq<char>>) -> bool {
    key_permitted(host_key(host), allowed)
}

/// Whether the entry lets the host through, both given in the form in which
/// they are compared.
pub fn entry_covers(entry: &[char], host: &[char]) -> (r: bool)
    ensures
        r == covers(entry@, host@),
{
    if entry.len() == 0 {
        return false;
    }
    if same_chars(host, entry) {
        return true;
    }
    let mut under: Vec<char> = Vec::new();
    under.push('.');
    let mut i: usize = 0;
    while i < entry.len()
        invariant
            i <= entry.len(),
            under@ == seq!['.'] + entry@.take(i as int),
        decreases entry.len() - i,
    {
        under.push(entry[i]);
        assert(entry@.take(i + 1) =~= entry@.take(i as int).push(entry@[i as int]));
        i += 1;
    }
    assert(entry@.take(i as int) =~= entry@);
    has_suffix(host, under.as_slice())
}

/// Whether `host` may be reached under the allow-list `allowed`: its key is
/// not empty, and equals the key of an entry or is a name under one.
pub fn domain_allowed(host: &str, allowed: &[String]) -> (r: bool)
    ensures
        r == domain_permitted(host@, allowed.deep_view()),
{
    let lower: String = lowercase(host);
    let chars: Vec<char> = chars_of(lower.as_str());
    let key: &[char] = trim(take_before(chars.as_slice(), ':'));
    if key.len() == 0 {
        return false;
    }
    let ghost list = allowed.deep_view();
    let mut i: usize = 0;
    while i < allowed.len()
        invariant
            i <= allowed.len(),
            list == allowed.deep_view(),
            key@ == host_key(host@),
            forall|j: int| 0 <= j < i ==> !covers(entry_key(#[trigger] list[j]), key@),
        decreases allowed.len() - i,
    {
        let entry_lower: String = lowercase(allowed[i].as_str());
        let entry_chars: Vec<char> = chars_of(entry_lower.as_str());
        let entry: &[char] = trim(entry_chars.as_slice());
        assert(entry@ == entry_key(list[i as int]));
        if entry_covers(entry, key) {
            return true;
        }
        i += 1;
    }
    false
}

/// A host is let through by the entry that equals it.
pub proof fn lemma_covers_itself(entry: Seq<char>)
    requires
        entry.len() > 0,
    ensures
        covers(entry, entry),
{
}

/// A host is let through by an entry where it is a name under it: some
/// labels, a dot, then the entry.
pub proof fn lemma_covers_subdomain(entry: Seq<char>, labels: Seq<char>)
    requires
        entry.len() > 0,
    ensures
        covers(entry, labels + seq!['.'] + entry),
{
    let host = labels + seq!['.'] + entry;
    let under = seq!['.'] + entry;
    assert(host.subrange(host.len() - under.len(), host.len() as int) =~= under);
}

/// An entry lets through nothing but itself and the names that end with a
/// dot followed by the entry: a host that merely ends with the entry is not
/// let through.
pub proof fn lemma_covers_only_names_under(entry: Seq<char>, host: Seq<char>)
    requires
        covers(entry, host),
        host != entry,
    ensures
        host.len() > entry.len(),
        host[host.len() - entry.len() - 1] == '.',
        host.skip(host.len() - entry.len()) == entry,
{
    let under = seq!['.'] + entry;
    let tail = host.subrange(host.len() - under.len(), host.len() as int);
    assert(tail[0] == under[0]);
    assert(host.skip(host.len() - entry.len()) =~= tail.skip(1));
    assert(under.skip(1) =~= entry);
}

/// A host without a key (an empty host among them, once its key is empty) is
/// let through by no allow-list.
pub proof fn lemma_empty_key_refused(allowed: Seq<Seq<char>>)
    ensures
        !key_permitted(Seq::<char>::empty(), allowed),
{
}

/// No host is let through by the empty allow-list.
pub proof fn lemma_empty_list_refuses(host: Seq<char>)
    ensures
        !domain_permitted(host, Seq::<Seq<char>>::empty()),
{
}

/// Adding entries to an allow-list takes no host away.
pub proof fn lemma_longer_list_permits(host: Seq<char>, allowed: Seq<Seq<char>>, more: Seq<Seq<char>>)
    requires
        domain_permitted(host, allowed),
    ensures
        domain_permitted(host, allowed + more),
{
    let key = host_key(host);
    let i = choose|i: int| 0 <= i < allowed.len() && covers(entry_key(#[trigger] allowed[i]), key);
    assert((allowed + more)[i] == allowed[i]);
}

} // verus!
