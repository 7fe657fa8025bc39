//! How a (service, account) pair becomes a native key, and back.
//!
//! The composite form is `service + "/" + account`. Reading a composite
//! splits on the first `/` only. Either part may itself hold a `/`, so the
//! split is lossy: `("a/b", "c")` and `("a", "b/c")` share one composite.

use vstd::prelude::*;
use vstd::string::*;

verus! {

/// The composite key for a service and an account.
pub open spec fn composite(service: Seq<char>, account: Seq<char>) -> Seq<char> {
    service + seq!['/'] + account
}

/// Whether `s` holds no `c`.
pub open spec fn char_free(s: Seq<char>, c: char) -> bool {
    forall|i: int| 0 <= i < s.len() ==> s[i] != c
}

/// Whether `i` is the index of the first `c` in `s`.
pub open spec fn is_first(s: Seq<char>, c: char, i: int) -> bool {
    &&& 0 <= i < s.len()
    &&& s[i] == c
    &&& char_free(s.take(i), c)
}

/// The index of the first `c` of a string that holds one.
pub open spec fn first_index(s: Seq<char>, c: char) -> int {
    choose|i: int| is_first(s, c, i)
}

/// Whether `s` holds no `/`.
pub open spec fn slash_free(s: Seq<char>) -> bool {
    char_free(s, '/')
}

/// The index of the first `/` of a string that holds one.
pub open spec fn first_slash(s: Seq<char>) -> int {
    first_index(s, '/')
}

/// The service part of a raw key: all of it when it holds no `/`, else what
/// stands before the first `/`.
pub open spec fn service_part(raw: Seq<char>) -> Seq<char> {
    if slash_free(raw) {
        raw
    } else {
        raw.take(first_slash(raw))
    }
}

/// The account part of a raw key: none when it holds no `/`, else what
/// stands after the first `/`.
pub open spec fn account_part(raw: Seq<char>) -> Option<Seq<char>> {
    if slash_free(raw) {
        None
    } else {
        Some(raw.skip(first_slash(raw) + 1))
    }
}

pub open spec fn opt_view(o: Option<String>) -> Option<Seq<char>> {
    match o {
        Some(s) => Some(s@),
        None => None,
    }
}

/// A string that holds `c` has a first one.
pub proof fn lemma_first_exists(s: Seq<char>, c: char)
    requires
        !char_free(s, c),
    ensures
        is_first(s, c, first_index(s, c)),
    decreases s.len(),
{
    if s[0] == c {
        assert(is_first(s, c, 0));
    } else {
        let t = s.drop_first();
        assert(!char_free(t, c)) by {
            let i = choose|i: int| 0 <= i < s.len() && s[i] == c;
            assert(t[i - 1] == c);
        }
        lemma_first_exists(t, c);
        let k = first_index(t, c);
        assert(s.take(k + 1) =~= seq![s[0]] + t.take(k));
        assert(is_first(s, c, k + 1));
    }
}

/// The first `c` is unique.
pub proof fn lemma_first_unique(s: Seq<char>, c: char, i: int)
    requires
        is_first(s, c, i),
    ensures
        !char_free(s, c),
        first_index(s, c) == i,
{
    let k = first_index(s, c);
    assert(is_first(s, c, k));
    if k < i {
        assert(s.take(i)[k] == c);
    } else if i < k {
        assert(s.take(k)[i] == c);
    }
}

/// The composite key of a service and an account.
pub fn compose(service: &str, account: &str) -> (r: String)
    ensures
        r@ == composite(service@, account@),
{
    let r = service.to_owned().concat("/").concat(account);
    proof {
        reveal_strlit("/");
    }
    r
}

/// The index of the first `c` of `s`, if any.
pub fn find_char(s: &str, c: char) -> (r: Option<usize>)
    ensures
        r is None <==> char_free(s@, c),
        r matches Some(i) ==> is_first(s@, c, i as int),
{
    let n = s.unicode_len();
    let mut k: usize = 0;
    while k < n
        invariant
            n == s@.len(),
            k <= n,
            char_free(s@.take(k as int), c),
        decreases n - k,
    {
        if s.get_char(k) == c {
            return Some(k);
        }
        assert(s@.take(k as int + 1) =~= s@.take(k as int).push(s@[k as int]));
        k = k + 1;
    }
    assert(s@.take(k as int) =~= s@);
    None
}

/// Splits a raw key on its first `/`: the service, and the account if a `/`
/// was there.
pub fn decompose(raw: &str) -> (r: (String, Option<String>))
    ensures
        r.0@ == service_part(raw@),
        opt_view(r.1) == account_part(raw@),
{
    match find_char(raw, '/') {
        None => (raw.to_owned(), None),
        Some(i) => {
            proof {
                lemma_first_unique(raw@, '/', i as int);
            }
            let n = raw.unicode_len();
            let service = raw.substring_char(0, i).to_owned();
            let account = raw.substring_char(i + 1, n).to_owned();
            assert(raw@.subrange(0, i as int) =~= raw@.take(i as int));
            assert(raw@.subrange(i + 1, n as int) =~= raw@.skip(i + 1));
            (service, Some(account))
        },
    }
}

/// A composite key splits back into its service and account when the
/// service holds no `/`; the account may hold any number of them.
pub proof fn lemma_decompose_composite(service: Seq<char>, account: Seq<char>)
    requires
        slash_free(service),
    ensures
        service_part(composite(service, account)) == service,
        account_part(composite(service, account)) == Some(account),
{
    let c = composite(service, account);
    assert(c.take(service.len() as int) =~= service);
    assert(is_first(c, '/', service.len() as int));
    lemma_first_unique(c, '/', service.len() as int);
    assert(c.skip(service.len() + 1 as int) =~= account);
}

/// A service that holds a `/` gives up the part after its first `/` to the
/// account: the composite splits at the service's own `/`.
pub proof fn lemma_decompose_composite_slashed(service: Seq<char>, account: Seq<char>)
    requires
        !slash_free(service),
    ensures
        service_part(composite(service, account)) == service_part(service),
        account_part(composite(service, account)) == Some(
            service.skip(first_slash(service) + 1) + seq!['/'] + account,
        ),
{
    let c = composite(service, account);
    lemma_first_exists(service, '/');
    let i = first_slash(service);
    assert(c.take(i) =~= service.take(i));
    assert(is_first(c, '/', i));
    lemma_first_unique(c, '/', i);
    assert(c.skip(i + 1) =~= service.skip(i + 1) + seq!['/'] + account);
}

/// Splitting a key that holds a `/` and joining the parts again gives the
/// key back.
pub proof fn lemma_compose_decomposed(raw: Seq<char>)
    requires
        !slash_free(raw),
    ensures
        composite(service_part(raw), account_part(raw)->0) == raw,
{
    lemma_first_exists(raw, '/');
    let i = first_slash(raw);
    assert(raw.take(i) + seq!['/'] + raw.skip(i + 1) =~= raw);
}

} // verus!
