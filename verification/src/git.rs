use vstd::prelude::*;

use crate::string_util::{
    contains_char, find_from, has_char, has_match, lemma_find_from_first,
    lemma_find_from_none_of_no_match, lemma_find_from_some, lemma_first_char_occurrence,
    lemma_has_char_concat, lemma_has_char_single, lemma_has_match_single, lemma_match_at_single,
    match_at, prepend_if_missing, prepend_if_missing_spec, remove_trailing, remove_trailing_spec,
    split_into_two, split_spec,
};

verus! {

/// Store-safe replacement for one character: `/` becomes `_`, `.` becomes `-`,
/// everything else is kept.
pub open spec fn store_safe_char(c: char) -> char {
    if c == '/' {
        '_'
    } else if c == '.' {
        '-'
    } else {
        c
    }
}

/// The store-safe form of a string: every `/` replaced by `_`, every `.` by `-`.
pub open spec fn store_safe(s: Seq<char>) -> Seq<char> {
    s.map_values(|c: char| store_safe_char(c))
}

/// The key of an SSH-form remote `user@host:path`: everything up to the first
/// `@` is discarded, the rest is split at the first `:` into host and path, and
/// a `/` is prepended to the path when missing.
pub open spec fn normalize_ssh_spec(s: Seq<char>) -> Seq<char> {
    let rest = split_spec(s, seq!['@']).1;
    let parts = split_spec(rest, seq![':']);
    parts.0 + prepend_if_missing_spec(parts.1, seq!['/'])
}

/// The key of an HTTPS-form remote `scheme://host[:port]/path`: the scheme up
/// to the first `//` is discarded, the rest is split at the first `/` into host
/// and path, a trailing `:port` is cut from the host at its first `:`, and a
/// `/` is prepended to the path when missing.
pub open spec fn normalize_https_spec(s: Seq<char>) -> Seq<char> {
    let rest = split_spec(s, seq!['/', '/']).1;
    let parts = split_spec(rest, seq!['/']);
    remove_trailing_spec(parts.0, ':') + prepend_if_missing_spec(parts.1, seq!['/'])
}

/// The canonical storage key of a remote URL: the SSH rule when the URL
/// contains `@`, the HTTPS rule otherwise, made store-safe.
pub open spec fn normalize_spec(s: Seq<char>) -> Seq<char> {
    if has_char(s, '@') {
        store_safe(normalize_ssh_spec(s))
    } else {
        store_safe(normalize_https_spec(s))
    }
}

/// Replaces every `/` by `_` and every `.` by `-`.
fn replace_store_safe(s: &str) -> (r: String)
    ensures
        r@ == store_safe(s@),
{
    let n = s.unicode_len();
    let mut r = String::new();
    let mut i: usize = 0;
    proof {
        assert(r@ =~= store_safe(s@.subrange(0, 0)));
    }
    while i < n
        invariant
            n == s@.len(),
            0 <= i <= n,
            r@ == store_safe(s@.subrange(0, i as int)),
        decreases n - i,
    {
        let c = s.get_char(i);
        let rc = if c == '/' {
            '_'
        } else if c == '.' {
            '-'
        } else {
            c
        };
        r.push(rc);
        proof {
            assert(r@ =~= store_safe(s@.subrange(0, i + 1 as int)));
        }
        i += 1;
    }
    proof {
        assert(s@.subrange(0, n as int) =~= s@);
    }
    r
}

/// A remote is SSH-form exactly when it contains `@`.
fn is_ssh_remote(remote: &str) -> (r: bool)
    ensures
        r == has_char(remote@, '@'),
{
    contains_char(remote, '@')
}

/// The SSH rule, before the store-safe replacement.
fn normalize_ssh_remote(remote: &str) -> (r: String)
    ensures
        r@ == normalize_ssh_spec(remote@),
{
    proof {
        reveal_strlit("@");
        reveal_strlit(":");
        reveal_strlit("/");
        assert("@"@ =~= seq!['@']);
        assert(":"@ =~= seq![':']);
        assert("/"@ =~= seq!['/']);
    }
    let parts = split_into_two(remote, "@");
    let server_and_path = split_into_two(parts.1.as_str(), ":");
    let path = prepend_if_missing(server_and_path.1.as_str(), "/");
    server_and_path.0.concat(path.as_str())
}

/// The HTTPS rule, before the store-safe replacement.
fn normalize_https_remote(remote: &str) -> (r: String)
    ensures
        r@ == normalize_https_spec(remote@),
{
    proof {
        reveal_strlit("//");
        reveal_strlit("/");
        assert("//"@ =~= seq!['/', '/']);
        assert("/"@ =~= seq!['/']);
    }
    let parts = split_into_two(remote, "//");
    let server_and_path = split_into_two(parts.1.as_str(), "/");
    let server = remove_trailing(server_and_path.0.as_str(), ':');
    let path = prepend_if_missing(server_and_path.1.as_str(), "/");
    server.concat(path.as_str())
}

/// The SSH rule on `user @ host : path`, for any path: the key before the
/// store-safe replacement is the host followed by the path with its slash.
proof fn lemma_ssh_key(user: Seq<char>, host: Seq<char>, path: Seq<char>)
    requires
        !has_char(user, '@'),
        !has_char(host, ':'),
    ensures
        has_char(user + seq!['@'] + host + seq![':'] + path, '@'),
        normalize_ssh_spec(user + seq!['@'] + host + seq![':'] + path) == host
            + prepend_if_missing_spec(path, seq!['/']),
{
    let s = user + seq!['@'] + host + seq![':'] + path;
    let rest = host + seq![':'] + path;
    assert(s =~= user + seq!['@'] + rest);
    lemma_first_char_occurrence(user, '@', rest);
    assert(s[user.len() as int] == '@');
    assert(has_char(s, '@'));
    assert(split_spec(s, seq!['@']).1 =~= rest);
    lemma_first_char_occurrence(host, ':', path);
    assert(split_spec(rest, seq![':']).0 =~= host);
    assert(split_spec(rest, seq![':']).1 =~= path);
}

/// Law: an SSH-form remote yields the same key whether the path is written
/// with or without its leading slash, and the key is the store-safe form of
/// `host + "/" + path`.
pub proof fn lemma_ssh_forms_agree(user: Seq<char>, host: Seq<char>, path: Seq<char>)
    requires
        !has_char(user, '@'),
        !has_char(host, ':'),
        path.len() == 0 || path[0] != '/',
    ensures
        normalize_spec(user + seq!['@'] + host + seq![':'] + path) == store_safe(
            host + seq!['/'] + path,
        ),
        normalize_spec(user + seq!['@'] + host + seq![':'] + seq!['/'] + path) == store_safe(
            host + seq!['/'] + path,
        ),
{
    lemma_ssh_key(user, host, path);
    lemma_match_at_single(path, '/', 0);
    assert(prepend_if_missing_spec(path, seq!['/']) == seq!['/'] + path);

    let slashed = seq!['/'] + path;
    assert(user + seq!['@'] + host + seq![':'] + seq!['/'] + path =~= user + seq!['@'] + host
        + seq![':'] + slashed);
    lemma_ssh_key(user, host, slashed);
    lemma_match_at_single(slashed, '/', 0);
    assert(slashed[0] == '/');
    assert(prepend_if_missing_spec(slashed, seq!['/']) == slashed);

    assert(host + slashed =~= host + seq!['/'] + path);
}

/// The first `//` in `scheme + "//" + rest` with no `/` in the scheme is right
/// after the scheme, so the split on `//` keeps exactly `rest`.
proof fn lemma_double_slash_split(scheme: Seq<char>, rest: Seq<char>)
    requires
        !has_char(scheme, '/'),
    ensures
        split_spec(scheme + seq!['/', '/'] + rest, seq!['/', '/']).1 =~= rest,
{
    let ds = seq!['/', '/'];
    let s = scheme + ds + rest;
    assert(ds[0] == '/' && ds[1] == '/');
    assert(match_at(s, ds, scheme.len() as int)) by {
        assert((scheme + ds)[scheme.len() as int] == '/');
        assert((scheme + ds)[scheme.len() as int + 1] == '/');
        assert(s[scheme.len() as int] == '/');
        assert(s[scheme.len() as int + 1] == '/');
        assert forall|k: int| 0 <= k < ds.len() implies s[scheme.len() + k] == #[trigger] ds[k] by {
            assert(k == 0 || k == 1);
        }
    }
    assert forall|j: int| 0 <= j < scheme.len() implies !match_at(s, ds, j) by {
        if match_at(s, ds, j) {
            assert(s[j + 0] == ds[0]);
            assert((scheme + ds)[j] == scheme[j]);
            assert(s[j] == scheme[j]);
        }
    }
    lemma_find_from_first(s, ds, 0, scheme.len() as int);
    assert(split_spec(s, ds).1 =~= rest);
}

/// The HTTPS rule on `scheme // host / path`: the key before the store-safe
/// replacement is the host followed by the path with its slash.
proof fn lemma_https_key(scheme: Seq<char>, host: Seq<char>, path: Seq<char>)
    requires
        !has_char(scheme, '/'),
        !has_char(host, '/'),
        !has_char(host, ':'),
    ensures
        normalize_https_spec(scheme + seq!['/', '/'] + host + seq!['/'] + path) == host
            + prepend_if_missing_spec(path, seq!['/']),
{
    let ds = seq!['/', '/'];
    let s = scheme + ds + host + seq!['/'] + path;
    let rest = host + seq!['/'] + path;
    assert(s =~= scheme + ds + rest);
    lemma_double_slash_split(scheme, rest);
    assert(split_spec(s, ds).1 == rest);
    lemma_first_char_occurrence(host, '/', path);
    assert(split_spec(rest, seq!['/']).0 =~= host);
    assert(split_spec(rest, seq!['/']).1 =~= path);
    lemma_has_match_single(host, ':');
    lemma_find_from_none_of_no_match(host, seq![':']);
    assert(remove_trailing_spec(host, ':') == host);
}

/// The HTTPS rule on `scheme // host : / path` (a trailing colon before the
/// path): the colon is cut from the host, so the key is the same.
proof fn lemma_https_key_colon(scheme: Seq<char>, host: Seq<char>, path: Seq<char>)
    requires
        !has_char(scheme, '/'),
        !has_char(host, '/'),
        !has_char(host, ':'),
    ensures
        normalize_https_spec(scheme + seq!['/', '/'] + host + seq![':'] + seq!['/'] + path) == host
            + prepend_if_missing_spec(path, seq!['/']),
{
    let ds = seq!['/', '/'];
    let s = scheme + ds + host + seq![':'] + seq!['/'] + path;
    let hostc = host + seq![':'];
    let rest = hostc + seq!['/'] + path;
    assert(s =~= scheme + ds + rest);
    lemma_double_slash_split(scheme, rest);
    assert(split_spec(s, ds).1 == rest);
    lemma_has_char_concat(host, seq![':'], '/');
    lemma_has_char_single(':', '/');
    assert(!has_char(hostc, '/'));
    lemma_first_char_occurrence(hostc, '/', path);
    assert(split_spec(rest, seq!['/']).0 =~= hostc);
    assert(split_spec(rest, seq!['/']).1 =~= path);
    lemma_first_char_occurrence(host, ':', Seq::<char>::empty());
    assert(hostc =~= host + seq![':'] + Seq::<char>::empty());
    assert(remove_trailing_spec(hostc, ':') =~= host);
}

/// Law: an HTTPS-form remote yields the same key with or without an explicit
/// colon between the host and the path, and the key is the store-safe form of
/// `host + "/" + path` — the same key as the SSH form for that host and path.
pub proof fn lemma_https_forms_agree(scheme: Seq<char>, host: Seq<char>, path: Seq<char>)
    requires
        !has_char(scheme, '/'),
        !has_char(scheme, '@'),
        !has_char(host, '/'),
        !has_char(host, ':'),
        !has_char(host, '@'),
        !has_char(path, '@'),
        path.len() == 0 || path[0] != '/',
    ensures
        normalize_spec(scheme + seq!['/', '/'] + host + seq!['/'] + path) == store_safe(
            host + seq!['/'] + path,
        ),
        normalize_spec(scheme + seq!['/', '/'] + host + seq![':'] + seq!['/'] + path)
            == store_safe(host + seq!['/'] + path),
{
    let ds = seq!['/', '/'];
    assert(!has_char(ds, '@')) by {
        if has_char(ds, '@') {
            let i = choose|i: int| 0 <= i < ds.len() && ds[i] == '@';
            assert(ds[0] == '/' && ds[1] == '/');
            assert(i == 0 || i == 1);
        }
    }
    lemma_has_char_single('/', '@');
    lemma_has_char_single(':', '@');
    lemma_has_char_concat(scheme, ds, '@');
    lemma_has_char_concat(scheme + ds, host, '@');
    lemma_has_char_concat(scheme + ds + host, seq!['/'], '@');
    lemma_has_char_concat(scheme + ds + host + seq!['/'], path, '@');
    lemma_has_char_concat(scheme + ds + host, seq![':'], '@');
    lemma_has_char_concat(scheme + ds + host + seq![':'], seq!['/'], '@');
    lemma_has_char_concat(scheme + ds + host + seq![':'] + seq!['/'], path, '@');
    assert(!has_char(scheme + ds + host + seq!['/'] + path, '@'));
    assert(!has_char(scheme + ds + host + seq![':'] + seq!['/'] + path, '@'));

    lemma_https_key(scheme, host, path);
    lemma_https_key_colon(scheme, host, path);
    lemma_match_at_single(path, '/', 0);
    assert(prepend_if_missing_spec(path, seq!['/']) == seq!['/'] + path);
    assert(host + (seq!['/'] + path) =~= host + seq!['/'] + path);
}

/// Law: an HTTPS-form remote, with or without the colon before the path, and
/// the SSH-form remote of the same host and path yield the identical key. The
/// side conditions hold of every well-formed remote: a host carrying `:` or
/// `/`, or a user part carrying `@`, shifts where the splits cut, and the
/// forms then genuinely disagree.
pub proof fn lemma_ssh_https_same_key(
    user: Seq<char>,
    scheme: Seq<char>,
    host: Seq<char>,
    path: Seq<char>,
)
    requires
        !has_char(user, '@'),
        !has_char(scheme, '/'),
        !has_char(scheme, '@'),
        !has_char(host, '/'),
        !has_char(host, ':'),
        !has_char(host, '@'),
        !has_char(path, '@'),
        path.len() == 0 || path[0] != '/',
    ensures
        normalize_spec(scheme + seq!['/', '/'] + host + seq!['/'] + path) == normalize_spec(
            user + seq!['@'] + host + seq![':'] + path,
        ),
        normalize_spec(scheme + seq!['/', '/'] + host + seq![':'] + seq!['/'] + path)
            == normalize_spec(user + seq!['@'] + host + seq![':'] + path),
{
    lemma_ssh_forms_agree(user, host, path);
    lemma_https_forms_agree(scheme, host, path);
}

/// Law: normalization is deterministic — equal remote strings yield equal keys,
/// with no dependence on anything but the input characters.
pub proof fn lemma_normalize_deterministic(s1: Seq<char>, s2: Seq<char>)
    requires
        s1 == s2,
    ensures
        normalize_spec(s1) == normalize_spec(s2),
{
}

/// The canonical storage key of a repository remote URL.
pub fn normalize_remote(remote: &str) -> (r: String)
    ensures
        r@ == normalize_spec(remote@),
{
    let base = if is_ssh_remote(remote) {
        normalize_ssh_remote(remote)
    } else {
        normalize_https_remote(remote)
    };
    replace_store_safe(base.as_str())
}

} // verus!
