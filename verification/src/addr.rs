//! Service addresses and the URLs built from them.

use vstd::prelude::*;
use crate::text::{
    all_digits, chars_of, contains_at, digits_at, has_prefix_at, push_range, string_of_range,
    strip_prefix, trim, trim_bounds, trim_char, trim_char_str, trim_front, trim_back, is_space,
};

verus! {

/// The part of `s` before its first `/` (all of `s` when it has none).
pub open spec fn first_segment(s: Seq<char>) -> Seq<char>
    decreases s.len(),
{
    if s.len() == 0 || s[0] == '/' {
        seq![]
    } else {
        seq![s[0]] + first_segment(s.drop_first())
    }
}

/// The address a user typed, reduced to `host:port` form.
///
/// Surrounding whitespace, a leading `http://` and then a leading `https://`
/// and everything from the first `/` on are dropped; a bare port number is
/// taken to be on `localhost`. Nothing usable left means `None`.
pub open spec fn service_addr(input: Seq<char>) -> Option<Seq<char>> {
    let t = trim(input);
    if t.len() == 0 {
        None
    } else {
        let v = first_segment(strip_prefix(strip_prefix(t, "http://"@), "https://"@));
        if v.len() == 0 {
            None
        } else if v.contains(':') {
            Some(v)
        } else if all_digits(v) {
            Some("localhost:"@ + v)
        } else {
            Some(v)
        }
    }
}

/// The address used when none is configured or the configured one is unusable.
pub open spec fn default_service_addr() -> Seq<char> {
    "localhost:48760"@
}

/// The JSON-RPC endpoint of the service at `input`.
pub open spec fn rpc_url(input: Seq<char>) -> Seq<char> {
    let addr = match service_addr(input) {
        Some(a) => a,
        None => default_service_addr(),
    };
    "http://"@ + addr + "/rpc"@
}

pub open spec fn opt_view(o: Option<String>) -> Option<Seq<char>> {
    match o {
        Some(s) => Some(s@),
        None => None,
    }
}

proof fn lemma_first_segment_step(v: Seq<char>, i: int, hi: int)
    requires
        0 <= i < hi <= v.len(),
        v[i] != '/',
    ensures
        first_segment(v.subrange(i, hi)) == seq![v[i]] + first_segment(v.subrange(i + 1, hi)),
{
    assert(v.subrange(i, hi).drop_first() =~= v.subrange(i + 1, hi));
}

/// Where the first `/` of `v[lo..hi]` stands (`hi` when there is none).
fn segment_end(v: &Vec<char>, lo: usize, hi: usize) -> (end: usize)
    requires
        lo <= hi <= v.len(),
    ensures
        lo <= end <= hi,
        first_segment(v@.subrange(lo as int, hi as int)) == v@.subrange(lo as int, end as int),
{
    let mut end = lo;
    while end < hi && v[end] != '/'
        invariant
            lo <= end <= hi <= v.len(),
            first_segment(v@.subrange(lo as int, hi as int)) == v@.subrange(lo as int, end as int)
                + first_segment(v@.subrange(end as int, hi as int)),
        decreases hi - end,
    {
        proof {
            lemma_first_segment_step(v@, end as int, hi as int);
            assert(v@.subrange(lo as int, end as int) + seq![v@[end as int]] =~= v@.subrange(
                lo as int,
                end + 1,
            ));
        }
        end += 1;
    }
    assert(first_segment(v@.subrange(end as int, hi as int)) =~= seq![]);
    assert(v@.subrange(lo as int, end as int) + seq![] =~= v@.subrange(lo as int, end as int));
    end
}

/// Reduces a user-supplied service address to `host:port` form; see [`service_addr`].
pub fn normalize_service_addr(input: &str) -> (r: Option<String>)
    ensures
        opt_view(r) == service_addr(input@),
{
    let v = chars_of(input);
    let (lo, hi) = trim_bounds(&v);
    if lo == hi {
        return None;
    }
    let ghost t = v@.subrange(lo as int, hi as int);
    let mut start = lo;
    let http = chars_of("http://");
    if has_prefix_at(&v, start, hi, &http) {
        assert(t.skip(http@.len() as int) =~= v@.subrange(lo + http@.len(), hi as int));
        start = start + http.len();
    }
    let ghost t1 = strip_prefix(t, "http://"@);
    assert(t1 == v@.subrange(start as int, hi as int));
    let https = chars_of("https://");
    if has_prefix_at(&v, start, hi, &https) {
        assert(t1.skip(https@.len() as int) =~= v@.subrange(start + https@.len(), hi as int));
        start = start + https.len();
    }
    assert(strip_prefix(t1, "https://"@) == v@.subrange(start as int, hi as int));
    let end = segment_end(&v, start, hi);
    if start == end {
        return None;
    }
    if contains_at(&v, start, end, ':') {
        return Some(string_of_range(&v, start, end));
    }
    if digits_at(&v, start, end) {
        let mut s = "localhost:".to_owned();
        push_range(&mut s, &v, start, end);
        return Some(s);
    }
    Some(string_of_range(&v, start, end))
}

/// `http://<addr>/rpc` for the normalized address, or for the default one.
pub fn build_rpc_url(input: &str) -> (url: String)
    ensures
        url@ == rpc_url(input@),
{
    let addr = match normalize_service_addr(input) {
        Some(a) => a,
        None => "localhost:48760".to_owned(),
    };
    let mut url = "http://".to_owned();
    url.append(addr.as_str());
    url.append("/rpc");
    url
}

/// The registration service's endpoint for `action`: `<base>/api/<action>`,
/// with the slashes around `action` dropped.
pub fn register_api_url(base: &str, action: &str) -> (url: String)
    ensures
        url@ == base@ + "/api/"@ + trim_char(action@, '/'),
{
    let mut url = base.to_owned();
    url.append("/api/");
    let action = trim_char_str(action, '/');
    url.append(action.as_str());
    url
}

proof fn lemma_first_segment_no_slash(s: Seq<char>)
    ensures
        !first_segment(s).contains('/'),
        first_segment(s).len() <= s.len(),
    decreases s.len(),
{
    if s.len() > 0 && s[0] != '/' {
        lemma_first_segment_no_slash(s.drop_first());
        let r = first_segment(s.drop_first());
        assert forall|i: int| 0 <= i < first_segment(s).len() implies first_segment(s)[i] != '/' by {
            if i > 0 {
                assert(first_segment(s)[i] == r[i - 1]);
            }
        }
    }
}

proof fn lemma_first_segment_whole(s: Seq<char>)
    requires
        !s.contains('/'),
    ensures
        first_segment(s) == s,
    decreases s.len(),
{
    if s.len() > 0 {
        assert(s[0] != '/');
        assert(!s.drop_first().contains('/')) by {
            if s.drop_first().contains('/') {
                let i = choose|i: int| 0 <= i < s.drop_first().len() && s.drop_first()[i] == '/';
                assert(s[i + 1] == '/');
            }
        }
        lemma_first_segment_whole(s.drop_first());
        assert(seq![s[0]] + s.drop_first() =~= s);
    }
}

/// A normalized address is never empty and never holds a `/`.
pub proof fn lemma_service_addr_shape(input: Seq<char>)
    ensures
        service_addr(input) matches Some(a) ==> a.len() > 0 && !a.contains('/'),
{
    reveal_strlit("localhost:");
    let t = trim(input);
    if t.len() > 0 {
        let v = first_segment(strip_prefix(strip_prefix(t, "http://"@), "https://"@));
        lemma_first_segment_no_slash(strip_prefix(strip_prefix(t, "http://"@), "https://"@));
        if v.len() > 0 && !v.contains(':') && all_digits(v) {
            let a = "localhost:"@ + v;
            assert forall|i: int| 0 <= i < a.len() implies a[i] != '/' by {
                if i >= 10 {
                    assert(a[i] == v[i - 10]);
                }
            }
        }
    }
}

/// Normalizing a normalized address gives it back, when it has no whitespace
/// at either end.
pub proof fn lemma_normalize_idempotent(input: Seq<char>)
    requires
        service_addr(input) matches Some(a) && trim(a) == a,
    ensures
        service_addr(service_addr(input)->0) == service_addr(input),
{
    reveal_strlit("http://");
    reveal_strlit("https://");
    reveal_strlit("localhost:");
    let a = service_addr(input)->0;
    lemma_service_addr_shape(input);
    assert(!"http://"@.is_prefix_of(a)) by {
        if "http://"@.is_prefix_of(a) {
            assert(a.subrange(0, 7) == "http://"@);
            assert(a.subrange(0, 7)[5] == '/');
        }
    }
    assert(!"https://"@.is_prefix_of(a)) by {
        if "https://"@.is_prefix_of(a) {
            assert(a.subrange(0, 8) == "https://"@);
            assert(a.subrange(0, 8)[6] == '/');
        }
    }
    lemma_first_segment_whole(a);
    let t = trim(input);
    let v = first_segment(strip_prefix(strip_prefix(t, "http://"@), "https://"@));
    if !v.contains(':') && all_digits(v) {
        assert(a[9] == ':');
        assert(a.contains(':'));
    }
}

/// The RPC endpoint built from a normalized address is the one built from
/// what was normalized, when the address has no whitespace at either end.
pub proof fn lemma_rpc_url_of_normalized(input: Seq<char>)
    requires
        service_addr(input) matches Some(a) && trim(a) == a,
    ensures
        rpc_url(service_addr(input)->0) == rpc_url(input),
{
    lemma_normalize_idempotent(input);
}

proof fn lemma_no_scheme(a: Seq<char>)
    requires
        !a.contains('/'),
    ensures
        strip_prefix(strip_prefix(a, "http://"@), "https://"@) == a,
{
    reveal_strlit("http://");
    reveal_strlit("https://");
    if "http://"@.is_prefix_of(a) {
        assert(a.subrange(0, 7) == "http://"@);
        assert(a.subrange(0, 7)[5] == '/');
    }
    if "https://"@.is_prefix_of(a) {
        assert(a.subrange(0, 8) == "https://"@);
        assert(a.subrange(0, 8)[6] == '/');
    }
}

/// A host name or dotted address without a port (no `:`, no `/`, no
/// surrounding whitespace, and some character that is not an ASCII digit) is
/// kept exactly as it is: only a value made wholly of digits is a bare port.
pub proof fn lemma_host_without_port_kept(s: Seq<char>)
    requires
        s.len() > 0,
        trim(s) == s,
        !s.contains('/'),
        !s.contains(':'),
        exists|i: int| 0 <= i < s.len() && !('0' <= #[trigger] s[i] && s[i] <= '9'),
    ensures
        service_addr(s) == Some(s),
{
    lemma_no_scheme(s);
    lemma_first_segment_whole(s);
    let i = choose|i: int| 0 <= i < s.len() && !('0' <= #[trigger] s[i] && s[i] <= '9');
    assert(!all_digits(s)) by {
        assert(!crate::text::is_digit(s[i]));
    }
}

/// A bare port number (one or more ASCII digits) is an address on `localhost`.
pub proof fn lemma_bare_port_on_localhost(s: Seq<char>)
    requires
        s.len() > 0,
        forall|i: int| 0 <= i < s.len() ==> '0' <= #[trigger] s[i] && s[i] <= '9',
    ensures
        service_addr(s) == Some("localhost:"@ + s),
{
    assert(!is_space(s[0]));
    assert(trim_front(s) == s);
    assert(!is_space(s.last()));
    assert(trim_back(s) == s);
    assert(!s.contains('/')) by {
        if s.contains('/') {
            let j = choose|j: int| 0 <= j < s.len() && s[j] == '/';
            assert('0' <= s[j]);
        }
    }
    assert(!s.contains(':')) by {
        if s.contains(':') {
            let j = choose|j: int| 0 <= j < s.len() && s[j] == ':';
            assert(s[j] <= '9');
        }
    }
    lemma_no_scheme(s);
    lemma_first_segment_whole(s);
}

} // verus!
