use vstd::prelude::*;
use vstd::slice::{slice_index_get, slice_subrange, slice_to_vec};

verus! {

/// Whitespace that may surround a cookie entry, its name or its value:
/// a space or a horizontal tab.
pub open spec fn is_cookie_space(b: u8) -> bool {
    b == 32 || b == 9
}

/// `s` with its leading cookie whitespace removed.
pub open spec fn trim_front(s: Seq<u8>) -> Seq<u8>
    decreases s.len(),
{
    if s.len() > 0 && is_cookie_space(s[0]) {
        trim_front(s.drop_first())
    } else {
        s
    }
}

/// `s` with its trailing cookie whitespace removed.
pub open spec fn trim_back(s: Seq<u8>) -> Seq<u8>
    decreases s.len(),
{
    if s.len() > 0 && is_cookie_space(s.last()) {
        trim_back(s.drop_last())
    } else {
        s
    }
}

/// `s` with cookie whitespace removed on both ends.
pub open spec fn trim(s: Seq<u8>) -> Seq<u8> {
    trim_back(trim_front(s))
}

/// The position of the first occurrence of `b` in `s`, if any.
pub open spec fn find(s: Seq<u8>, b: u8) -> Option<int>
    decreases s.len(),
{
    if s.len() == 0 {
        None
    } else if s[0] == b {
        Some(0)
    } else {
        match find(s.drop_first(), b) {
            Some(i) => Some(i + 1),
            None => None,
        }
    }
}

/// [`find`] returns the first occurrence: the byte at the returned
/// position is `b` and no earlier byte is; `None` means `b` does not
/// occur at all.
pub proof fn lemma_find(s: Seq<u8>, b: u8)
    ensures
        match find(s, b) {
            Some(i) => 0 <= i < s.len() && s[i] == b && forall|j: int| 0 <= j < i ==> s[j] != b,
            None => forall|j: int| 0 <= j < s.len() ==> s[j] != b,
        },
    decreases s.len(),
{
    if s.len() != 0 && s[0] != b {
        lemma_find(s.drop_first(), b);
        assert(forall|j: int| 1 <= j < s.len() ==> s[j] == s.drop_first()[j - 1]);
    }
}

/// The bytes of the cookie name `token`.
pub open spec fn token_name() -> Seq<u8> {
    seq![116u8, 111u8, 107u8, 101u8, 110u8]
}

/// What a single semicolon-delimited cookie entry yields for the cookie
/// named `token`: when the entry holds an `=`, its name is the part
/// before the first `=` and its value the part after; name and value are
/// trimmed. The value is yielded exactly when the name is `token`.
pub open spec fn spec_entry_token_value(e: Seq<u8>) -> Option<Seq<u8>> {
    match find(e, 61) {
        None => None,
        Some(k) => if trim(e.take(k)) == token_name() {
            Some(trim(e.skip(k + 1)))
        } else {
            None
        },
    }
}

/// The value of the first cookie named `token` among the semicolon-
/// delimited entries of a `Cookie` header, if any.
pub open spec fn spec_token_in_header(h: Seq<u8>) -> Option<Seq<u8>>
    decreases h.len(),
    via spec_token_in_header_dec
{
    match find(h, 59) {
        None => spec_entry_token_value(h),
        Some(k) => match spec_entry_token_value(h.take(k)) {
            Some(v) => Some(v),
            None => spec_token_in_header(h.skip(k + 1)),
        },
    }
}

#[via_fn]
proof fn spec_token_in_header_dec(h: Seq<u8>) {
    lemma_find(h, 59);
}

/// Finds the first occurrence of `b` in `s`.
fn find_byte(s: &[u8], b: u8) -> (r: Option<usize>)
    ensures
        match r {
            Some(i) => find(s@, b) == Some(i as int),
            None => find(s@, b) is None,
        },
{
    let n: usize = s.len();
    for k in 0..n
        invariant
            n == s@.len(),
            forall|j: int| 0 <= j < k ==> s@[j] != b,
    {
        if *slice_index_get(s, k) == b {
            proof {
                lemma_find(s@, b);
            }
            return Some(k);
        }
    }
    proof {
        lemma_find(s@, b);
    }
    None
}

/// Dropping exactly the leading whitespace of `s` is [`trim_front`].
proof fn lemma_trim_front_is_skip(s: Seq<u8>, k: int)
    requires
        0 <= k <= s.len(),
        forall|j: int| 0 <= j < k ==> is_cookie_space(s[j]),
        k < s.len() ==> !is_cookie_space(s[k]),
    ensures
        trim_front(s) == s.skip(k),
    decreases k,
{
    if k == 0 {
        assert(trim_front(s) =~= s.skip(0));
    } else {
        lemma_trim_front_is_skip(s.drop_first(), k - 1);
        assert(s.drop_first().skip(k - 1) =~= s.skip(k));
    }
}

/// Dropping exactly the trailing whitespace of `s` is [`trim_back`].
proof fn lemma_trim_back_is_take(s: Seq<u8>, k: int)
    requires
        0 <= k <= s.len(),
        forall|j: int| k <= j < s.len() ==> is_cookie_space(s[j]),
        k > 0 ==> !is_cookie_space(s[k - 1]),
    ensures
        trim_back(s) == s.take(k),
    decreases s.len() - k,
{
    if k == s.len() {
        assert(trim_back(s) =~= s.take(k));
    } else {
        lemma_trim_back_is_take(s.drop_last(), k);
        assert(s.drop_last().take(k) =~= s.take(k));
    }
}

/// Removes cookie whitespace from both ends of `s`.
fn trim_slice<'a>(s: &'a [u8]) -> (r: &'a [u8])
    ensures
        r@ == trim(s@),
{
    let n: usize = s.len();
    let mut i: usize = 0;
    while i < n && is_cookie_space_exec(*slice_index_get(s, i))
        invariant
            n == s@.len(),
            0 <= i <= n,
            forall|j: int| 0 <= j < i ==> is_cookie_space(s@[j]),
        decreases n - i,
    {
        i = i + 1;
    }
    let mut j: usize = n;
    while j > i && is_cookie_space_exec(*slice_index_get(s, j - 1))
        invariant
            n == s@.len(),
            i <= j <= n,
            forall|m: int| j <= m < n ==> is_cookie_space(s@[m]),
        decreases j,
    {
        j = j - 1;
    }
    proof {
        lemma_trim_front_is_skip(s@, i as int);
        lemma_trim_back_is_take(s@.skip(i as int), j - i);
        assert(s@.skip(i as int).take(j - i) =~= s@.subrange(i as int, j as int));
    }
    slice_subrange(s, i, j)
}

/// Whether `b` is a space or a horizontal tab.
fn is_cookie_space_exec(b: u8) -> (r: bool)
    ensures
        r == is_cookie_space(b),
{
    b == 32 || b == 9
}

/// Parses one semicolon-delimited cookie entry; yields the trimmed value
/// when the entry's trimmed name is exactly `token`.
fn entry_token_value(e: &[u8]) -> (r: Option<Vec<u8>>)
    ensures
        match r {
            Some(v) => spec_entry_token_value(e@) == Some(v@),
            None => spec_entry_token_value(e@) is None,
        },
{
    let n: usize = e.len();
    match find_byte(e, 61) {
        None => None,
        Some(k) => {
            proof {
                lemma_find(e@, 61);
            }
            let name = trim_slice(slice_subrange(e, 0, k));
            proof {
                assert(e@.subrange(0, k as int) =~= e@.take(k as int));
            }
            if name.len() == 5 && *slice_index_get(name, 0) == 116 && *slice_index_get(name, 1)
                == 111 && *slice_index_get(name, 2) == 107 && *slice_index_get(name, 3) == 101
                && *slice_index_get(name, 4) == 110 {
                proof {
                    assert(name@ =~= token_name());
                }
                let value = trim_slice(slice_subrange(e, k + 1, n));
                proof {
                    assert(e@.subrange(k + 1, e@.len() as int) =~= e@.skip(k + 1));
                }
                Some(slice_to_vec(value))
            } else {
                proof {
                    if name@ == token_name() {
                        assert(name@.len() == 5);
                        assert(name@[0] == 116 && name@[1] == 111 && name@[2] == 107 && name@[3]
                            == 101 && name@[4] == 110);
                    }
                }
                None
            }
        },
    }
}

/// A byte a header value may hold and still be read as text: visible
/// ASCII (32–126) or a horizontal tab.
pub open spec fn is_visible_header_byte(b: u8) -> bool {
    (32 <= b && b < 127) || b == 9
}

/// Whether a header value is entirely visible ASCII (tabs included). One
/// that is not cannot be read as text and carries no cookie.
pub open spec fn is_visible_header(h: Seq<u8>) -> bool {
    forall|i: int| 0 <= i < h.len() ==> is_visible_header_byte(#[trigger] h[i])
}

/// The value of the cookie named `token` in a `Cookie` header: the
/// grammar [`spec_token_in_header`], applied only when the whole header
/// is visible ASCII; a header with any other byte yields nothing.
pub open spec fn spec_header_token(h: Seq<u8>) -> Option<Seq<u8>> {
    if is_visible_header(h) {
        spec_token_in_header(h)
    } else {
        None
    }
}

/// Walks the semicolon-delimited entries for the first cookie named
/// `token`.
fn token_in_entries(header: &[u8]) -> (r: Option<Vec<u8>>)
    ensures
        match r {
            Some(v) => spec_token_in_header(header@) == Some(v@),
            None => spec_token_in_header(header@) is None,
        },
    decreases header@.len(),
{
    let n: usize = header.len();
    match find_byte(header, 59) {
        None => entry_token_value(header),
        Some(k) => {
            proof {
                lemma_find(header@, 59);
                assert(header@.subrange(0, k as int) =~= header@.take(k as int));
                assert(header@.subrange(k + 1, header@.len() as int) =~= header@.skip(k + 1));
            }
            match entry_token_value(slice_subrange(header, 0, k)) {
                Some(v) => Some(v),
                None => token_in_entries(slice_subrange(header, k + 1, n)),
            }
        },
    }
}

/// Locates the cookie named `token` among the `Cookie` header's
/// semicolon-delimited entries and returns its value; `None` when no such
/// cookie is present. A header holding any byte outside visible ASCII
/// (32–126) or tab cannot be read as text and is rejected whole, before
/// any entry is looked at.
pub fn get_token_from_headers(header: &[u8]) -> (r: Option<Vec<u8>>)
    ensures
        match r {
            Some(v) => spec_header_token(header@) == Some(v@),
            None => spec_header_token(header@) is None,
        },
{
    let n: usize = header.len();
    for k in 0..n
        invariant
            n == header@.len(),
            forall|j: int| 0 <= j < k ==> is_visible_header_byte(#[trigger] header@[j]),
    {
        let b = *slice_index_get(header, k);
        if !((32 <= b && b < 127) || b == 9) {
            proof {
                assert(!is_visible_header_byte(header@[k as int]));
            }
            return None;
        }
    }
    token_in_entries(header)
}

/// The decimal digits of `n`, most significant first.
pub open spec fn dec_digits(n: nat) -> Seq<u8>
    decreases n,
{
    if n < 10 {
        seq![(48 + n) as u8]
    } else {
        dec_digits(n / 10).push((48 + n % 10) as u8)
    }
}

/// The decimal notation of `m`: a minus sign for negative values, then
/// the digits.
pub open spec fn dec_int(m: int) -> Seq<u8> {
    if m < 0 {
        seq![45u8] + dec_digits((-m) as nat)
    } else {
        dec_digits(m as nat)
    }
}

/// Appends the decimal digits of `n` to `out`.
fn push_dec(out: &mut Vec<u8>, n: u64)
    ensures
        final(out)@ == old(out)@ + dec_digits(n as nat),
    decreases n,
{
    if n < 10 {
        out.push((48 + n) as u8);
        proof {
            assert(out@ =~= old(out)@ + dec_digits(n as nat));
        }
    } else {
        push_dec(out, n / 10);
        out.push((48 + n % 10) as u8);
        proof {
            assert(out@ =~= old(out)@ + dec_digits(n as nat));
        }
    }
}

/// Appends a copy of `s` to `out`.
fn push_all(out: &mut Vec<u8>, s: &[u8])
    ensures
        final(out)@ == old(out)@ + s@,
{
    let n: usize = s.len();
    for k in 0..n
        invariant
            n == s@.len(),
            out@ == old(out)@ + s@.take(k as int),
    {
        out.push(*slice_index_get(s, k));
        proof {
            assert(old(out)@ + s@.take(k as int) + seq![s@[k as int]] =~= old(out)@ + s@.take(
                k + 1,
            ));
        }
    }
    proof {
        assert(old(out)@ + s@.take(n as int) =~= old(out)@ + s@);
    }
}

/// The bytes of `token=`.
pub open spec fn cookie_prefix() -> Seq<u8> {
    seq![116u8, 111u8, 107u8, 101u8, 110u8, 61u8]
}

/// The bytes of `; Path=/; HttpOnly; SameSite=Lax; Max-Age=`.
pub open spec fn cookie_attrs() -> Seq<u8> {
    seq![
        59u8, 32u8, 80u8, 97u8, 116u8, 104u8, 61u8, 47u8, 59u8, 32u8, 72u8, 116u8, 116u8, 112u8,
        79u8, 110u8, 108u8, 121u8, 59u8, 32u8, 83u8, 97u8, 109u8, 101u8, 83u8, 105u8, 116u8, 101u8,
        61u8, 76u8, 97u8, 120u8, 59u8, 32u8, 77u8, 97u8, 120u8, 45u8, 65u8, 103u8, 101u8, 61u8,
    ]
}

/// The `Set-Cookie` value carrying a token:
/// `token=<value>; Path=/; HttpOnly; SameSite=Lax; Max-Age=<seconds>`.
pub open spec fn spec_cookie(token: Seq<u8>, max_age: int) -> Seq<u8> {
    cookie_prefix() + token + cookie_attrs() + dec_int(max_age)
}

/// Builds the `Set-Cookie` value that transports `token`, valid for
/// `max_age` seconds: path `/`, `HttpOnly`, `SameSite=Lax`. A zero or
/// negative `max_age` is the conventional way to clear the cookie.
pub fn create_token_cookie(token: &[u8], max_age: i64) -> (r: Vec<u8>)
    requires
        max_age > i64::MIN,
    ensures
        r@ == spec_cookie(token@, max_age as int),
{
    let mut out: Vec<u8> = Vec::new();
    let prefix: [u8; 6] = [116, 111, 107, 101, 110, 61];
    push_all(&mut out, &prefix);
    proof {
        assert(prefix@ =~= cookie_prefix());
    }
    push_all(&mut out, token);
    let attrs: [u8; 42] = [
        59, 32, 80, 97, 116, 104, 61, 47, 59, 32, 72, 116, 116, 112, 79, 110, 108, 121, 59, 32, 83,
        97, 109, 101, 83, 105, 116, 101, 61, 76, 97, 120, 59, 32, 77, 97, 120, 45, 65, 103, 101, 61,
    ];
    push_all(&mut out, &attrs);
    proof {
        assert(attrs@ =~= cookie_attrs());
    }
    if max_age < 0 {
        out.push(45);
        push_dec(&mut out, (-max_age) as u64);
    } else {
        push_dec(&mut out, max_age as u64);
    }
    proof {
        assert(out@ =~= spec_cookie(token@, max_age as int));
    }
    out
}

/// Round trip of the cookie boundary: the `Set-Cookie` value built for a
/// token holding no semicolon and no whitespace byte — every issued
/// token is such — parses back to exactly that token.
pub proof fn lemma_cookie_round_trip(token: Seq<u8>, max_age: int)
    requires
        forall|i: int|
            0 <= i < token.len() ==> (#[trigger] token[i]) != 59 && !is_cookie_space(token[i]),
    ensures
        spec_token_in_header(spec_cookie(token, max_age)) == Some(token),
{
    let h = spec_cookie(token, max_age);
    let k = 6 + token.len() as int;
    assert(forall|j: int| 0 <= j < 6 ==> h[j] == cookie_prefix()[j]);
    assert(forall|j: int| 6 <= j < k ==> h[j] == token[j - 6]);
    assert(h[k] == cookie_attrs()[0]);
    assert(h[k] == 59);
    assert(forall|j: int| 0 <= j < k ==> h[j] != 59);
    lemma_find(h, 59);
    assert(find(h, 59) == Some(k));
    let e = h.take(k);
    assert(e =~= cookie_prefix() + token);
    assert(e[5] == 61);
    assert(forall|j: int| 0 <= j < 5 ==> e[j] != 61);
    lemma_find(e, 61);
    assert(find(e, 61) == Some(5int));
    assert(e.take(5) =~= token_name());
    lemma_trim_front_is_skip(token_name(), 0);
    assert(token_name().skip(0) =~= token_name());
    lemma_trim_back_is_take(token_name(), 5);
    assert(token_name().take(5) =~= token_name());
    assert(trim(e.take(5)) == token_name());
    assert(e.skip(6) =~= token);
    lemma_trim_front_is_skip(token, 0);
    assert(token.skip(0) =~= token);
    lemma_trim_back_is_take(token, token.len() as int);
    assert(token.take(token.len() as int) =~= token);
    assert(trim(token) == token);
    assert(spec_entry_token_value(e) == Some(token));
}

/// Every byte of a decimal rendering is a digit character.
proof fn lemma_dec_digits_visible(n: nat)
    ensures
        forall|i: int|
            0 <= i < dec_digits(n).len() ==> 48 <= #[trigger] dec_digits(n)[i] && dec_digits(n)[i]
                <= 57,
    decreases n,
{
    if n >= 10 {
        lemma_dec_digits_visible(n / 10);
        let d = dec_digits(n / 10);
        assert forall|i: int| 0 <= i < dec_digits(n).len() implies 48 <= #[trigger] dec_digits(n)[i]
            && dec_digits(n)[i] <= 57 by {
            if i < d.len() {
                assert(dec_digits(n)[i] == d[i]);
            } else {
                assert(dec_digits(n)[i] == (48 + n % 10) as u8);
            }
        }
    }
}

/// The built `Set-Cookie` value is entirely visible ASCII whenever the
/// token it carries is, so the header gate never rejects it.
pub proof fn lemma_cookie_visible(token: Seq<u8>, max_age: int)
    requires
        forall|i: int| 0 <= i < token.len() ==> is_visible_header_byte(#[trigger] token[i]),
    ensures
        is_visible_header(spec_cookie(token, max_age)),
{
    let h = spec_cookie(token, max_age);
    let d = dec_int(max_age);
    if max_age < 0 {
        lemma_dec_digits_visible((-max_age) as nat);
        assert forall|i: int| 0 <= i < d.len() implies is_visible_header_byte(#[trigger] d[i]) by {
            if i > 0 {
                assert(d[i] == dec_digits((-max_age) as nat)[i - 1]);
            }
        }
    } else {
        lemma_dec_digits_visible(max_age as nat);
    }
    let t = token.len() as int;
    assert forall|j: int| 0 <= j < h.len() implies is_visible_header_byte(#[trigger] h[j]) by {
        if j < 6 {
            assert(h[j] == cookie_prefix()[j]);
        } else if j < 6 + t {
            assert(h[j] == token[j - 6]);
        } else if j < 48 + t {
            assert(h[j] == cookie_attrs()[j - 6 - t]);
        } else {
            assert(h[j] == d[j - 48 - t]);
        }
    }
}

} // verus!
