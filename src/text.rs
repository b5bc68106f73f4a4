//! The zip-code token and the request URL built from it.
use vstd::prelude::*;
use vstd::string::*;

verus! {

/// The endpoint of the public lookup service.
pub const ZIP_URL: &'static str = "https://zipcloud.ibsnet.co.jp/api/search";

/// The characters with Unicode's White_Space property.
pub open spec fn white_space(c: char) -> bool {
    ('\u{9}' <= c && c <= '\u{d}') || c == ' ' || c == '\u{85}' || c == '\u{a0}'
        || c == '\u{1680}' || ('\u{2000}' <= c && c <= '\u{200a}') || c == '\u{2028}'
        || c == '\u{2029}' || c == '\u{202f}' || c == '\u{205f}' || c == '\u{3000}'
}

/// `s` with its leading white space removed.
pub open spec fn trim_front(s: Seq<char>) -> Seq<char>
    decreases s.len(),
{
    if s.len() > 0 && white_space(s[0]) {
        trim_front(s.drop_first())
    } else {
        s
    }
}

/// `s` with its trailing white space removed.
pub open spec fn trim_back(s: Seq<char>) -> Seq<char>
    decreases s.len(),
{
    if s.len() > 0 && white_space(s.last()) {
        trim_back(s.drop_last())
    } else {
        s
    }
}

/// `s` with white space removed at both ends.
pub open spec fn trimmed(s: Seq<char>) -> Seq<char> {
    trim_back(trim_front(s))
}

/// The query that carries the zip code.
pub open spec fn query_prefix() -> Seq<char> {
    seq!['?', 'z', 'i', 'p', 'c', 'o', 'd', 'e', '=']
}

/// The URL asking `base` about the zip code `zip`.
pub open spec fn url_of(base: Seq<char>, zip: Seq<char>) -> Seq<char> {
    base + query_prefix() + zip
}

/// True when no character of `s` is white space.
pub open spec fn no_white_space(s: Seq<char>) -> bool {
    forall|i: int| 0 <= i < s.len() ==> !white_space(#[trigger] s[i])
}

/// True when every character of `s` is white space.
pub open spec fn all_white_space(s: Seq<char>) -> bool {
    forall|i: int| 0 <= i < s.len() ==> white_space(#[trigger] s[i])
}

/// True when `c` has Unicode's White_Space property.
fn is_white_space(c: char) -> (r: bool)
    ensures
        r == white_space(c),
{
    ('\u{9}' <= c && c <= '\u{d}') || c == ' ' || c == '\u{85}' || c == '\u{a0}'
        || c == '\u{1680}' || ('\u{2000}' <= c && c <= '\u{200a}') || c == '\u{2028}'
        || c == '\u{2029}' || c == '\u{202f}' || c == '\u{205f}' || c == '\u{3000}'
}

/// The zip-code token in a line of input: the line without white space at
/// either end.
pub fn trim_zip_code(line: &str) -> (r: String)
    ensures
        r@ == trimmed(line@),
{
    let n = line.unicode_len();
    let mut lo: usize = 0;
    assert(line@.subrange(0, n as int) =~= line@);
    while lo < n && is_white_space(line.get_char(lo))
        invariant
            lo <= n,
            n == line@.len(),
            trim_front(line@) == trim_front(line@.subrange(lo as int, n as int)),
        decreases n - lo,
    {
        let ghost rest = line@.subrange(lo as int, n as int);
        assert(rest.drop_first() =~= line@.subrange(lo + 1, n as int));
        lo = lo + 1;
    }
    proof {
        let rest = line@.subrange(lo as int, n as int);
        if lo < n {
            assert(!white_space(rest[0]));
        }
        assert(trim_front(line@) == rest);
    }
    let mut hi: usize = n;
    while hi > lo && is_white_space(line.get_char(hi - 1))
        invariant
            lo <= hi <= n,
            n == line@.len(),
            trimmed(line@) == trim_back(line@.subrange(lo as int, hi as int)),
        decreases hi,
    {
        let ghost mid = line@.subrange(lo as int, hi as int);
        assert(mid.drop_last() =~= line@.subrange(lo as int, hi - 1));
        hi = hi - 1;
    }
    proof {
        let mid = line@.subrange(lo as int, hi as int);
        if hi > lo {
            assert(!white_space(mid.last()));
        }
        assert(trimmed(line@) == mid);
    }
    String::from_str(line.substring_char(lo, hi))
}

/// The URL asking `base` about the zip code `zip_code`, which is put in as
/// it stands.
pub fn zip_url(base: &str, zip_code: &str) -> (r: String)
    ensures
        r@ == url_of(base@, zip_code@),
{
    let mut r = String::from_str(base);
    let query = "?zipcode=";
    proof {
        reveal_strlit("?zipcode=");
        assert(query@ =~= query_prefix());
    }
    r.append(query);
    r.append(zip_code);
    r
}

/// The URL asking `base` about the zip code typed as `line`.
pub fn request_url(base: &str, line: &str) -> (r: String)
    ensures
        r@ == url_of(base@, trimmed(line@)),
{
    let zip_code = trim_zip_code(line);
    zip_url(base, zip_code.as_str())
}

proof fn lemma_trim_front_skips(p: Seq<char>, r: Seq<char>)
    requires
        all_white_space(p),
    ensures
        trim_front(p + r) == trim_front(r),
    decreases p.len(),
{
    if p.len() > 0 {
        assert((p + r)[0] == p[0]);
        assert((p + r).drop_first() =~= p.drop_first() + r);
        lemma_trim_front_skips(p.drop_first(), r);
    } else {
        assert(p + r =~= r);
    }
}

proof fn lemma_trim_back_skips(r: Seq<char>, q: Seq<char>)
    requires
        all_white_space(q),
    ensures
        trim_back(r + q) == trim_back(r),
    decreases q.len(),
{
    if q.len() > 0 {
        assert((r + q).last() == q.last());
        assert((r + q).drop_last() =~= r + q.drop_last());
        lemma_trim_back_skips(r, q.drop_last());
    } else {
        assert(r + q =~= r);
    }
}

/// A token free of white space, with any white space before and after it,
/// trims to the token itself, so the request URL carries it verbatim.
pub proof fn lemma_padded_token_url(
    base: Seq<char>,
    pre: Seq<char>,
    token: Seq<char>,
    post: Seq<char>,
)
    requires
        all_white_space(pre),
        no_white_space(token),
        all_white_space(post),
    ensures
        trimmed(pre + token + post) == token,
        url_of(base, trimmed(pre + token + post)) == url_of(base, token),
{
    let rest = token + post;
    assert(pre + token + post =~= pre + rest);
    lemma_trim_front_skips(pre, rest);
    if token.len() > 0 {
        assert(rest[0] == token[0]);
        assert(trim_front(rest) == rest);
        lemma_trim_back_skips(token, post);
        assert(token.last() == token[token.len() - 1]);
        assert(trim_back(token) == token);
    } else {
        assert(rest =~= Seq::<char>::empty() + post);
        lemma_trim_front_skips(post, Seq::<char>::empty());
        assert(post + Seq::<char>::empty() =~= post);
        assert(trim_front(rest) =~= Seq::<char>::empty());
        assert(token =~= Seq::<char>::empty());
    }
}

/// A token free of white space is its own zip code.
pub proof fn lemma_plain_token_url(base: Seq<char>, token: Seq<char>)
    requires
        no_white_space(token),
    ensures
        trimmed(token) == token,
        url_of(base, trimmed(token)) == url_of(base, token),
{
    let e = Seq::<char>::empty();
    assert(e + token + e =~= token);
    lemma_padded_token_url(base, e, token, e);
}

} // verus!
