//! Session ids and the `se_cid` client cookie.
use vstd::prelude::*;
use crate::crypto::{is_minted_cid, is_url_safe_char, mint_cid};
use crate::reply::is_header_value;
use crate::text::{
    chars_of, is_ws, opt_str_view, opt_view, range_pieces, split, split_ranges, string_of, trim,
    trim_bounds, trim_end, trim_start,
};

verus! {

/// A character of the session-id alphabet `23456789ABCDEFGHJKLMNPQRSTUVWXYZ`
/// (digits and capitals without the look-alikes 0, 1, I and O).
pub open spec fn is_session_id_char(c: char) -> bool {
    ('2' <= c && c <= '9') || ('A' <= c && c <= 'Z' && c != 'I' && c != 'O')
}

/// A well-formed session id: twelve characters of the session-id alphabet.
pub open spec fn is_valid_session_id(s: Seq<char>) -> bool {
    s.len() == 12 && forall|i: int| 0 <= i < s.len() ==> is_session_id_char(#[trigger] s[i])
}

/// The session-id alphabet, as the relay documents it.
pub open spec fn session_id_alphabet() -> Seq<char> {
    "23456789ABCDEFGHJKLMNPQRSTUVWXYZ"@
}

/// The session-id characters are exactly those of the alphabet
/// `23456789ABCDEFGHJKLMNPQRSTUVWXYZ`: each of its 32 characters is one, and every
/// session-id character is among them.
pub proof fn lemma_session_id_chars_are_the_alphabet(c: char)
    ensures
        session_id_alphabet().len() == 32,
        forall|i: int| 0 <= i < 32 ==> is_session_id_char(#[trigger] session_id_alphabet()[i]),
        is_session_id_char(c) <==> session_id_alphabet().contains(c),
{
    reveal_strlit("23456789ABCDEFGHJKLMNPQRSTUVWXYZ");
    let a = session_id_alphabet();
    assert(a.len() == 32);
    assert forall|i: int| 0 <= i < 32 implies is_session_id_char(#[trigger] a[i]) by {}
    if is_session_id_char(c) {
        let v = c as int;
        let i: int = if v <= '9' as int {
            v - '2' as int
        } else if v <= 'H' as int {
            8 + v - 'A' as int
        } else if v <= 'N' as int {
            16 + v - 'J' as int
        } else {
            21 + v - 'P' as int
        };
        assert(0 <= i < 32);
        assert(a[i] == c);
    }
}

/// Every twelve-character string over the alphabet `23456789ABCDEFGHJKLMNPQRSTUVWXYZ` is a
/// well-formed session id, and no other string is.
pub proof fn lemma_valid_session_ids_over_alphabet(s: Seq<char>)
    ensures
        is_valid_session_id(s) <==> (s.len() == 12 && forall|i: int|
            0 <= i < s.len() ==> session_id_alphabet().contains(#[trigger] s[i])),
{
    assert forall|i: int| 0 <= i < s.len() implies (is_session_id_char(#[trigger] s[i])
        <==> session_id_alphabet().contains(s[i])) by {
        lemma_session_id_chars_are_the_alphabet(s[i]);
    }
}

/// Whether `s` is a well-formed session id.
pub fn valid_session_id(s: &str) -> (r: bool)
    ensures
        r == is_valid_session_id(s@),
{
    let cs = chars_of(s);
    if cs.len() != 12 {
        return false;
    }
    let mut i: usize = 0;
    while i < 12
        invariant
            cs@ == s@,
            cs@.len() == 12,
            i <= 12,
            forall|j: int| 0 <= j < i ==> is_session_id_char(#[trigger] cs@[j]),
        decreases 12 - i,
    {
        let c = cs[i];
        if !(('2' <= c && c <= '9') || ('A' <= c && c <= 'Z' && c != 'I' && c != 'O')) {
            return false;
        }
        i = i + 1;
    }
    true
}

/// The attributes that follow the client id in the `Set-Cookie` header.
pub open spec fn cookie_attributes() -> Seq<char> {
    "; Path=/; Max-Age=86400; Secure; HttpOnly; SameSite=Lax"@
}

/// The `Set-Cookie` value that hands a client its id: a day-long, `Secure`, `HttpOnly`,
/// `SameSite=Lax` cookie named `se_cid`.
pub open spec fn cookie_header_spec(cid: Seq<char>) -> Seq<char> {
    "se_cid="@ + cid + cookie_attributes()
}

/// The `Set-Cookie` header value for client id `cid`.
pub fn cookie_header(cid: &str) -> (r: String)
    ensures
        r@ == cookie_header_spec(cid@),
{
    let mut r = "se_cid=".to_owned();
    r.append(cid);
    r.append("; Path=/; Max-Age=86400; Secure; HttpOnly; SameSite=Lax");
    r
}

/// The cookie name and `=` that start the client-id cookie.
pub open spec fn cid_prefix() -> Seq<char> {
    seq!['s', 'e', '_', 'c', 'i', 'd', '=']
}

/// The client id that one `;`-separated piece of a `Cookie` header carries, if any: the
/// trimmed piece must start with `se_cid=` and have a non-empty value after it.
pub open spec fn cid_of_piece(p: Seq<char>) -> Option<Seq<char>> {
    let t = trim(p);
    if t.len() > 7 && t.take(7) == cid_prefix() {
        Some(t.skip(7))
    } else {
        None
    }
}

/// The first client id among the pieces.
pub open spec fn first_cid(pieces: Seq<Seq<char>>) -> Option<Seq<char>>
    decreases pieces.len(),
{
    if pieces.len() == 0 {
        None
    } else if cid_of_piece(pieces[0]) is Some {
        cid_of_piece(pieces[0])
    } else {
        first_cid(pieces.drop_first())
    }
}

/// The client id in a `Cookie` header value.
pub open spec fn cid_in_cookie(cookie: Seq<char>) -> Option<Seq<char>> {
    first_cid(split(cookie, ';'))
}

/// The client id the request carries: from its `Cookie` header (`None` when the header is
/// absent or not visible ASCII).
pub open spec fn read_cid_spec(cookie: Option<Seq<char>>) -> Option<Seq<char>> {
    match cookie {
        Some(c) => cid_in_cookie(c),
        None => None,
    }
}

proof fn lemma_first_cid_skip(pieces: Seq<Seq<char>>, k: int)
    requires
        0 <= k < pieces.len(),
    ensures
        first_cid(pieces.skip(k)) == if cid_of_piece(pieces[k]) is Some {
            cid_of_piece(pieces[k])
        } else {
            first_cid(pieces.skip(k + 1))
        },
{
    assert(pieces.skip(k)[0] == pieces[k]);
    assert(pieces.skip(k).drop_first() =~= pieces.skip(k + 1));
}

/// The client id carried by a `Cookie` header value, as the first `se_cid=` entry with a
/// non-empty value.
pub fn read_cid(cookie: Option<&str>) -> (r: Option<String>)
    ensures
        opt_view(r) == read_cid_spec(opt_str_view(cookie)),
{
    let c = match cookie {
        Some(c) => c,
        None => return None,
    };
    let cs = chars_of(c);
    let ranges = split_ranges(&cs, ';');
    let ghost pieces = range_pieces(cs@, ranges@);
    assert(pieces.skip(0) =~= pieces);
    let mut k: usize = 0;
    while k < ranges.len()
        invariant
            k <= ranges@.len(),
            pieces == range_pieces(cs@, ranges@),
            pieces == split(c@, ';'),
            cs@ == c@,
            opt_str_view(cookie) == Some(c@),
            crate::text::ranges_within(ranges@, cs@.len()),
            first_cid(pieces.skip(k as int)) == cid_in_cookie(c@),
        decreases ranges@.len() - k,
    {
        let (from, to) = ranges[k];
        let (a, b) = trim_bounds(&cs, from, to);
        proof {
            lemma_first_cid_skip(pieces, k as int);
            assert(pieces[k as int] == cs@.subrange(from as int, to as int));
        }
        if b - a > 7 && cs[a] == 's' && cs[a + 1] == 'e' && cs[a + 2] == '_' && cs[a + 3] == 'c'
            && cs[a + 4] == 'i' && cs[a + 5] == 'd' && cs[a + 6] == '=' {
            let value = string_of(&cs, a + 7, b);
            proof {
                let t = cs@.subrange(a as int, b as int);
                assert(t.take(7) =~= cid_prefix());
                assert(t.skip(7) =~= cs@.subrange(a + 7, b as int));
            }
            return Some(value);
        }
        proof {
            let t = cs@.subrange(a as int, b as int);
            if t.len() > 7 && t.take(7) == cid_prefix() {
                assert(t.take(7)[0] == cs@[a as int]);
                assert(t.take(7)[1] == cs@[a + 1]);
                assert(t.take(7)[2] == cs@[a + 2]);
                assert(t.take(7)[3] == cs@[a + 3]);
                assert(t.take(7)[4] == cs@[a + 4]);
                assert(t.take(7)[5] == cs@[a + 5]);
                assert(t.take(7)[6] == cs@[a + 6]);
            }
        }
        k = k + 1;
    }
    assert(pieces.skip(k as int) =~= Seq::<Seq<char>>::empty());
    None
}

/// The `Set-Cookie` value for the join page: a cookie with a freshly minted client id
/// when the request carries none, nothing when it does.
pub fn join_page_cookie(cookie: Option<&str>) -> (r: Option<String>)
    ensures
        (r is Some) <==> read_cid_spec(opt_str_view(cookie)) is None,
        r matches Some(h) ==> exists|cid: Seq<char>|
            is_minted_cid(cid) && h@ == cookie_header_spec(cid),
        r matches Some(h) ==> is_header_value(h@),
{
    match read_cid(cookie) {
        Some(_) => None,
        None => {
            let cid = mint_cid();
            proof {
                lemma_url_safe_cookie_is_header_value(cid@);
            }
            Some(cookie_header(cid.as_str()))
        },
    }
}

} // verus!

verus! {

proof fn lemma_split_without_separator(s: Seq<char>, sep: char)
    requires
        forall|i: int| 0 <= i < s.len() ==> s[i] != sep,
    ensures
        split(s, sep) == seq![s],
    decreases s.len(),
{
    if s.len() > 0 {
        let p = s.drop_last();
        lemma_split_without_separator(p, sep);
        assert(p.push(s.last()) =~= s);
        assert(seq![p].update(0, p.push(s.last())) =~= seq![s]);
    } else {
        assert(s =~= Seq::<char>::empty());
    }
}

/// The client cookie reads back: a non-empty client id without `;` that does not end in
/// whitespace (every minted id is such), sent back as `se_cid=<id>`, is read as that
/// same id.
pub proof fn lemma_cookie_round_trip(cid: Seq<char>)
    requires
        cid.len() > 0,
        forall|i: int| 0 <= i < cid.len() ==> #[trigger] cid[i] != ';',
        !is_ws(cid.last()),
    ensures
        read_cid_spec(Some("se_cid="@ + cid)) == Some(cid),
{
    reveal_strlit("se_cid=");
    let t = "se_cid="@ + cid;
    assert("se_cid="@ =~= cid_prefix());
    assert forall|i: int| 0 <= i < t.len() implies t[i] != ';' by {
        if i >= 7 {
            assert(t[i] == cid[i - 7]);
        }
    }
    lemma_split_without_separator(t, ';');
    assert(t[0] == 's');
    assert(trim_start(t) == t);
    assert(t.last() == cid.last());
    assert(trim_end(t) == t);
    assert(t.take(7) =~= cid_prefix());
    assert(t.skip(7) =~= cid);
    assert(cid_of_piece(t) == Some(cid));
    assert(seq![t].drop_first() =~= Seq::<Seq<char>>::empty());
}

/// A client id of URL-safe Base64 characters (as every minted id is) makes a valid
/// `Set-Cookie` header value.
pub proof fn lemma_url_safe_cookie_is_header_value(cid: Seq<char>)
    requires
        forall|i: int| 0 <= i < cid.len() ==> is_url_safe_char(#[trigger] cid[i]),
    ensures
        is_header_value(cookie_header_spec(cid)),
{
    reveal_strlit("se_cid=");
    reveal_strlit("; Path=/; Max-Age=86400; Secure; HttpOnly; SameSite=Lax");
    let h = cookie_header_spec(cid);
    let head = "se_cid="@;
    let tail = cookie_attributes();
    assert forall|i: int| 0 <= i < h.len() implies (#[trigger] h[i] == '\t' || (' ' <= h[i]
        && h[i] != '\u{7f}')) by {
        if i < 7 {
            assert(h[i] == head[i]);
        } else if i < 7 + cid.len() {
            assert(h[i] == cid[i - 7]);
            assert(is_url_safe_char(cid[i - 7]));
        } else {
            assert(h[i] == tail[i - 7 - cid.len()]);
        }
    }
}

} // verus!
