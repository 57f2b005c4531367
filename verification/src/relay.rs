//! The address of the signaling server, with the token that opens it.

use vstd::prelude::*;
use vstd::string::*;
use vstd::utf8::*;

verus! {

/// An address of the crate `url`.
#[verifier::external_type_specification]
#[verifier::external_body]
pub struct ExUrl(url::Url);

/// The reason why a text is no address to the crate `url`.
#[verifier::external_type_specification]
#[verifier::external_body]
pub struct ExParseError(url::ParseError);

/// The text of an address: what stands before its query, its query and its fragment.
pub struct UrlView {
    pub base: Seq<char>,
    pub query: Option<Seq<char>>,
    pub fragment: Option<Seq<char>>,
}

impl UrlView {
    /// The text of the address up to its fragment.
    pub open spec fn front(self) -> Seq<char> {
        match self.query {
            Some(q) => self.base + "?"@ + q,
            None => self.base,
        }
    }

    /// The text of the address as a whole.
    pub open spec fn text(self) -> Seq<char> {
        match self.fragment {
            Some(f) => self.front() + "#"@ + f,
            None => self.front(),
        }
    }

    /// The address with one more pair at the end of its query.
    pub open spec fn with_pair(self, pair: Seq<char>) -> UrlView {
        UrlView {
            query: Some(
                match self.query {
                    Some(q) => if q.len() > 0 {
                        q + "&"@ + pair
                    } else {
                        pair
                    },
                    None => pair,
                },
            ),
            ..self
        }
    }

    /// Whether 32 bits hold the places at which the query and the fragment begin, once a pair
    /// has been added: the end of an address that gets its first query, and the end of the new
    /// query where a fragment follows.
    pub open spec fn counts(self, pair: Seq<char>) -> bool {
        &&& self.query is None ==> encode_utf8(self.front()).len() <= u32::MAX
        &&& self.fragment is Some ==> encode_utf8(self.with_pair(pair).front()).len() <= u32::MAX
    }
}

/// What a `url::Url` is, as text.
pub uninterp spec fn url_model(u: url::Url) -> UrlView;

/// The address that `url::Url::parse` reads from a text, or what it says of a text that is none.
pub uninterp spec fn parsed_url(text: Seq<char>) -> Result<UrlView, Seq<char>>;

/// What a `url::ParseError` says.
pub uninterp spec fn url_error_text(e: url::ParseError) -> Seq<char>;

/// Whether a character stands for itself in a query that is written in the manner of web forms.
pub open spec fn stands_for_itself(c: char) -> bool {
    ||| '0' <= c <= '9'
    ||| 'A' <= c <= 'Z'
    ||| 'a' <= c <= 'z'
    ||| c == '*'
    ||| c == '-'
    ||| c == '.'
    ||| c == '_'
}

/// Whether every character of a text stands for itself in a query.
pub open spec fn needs_no_encoding(s: Seq<char>) -> bool {
    forall|i: int| 0 <= i < s.len() ==> stands_for_itself(#[trigger] s[i])
}

/// A digit to the base of 16.
pub open spec fn hex_digit(d: nat) -> char {
    if d < 10 {
        ('0' as nat + d) as char
    } else {
        ('A' as nat + d - 10) as char
    }
}

/// A byte as it stands in a query that is written in the manner of web forms: as itself, as a
/// plus sign for a space, or as a percent sign and two digits to the base of 16.
pub open spec fn form_byte(b: u8) -> Seq<char> {
    if stands_for_itself(b as char) {
        seq![b as char]
    } else if b as char == ' ' {
        seq!['+']
    } else {
        seq!['%', hex_digit((b / 16) as nat), hex_digit((b % 16) as nat)]
    }
}

/// Bytes as they stand in a query.
pub open spec fn form_bytes(bytes: Seq<u8>) -> Seq<char>
    decreases bytes.len(),
{
    if bytes.len() == 0 {
        Seq::empty()
    } else {
        form_bytes(bytes.drop_last()) + form_byte(bytes.last())
    }
}

/// A text as it stands in a query: the bytes of its UTF-8 encoding, written in the manner of
/// web forms.
pub open spec fn form_encoded(s: Seq<char>) -> Seq<char> {
    form_bytes(encode_utf8(s))
}

/// The pair of a name and a value as it stands in a query.
pub open spec fn encoded_pair(name: Seq<char>, value: Seq<char>) -> Seq<char> {
    form_encoded(name) + "="@ + form_encoded(value)
}

/// Calls `url::Url::parse`. The contract names the address, and what the error says.
#[verifier::external_body]
fn parse_url(text: &str) -> (r: Result<url::Url, url::ParseError>)
    ensures
        r is Ok <==> parsed_url(text@) is Ok,
        r matches Ok(u) ==> parsed_url(text@)->Ok_0 == url_model(u),
        r matches Err(e) ==> parsed_url(text@)->Err_0 == url_error_text(e),
{
    url::Url::parse(text)
}

/// Calls `to_string` of `url::ParseError`. The contract names the text.
#[verifier::external_body]
fn parse_error_text(e: &url::ParseError) -> (r: String)
    ensures
        r@ == url_error_text(*e),
{
    e.to_string()
}

/// Calls `as_str` of `url::Url`. The contract says that the text is made of the address's
/// parts.
#[verifier::external_body]
fn url_text(u: &url::Url) -> (r: String)
    ensures
        r@ == url_model(*u).text(),
{
    u.as_str().to_owned()
}

/// Calls `query` of `url::Url`. The contract says that it gives the address's query.
#[verifier::external_body]
fn url_query(u: &url::Url) -> (r: Option<String>)
    ensures
        r.deep_view() == url_model(*u).query,
{
    match u.query() {
        Some(q) => Some(q.to_owned()),
        None => None,
    }
}

/// Calls `fragment` of `url::Url`. The contract says that it gives the address's fragment.
#[verifier::external_body]
fn url_fragment(u: &url::Url) -> (r: Option<String>)
    ensures
        r.deep_view() == url_model(*u).fragment,
{
    match u.fragment() {
        Some(f) => Some(f.to_owned()),
        None => None,
    }
}

/// Calls `append_pair` on `query_pairs_mut` of `url::Url`. The contract says that the pair goes
/// to the end of the query, its name and its value written in the manner of web forms. The call
/// panics where 32 bits do not hold the places that it writes down, so it is made only where
/// they do.
#[verifier::external_body]
fn append_pair(u: url::Url, name: &str, value: &str) -> (r: url::Url)
    requires
        url_model(u).counts(encoded_pair(name@, value@)),
    ensures
        url_model(r) == url_model(u).with_pair(encoded_pair(name@, value@)),
{
    let mut u = u;
    u.query_pairs_mut().append_pair(name, value);
    u
}

proof fn lemma_encode_concat(a: Seq<char>, b: Seq<char>)
    ensures
        encode_utf8(a + b) == encode_utf8(a) + encode_utf8(b),
    decreases a.len(),
{
    if a.len() == 0 {
        assert(a + b =~= b);
        assert(encode_utf8(a + b) =~= encode_utf8(a) + encode_utf8(b));
    } else {
        lemma_encode_concat(a.drop_first(), b);
        assert((a + b).drop_first() =~= a.drop_first() + b);
        assert((a + b)[0] == a[0]);
        assert(encode_utf8(a + b) =~= encode_utf8(a) + encode_utf8(b));
    }
}

proof fn lemma_form_ascii(bytes: Seq<u8>)
    ensures
        is_ascii_chars(form_bytes(bytes)),
        form_bytes(bytes).len() >= bytes.len(),
        encode_utf8(form_bytes(bytes)).len() == form_bytes(bytes).len(),
    decreases bytes.len(),
{
    if bytes.len() > 0 {
        let last = bytes.last();
        lemma_form_ascii(bytes.drop_last());
        assert(last / 16 < 16 && last % 16 < 16);
        let f = form_byte(last);
        assert forall|i: int| 0 <= i < f.len() implies '\0' <= #[trigger] f[i] <= '\u{7f}' by {}
        let front = form_bytes(bytes.drop_last());
        assert forall|i: int| 0 <= i < form_bytes(bytes).len() implies '\0' <= #[trigger] form_bytes(
            bytes,
        )[i] <= '\u{7f}' by {
            if i < front.len() {
                assert(form_bytes(bytes)[i] == front[i]);
            } else {
                assert(form_bytes(bytes)[i] == f[i - front.len()]);
            }
        }
    }
    is_ascii_chars_encode_utf8(form_bytes(bytes));
}

proof fn lemma_form_identity(bytes: Seq<u8>, s: Seq<char>)
    requires
        needs_no_encoding(s),
        bytes.len() == s.len(),
        forall|i: int| 0 <= i < s.len() ==> #[trigger] bytes[i] == s[i] as u8,
    ensures
        form_bytes(bytes) == s,
    decreases s.len(),
{
    if s.len() > 0 {
        assert(stands_for_itself(s[s.len() - 1]));
        assert forall|i: int| 0 <= i < s.drop_last().len() implies stands_for_itself(
            #[trigger] s.drop_last()[i],
        ) by {
            assert(s.drop_last()[i] == s[i]);
        }
        lemma_form_identity(bytes.drop_last(), s.drop_last());
        assert(bytes[bytes.len() - 1] == s[s.len() - 1] as u8);
        assert(form_byte(bytes.last()) =~= seq![s.last()]);
    }
    assert(form_bytes(bytes) =~= s);
}

/// A text of letters, digits and the marks `*-._` stands in a query as it is.
pub proof fn law_plain_text_stands_for_itself(s: Seq<char>)
    requires
        needs_no_encoding(s),
    ensures
        form_encoded(s) == s,
{
    assert(is_ascii_chars(s)) by {
        assert forall|i: int| 0 <= i < s.len() implies '\0' <= #[trigger] s[i] <= '\u{7f}' by {
            assert(stands_for_itself(s[i]));
        }
    }
    is_ascii_chars_encode_utf8(s);
    lemma_form_identity(encode_utf8(s), s);
}

proof fn lemma_form_grows(bytes: Seq<u8>, k: int)
    requires
        0 <= k <= bytes.len(),
    ensures
        form_bytes(bytes.take(k)).len() <= form_bytes(bytes).len(),
    decreases bytes.len() - k,
{
    if k < bytes.len() {
        lemma_form_grows(bytes, k + 1);
        assert(bytes.take(k + 1).drop_last() =~= bytes.take(k));
    } else {
        assert(bytes.take(k) =~= bytes);
    }
}

/// The number of characters that a text takes in a query, unless it is more than `max`.
fn form_len(s: &str, max: u64) -> (r: Option<u64>)
    requires
        max <= u32::MAX,
    ensures
        r is Some <==> form_encoded(s@).len() <= max,
        r matches Some(n) ==> n == form_encoded(s@).len(),
{
    let bytes = s.as_bytes();
    let mut n: u64 = 0;
    let mut i: usize = 0;
    while i < bytes.len()
        invariant
            i <= bytes@.len(),
            bytes@ == encode_utf8(s@),
            n == form_bytes(bytes@.take(i as int)).len(),
            n <= max <= u32::MAX,
        decreases bytes@.len() - i,
    {
        let b = bytes[i];
        proof {
            assert(bytes@.take(i + 1).drop_last() =~= bytes@.take(i as int));
        }
        if (48 <= b && b <= 57) || (65 <= b && b <= 90) || (97 <= b && b <= 122) || b == 42 || b
            == 45 || b == 46 || b == 95 || b == 32 {
            n += 1;
        } else {
            n += 3;
        }
        i += 1;
        assert(n == form_bytes(bytes@.take(i as int)).len());
        if n > max {
            proof {
                lemma_form_grows(bytes@, i as int);
            }
            return None;
        }
    }
    assert(bytes@.take(i as int) =~= bytes@);
    Some(n)
}

/// Why there is no address to connect to.
#[derive(Debug)]
pub enum RelayError {
    /// The domain is no address, for a reason.
    Invalid { reason: String },
    /// 32 bits do not hold the places of the parts of the address.
    TooLong,
}

/// The address to connect to, given the address that was read from the domain.
pub open spec fn with_token(domain: UrlView, token: Seq<char>) -> Seq<char> {
    domain.with_pair(encoded_pair("token"@, token)).text()
}

/// Says whether 32 bits hold the places of the parts of an address with a token.
fn has_room(u: &url::Url, token: &str) -> (r: bool)
    ensures
        r == url_model(*u).counts(encoded_pair("token"@, token@)),
{
    let ghost m = url_model(*u);
    let ghost pair = encoded_pair("token"@, token@);
    let text = url_text(u);
    let query = url_query(u);
    let fragment = url_fragment(u);
    proof {
        reveal_strlit("?");
        reveal_strlit("&");
        reveal_strlit("#");
        reveal_strlit("=");
        reveal_strlit("token");
        is_ascii_chars_encode_utf8("?"@);
        is_ascii_chars_encode_utf8("&"@);
        is_ascii_chars_encode_utf8("#"@);
        is_ascii_chars_encode_utf8("="@);
        law_plain_text_stands_for_itself("token"@);
        is_ascii_chars_encode_utf8("token"@);
        lemma_form_ascii(encode_utf8(token@));
        lemma_encode_concat("token"@ + "="@, form_encoded(token@));
        lemma_encode_concat("token"@, "="@);
        assert(encode_utf8(pair).len() == 6 + form_encoded(token@).len());
        if let Some(f) = m.fragment {
            lemma_encode_concat(m.front() + "#"@, f);
            lemma_encode_concat(m.front(), "#"@);
        }
        match m.query {
            Some(q) => {
                lemma_encode_concat(m.base + "?"@, q);
                lemma_encode_concat(m.base + "?"@, q + "&"@ + pair);
                lemma_encode_concat(q + "&"@, pair);
                lemma_encode_concat(q, "&"@);
                lemma_encode_concat(m.base + "?"@, pair);
                if q.len() == 0 {
                    assert(encode_utf8(q).len() == 0);
                }
            },
            None => {
                lemma_encode_concat(m.base + "?"@, pair);
                lemma_encode_concat(m.base, "?"@);
            },
        }
    }
    let front: usize = match &fragment {
        Some(f) => text.as_str().as_bytes().len() - 1 - f.as_str().as_bytes().len(),
        None => text.as_str().as_bytes().len(),
    };
    let limit: u64 = u32::MAX as u64;
    if front as u64 > limit {
        return query.is_some() && fragment.is_none();
    }
    if fragment.is_none() {
        return true;
    }
    let between: u64 = match &query {
        Some(q) => {
            if q.as_str().is_empty() {
                0
            } else {
                1
            }
        },
        None => 1,
    };
    match form_len(token, limit) {
        Some(n) => front as u64 + between + 6 + n <= limit,
        None => false,
    }
}

/// The address at which the signaling server takes a node that has a token.
pub fn relay_url(domain: &str, token: &str) -> (r: Result<String, RelayError>)
    ensures
        match parsed_url(domain@) {
            Ok(u) => if u.counts(encoded_pair("token"@, token@)) {
                &&& r is Ok
                &&& r->Ok_0@ == with_token(u, token@)
                &&& needs_no_encoding(token@) ==> r->Ok_0@ == u.with_pair(
                    "token="@ + token@,
                ).text()
            } else {
                r matches Err(RelayError::TooLong)
            },
            Err(m) => r matches Err(RelayError::Invalid { reason }) && reason@ == m,
        },
{
    match parse_url(domain) {
        Ok(u) => {
            if !has_room(&u, token) {
                return Err(RelayError::TooLong);
            }
            proof {
                reveal_strlit("token");
                reveal_strlit("token=");
                reveal_strlit("=");
                assert("token="@ =~= "token"@ + "="@);
                assert("token="@ + token@ =~= "token"@ + "="@ + token@);
                law_plain_text_stands_for_itself("token"@);
                if needs_no_encoding(token@) {
                    law_plain_text_stands_for_itself(token@);
                }
            }
            Ok(url_text(&append_pair(u, "token", token)))
        },
        Err(e) => Err(RelayError::Invalid { reason: parse_error_text(&e) }),
    }
}

/// The value of a digit to the base of 16, of the kind that stands in a query.
pub open spec fn hex_value(c: char) -> int {
    if '0' <= c <= '9' {
        c as int - '0' as int
    } else if 'A' <= c <= 'F' {
        c as int - 'A' as int + 10
    } else {
        -1
    }
}

/// Letters, digits and the marks `*-._` stand for themselves, a space is a plus sign, and any
/// other byte is a percent sign and its two digits to the base of 16; bytes are written one after
/// the other.
pub proof fn law_form_of_bytes(bytes: Seq<u8>, b: u8)
    ensures
        form_bytes(Seq::empty()) == Seq::<char>::empty(),
        form_bytes(bytes.push(b)) == form_bytes(bytes) + form_byte(b),
        ({
            let c = b as char;
            let plain = '0' <= c <= '9' || 'A' <= c <= 'Z' || 'a' <= c <= 'z' || c == '*' || c == '-'
                || c == '.' || c == '_';
            &&& plain ==> form_byte(b) == seq![c]
            &&& c == ' ' ==> form_byte(b) == seq!['+']
            &&& !plain && c != ' ' ==> form_byte(b).len() == 3 && form_byte(b)[0] == '%'
                && hex_value(form_byte(b)[1]) >= 0 && hex_value(form_byte(b)[2]) >= 0 && hex_value(
                form_byte(b)[1],
            ) * 16 + hex_value(form_byte(b)[2]) == b
        }),
{
    assert(bytes.push(b).drop_last() =~= bytes);
    assert(b / 16 < 16 && b % 16 < 16 && (b / 16) * 16 + b % 16 == b);
}

/// The token goes to the end of the query of the address, behind what stands there, and before
/// the fragment; all else stays.
pub proof fn law_where_the_token_goes(
    base: Seq<char>,
    query: Seq<char>,
    fragment: Seq<char>,
    token: Seq<char>,
)
    ensures
        ({
            let pair = "token="@ + form_bytes(encode_utf8(token));
            &&& with_token(UrlView { base, query: None, fragment: None }, token) == base + "?"@
                + pair
            &&& with_token(UrlView { base, query: None, fragment: Some(fragment) }, token) == base
                + "?"@ + pair + "#"@ + fragment
            &&& query.len() > 0 ==> with_token(
                UrlView { base, query: Some(query), fragment: None },
                token,
            ) == base + "?"@ + (query + "&"@ + pair)
            &&& query.len() > 0 ==> with_token(
                UrlView { base, query: Some(query), fragment: Some(fragment) },
                token,
            ) == base + "?"@ + (query + "&"@ + pair) + "#"@ + fragment
            &&& query.len() == 0 ==> with_token(
                UrlView { base, query: Some(query), fragment: None },
                token,
            ) == base + "?"@ + pair
            &&& query.len() == 0 ==> with_token(
                UrlView { base, query: Some(query), fragment: Some(fragment) },
                token,
            ) == base + "?"@ + pair + "#"@ + fragment
        }),
{
    reveal_strlit("token");
    reveal_strlit("token=");
    reveal_strlit("=");
    law_plain_text_stands_for_itself("token"@);
    assert("token="@ =~= "token"@ + "="@);
    assert(encoded_pair("token"@, token) =~= "token="@ + form_bytes(encode_utf8(token)));
}

/// An address is its base, its query behind a question mark, and its fragment behind a number
/// sign.
pub proof fn law_parts_of_an_address(base: Seq<char>, query: Seq<char>, fragment: Seq<char>)
    ensures
        (UrlView { base, query: None, fragment: None }).text() == base,
        (UrlView { base, query: Some(query), fragment: None }).text() == base + "?"@ + query,
        (UrlView { base, query: None, fragment: Some(fragment) }).text() == base + "#"@ + fragment,
        (UrlView { base, query: Some(query), fragment: Some(fragment) }).text() == base + "?"@
            + query + "#"@ + fragment,
{
}

/// The places in an address count where 32 bits hold the length of what comes before each of
/// them: of the base before the first query, and of the base with the whole new query before a
/// fragment.
pub proof fn law_places_in_an_address(
    base: Seq<char>,
    query: Seq<char>,
    fragment: Seq<char>,
    pair: Seq<char>,
)
    ensures
        (UrlView { base, query: Some(query), fragment: None }).counts(pair),
        (UrlView { base, query: None, fragment: None }).counts(pair) <==> encode_utf8(base).len()
            < 0x1_0000_0000,
        (UrlView { base, query: None, fragment: Some(fragment) }).counts(pair) <==> encode_utf8(
            base,
        ).len() < 0x1_0000_0000 && encode_utf8(base + "?"@ + pair).len() < 0x1_0000_0000,
        query.len() > 0 ==> ((UrlView {
            base,
            query: Some(query),
            fragment: Some(fragment),
        }).counts(pair) <==> encode_utf8(base + "?"@ + (query + "&"@ + pair)).len()
            < 0x1_0000_0000),
        query.len() == 0 ==> ((UrlView {
            base,
            query: Some(query),
            fragment: Some(fragment),
        }).counts(pair) <==> encode_utf8(base + "?"@ + pair).len() < 0x1_0000_0000),
{
}

} // verus!
