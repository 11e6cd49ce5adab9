use vstd::prelude::*;

use crate::routing::{lemma_pair_views_push, pair_views};

verus! {

/// A request for `fetch`, with its options settled.
#[derive(Debug)]
pub struct FetchRequest {
    pub url: String,
    pub method: String,
    pub headers: Vec<(String, String)>,
    pub body: Option<String>,
}

/// A character allowed in an HTTP method (a token character).
pub open spec fn is_token_char(c: char) -> bool {
    ||| c == '!'
    ||| ('#' <= c && c <= '\'')
    ||| c == '*'
    ||| c == '+'
    ||| c == '-'
    ||| c == '.'
    ||| ('0' <= c && c <= '9')
    ||| ('A' <= c && c <= 'Z')
    ||| ('^' <= c && c <= 'z')
    ||| c == '|'
    ||| c == '~'
}

pub open spec fn is_method(m: Seq<char>) -> bool {
    m.len() > 0 && forall|i: int| 0 <= i < m.len() ==> is_token_char(#[trigger] m[i])
}

/// A character allowed in a header value: a tab, or any character from the
/// space upwards but DEL.
pub open spec fn is_header_value_char(c: char) -> bool {
    c == '\t' || ((c as u32) >= 32 && (c as u32) != 127)
}

pub open spec fn is_header_value(v: Seq<char>) -> bool {
    forall|i: int| 0 <= i < v.len() ==> is_header_value_char(#[trigger] v[i])
}

/// The longest header name the HTTP client takes.
pub const MAX_HEADER_NAME_LEN: usize = 65535;

/// A header name the HTTP client takes: one to `MAX_HEADER_NAME_LEN` token
/// characters (upper-case letters are taken and lowered).
pub open spec fn header_name_valid(name: Seq<char>) -> bool {
    is_method(name) && name.len() <= MAX_HEADER_NAME_LEN
}

/// The message for a method that is not a valid HTTP method.
pub open spec fn invalid_method_message(m: Seq<char>) -> Seq<char> {
    "t.fetch: invalid method: "@ + m
}

/// The headers that are sent: those with a valid name and value, in order.
pub open spec fn sent_headers(h: Seq<(Seq<char>, Seq<char>)>) -> Seq<(Seq<char>, Seq<char>)>
    decreases h.len(),
{
    if h.len() == 0 {
        Seq::empty()
    } else {
        let rest = sent_headers(h.drop_last());
        let (k, v) = h.last();
        if header_name_valid(k) && is_header_value(v) {
            rest.push(h.last())
        } else {
            rest
        }
    }
}

/// Relies on `reqwest::Method::from_bytes`: it accepts exactly the non-empty
/// strings made of token characters.
#[verifier::external_body]
fn method_accepted(m: &str) -> (r: bool)
    ensures
        r == is_method(m@),
{
    reqwest::Method::from_bytes(m.as_bytes()).is_ok()
}

/// Relies on `reqwest::header::HeaderName::from_bytes`: it accepts exactly the
/// names of one to 65535 bytes that are all token characters (its table maps
/// every other byte to 0, and upper-case letters to lower-case).
#[verifier::external_body]
fn header_name_accepted(name: &str) -> (r: bool)
    ensures
        r == header_name_valid(name@),
{
    reqwest::header::HeaderName::from_bytes(name.as_bytes()).is_ok()
}

/// Relies on `reqwest::header::HeaderValue::from_str`: it accepts exactly the
/// strings whose bytes are tabs, or at least 32 and not 127.
#[verifier::external_body]
fn header_value_accepted(value: &str) -> (r: bool)
    ensures
        r == is_header_value(value@),
{
    reqwest::header::HeaderValue::from_str(value).is_ok()
}

/// Settles the options of `fetch(url, {method, headers, body})`: a missing
/// method is `GET`, an invalid one is refused with an error for the action,
/// and headers that the client would refuse are left out.
pub fn prepare_fetch(
    url: String,
    method: Option<String>,
    headers: Vec<(String, String)>,
    body: Option<String>,
) -> (r: Result<FetchRequest, String>)
    ensures
        r is Err <==> (method matches Some(m) && !is_method(m@)),
        r matches Err(e) ==> (method matches Some(m) && e@ == invalid_method_message(m@)),
        r matches Ok(req) ==> {
            &&& req.url == url
            &&& req.body == body
            &&& req.method@ == match method {
                Some(m) => m@,
                None => "GET"@,
            }
            &&& pair_views(req.headers@) == sent_headers(pair_views(headers@))
        },
{
    let chosen = match method {
        Some(m) => if method_accepted(m.as_str()) {
            m
        } else {
            let mut e = "t.fetch: invalid method: ".to_owned();
            e.append(m.as_str());
            return Err(e);
        },
        None => "GET".to_owned(),
    };
    let mut kept: Vec<(String, String)> = Vec::new();
    let mut i: usize = 0;
    assert(pair_views(headers@).take(0) =~= Seq::<(Seq<char>, Seq<char>)>::empty());
    assert(pair_views(kept@) =~= Seq::<(Seq<char>, Seq<char>)>::empty());
    while i < headers.len()
        invariant
            i <= headers@.len(),
            pair_views(kept@) == sent_headers(pair_views(headers@).take(i as int)),
        decreases headers@.len() - i,
    {
        let (k, v) = &headers[i];
        proof {
            assert(pair_views(headers@).take(i + 1).drop_last() =~= pair_views(headers@).take(
                i as int,
            ));
            assert(pair_views(headers@).take(i + 1).last() == (k@, v@));
        }
        if header_name_accepted(k.as_str()) && header_value_accepted(v.as_str()) {
            let pair = (k.clone(), v.clone());
            proof {
                lemma_pair_views_push(kept@, pair);
            }
            kept.push(pair);
        }
        i = i + 1;
    }
    assert(pair_views(headers@).take(headers@.len() as int) =~= pair_views(headers@));
    Ok(FetchRequest { url, method: chosen, headers: kept, body })
}

} // verus!
