use vstd::prelude::*;

use crate::text::{join, join_from, views};

verus! {

/// The name a log line carries: the running action's, or `init` while the
/// actions are being loaded.
pub open spec fn log_context(action: Option<Seq<char>>) -> Seq<char> {
    match action {
        Some(a) => a,
        None => "init"@,
    }
}

/// The text of `log(...)`: the action's name, then the arguments' texts
/// separated by single spaces.
pub fn log_message(action: Option<&str>, parts: &Vec<String>) -> (r: String)
    ensures
        r@ == "log("@ + log_context(
            match action {
                Some(a) => Some(a@),
                None => None,
            },
        ) + "): "@ + join(views(parts@), " "@),
{
    let mut m = "log(".to_owned();
    match action {
        Some(a) => m.append(a),
        None => m.append("init"),
    }
    m.append("): ");
    let joined = join_from(parts, 0, " ");
    assert(views(parts@).subrange(0, parts@.len() as int) =~= views(parts@));
    m.append(joined.as_str());
    m
}

/// The report of an action's uncaught error: the action, then the error's text.
pub fn format_js_error(message: &str, action: &str) -> (r: String)
    ensures
        r@ == "Action: "@ + action@ + "\n"@ + message@,
{
    let mut m = "Action: ".to_owned();
    m.append(action);
    m.append("\n");
    m.append(message);
    m
}

/// The text that bytes decode to, with each invalid sequence replaced.
pub uninterp spec fn utf8_lossy(b: Seq<u8>) -> Seq<char>;

/// Relies on `String::from_utf8_lossy`: the text depends on the bytes alone,
/// and valid UTF-8 decodes unchanged.
#[verifier::external_body]
fn lossy_text(b: &[u8]) -> (r: String)
    ensures
        r@ == utf8_lossy(b@),
        vstd::utf8::valid_utf8(b@) ==> r@ == vstd::utf8::decode_utf8(b@),
{
    String::from_utf8_lossy(b).into_owned()
}

/// `decodeUtf8(buffer)`: the buffer's bytes as text, invalid sequences
/// replaced rather than refused; no buffer gives `None` (null).
pub fn decode_buffer(buffer: Option<&[u8]>) -> (r: Option<String>)
    ensures
        match buffer {
            None => r is None,
            Some(b) => r matches Some(s) && s@ == utf8_lossy(b@) && (vstd::utf8::valid_utf8(b@)
                ==> s@ == vstd::utf8::decode_utf8(b@)),
        },
{
    match buffer {
        Some(b) => Some(lossy_text(b)),
        None => None,
    }
}

} // verus!
