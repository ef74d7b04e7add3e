//! The GraphQL variables and request bodies sent to the AllAnime API.

use vstd::prelude::*;
use crate::text;

verus! {

/// A text with its double quotes escaped with a backslash.
pub open spec fn quote_escaped(s: Seq<char>) -> Seq<char> {
    text::replace(s, "\""@, "\\\""@)
}

fn quote_escaped_exec(s: &str) -> (r: Vec<char>)
    ensures
        r@ == quote_escaped(s@),
{
    proof {
        reveal_strlit("\"");
    }
    text::replace_chars(&text::to_chars(s), &text::to_chars("\""), &text::to_chars("\\\""))
}

fn push_str(out: &mut Vec<char>, s: &str)
    ensures
        final(out)@ == old(out)@ + s@,
{
    text::extend_chars(out, &text::to_chars(s));
}

/// The variables of a show search: the query (quotes escaped), adult and
/// unknown shows excluded, the first page of 25, the translation mode, and
/// every country of origin.
pub open spec fn search_vars_of(query: Seq<char>, mode: Seq<char>) -> Seq<char> {
    "{\"search\":{\"allowAdult\":false,\"allowUnknown\":false,\"query\":\""@ + quote_escaped(query)
        + "\"},\"limit\":25,\"page\":1,\"translationType\":\""@ + mode
        + "\",\"countryOrigin\":\"ALL\"}"@
}

/// The variables of a show search.
pub fn search_vars(query: &str, mode: &str) -> (r: String)
    ensures
        r@ == search_vars_of(query@, mode@),
{
    let mut v: Vec<char> = Vec::new();
    push_str(&mut v, "{\"search\":{\"allowAdult\":false,\"allowUnknown\":false,\"query\":\"");
    text::extend_chars(&mut v, &quote_escaped_exec(query));
    push_str(&mut v, "\"},\"limit\":25,\"page\":1,\"translationType\":\"");
    push_str(&mut v, mode);
    push_str(&mut v, "\",\"countryOrigin\":\"ALL\"}");
    text::from_chars(&v)
}

/// The variables of an episode-list request.
pub open spec fn show_vars_of(show_id: Seq<char>) -> Seq<char> {
    "{\"showId\":\""@ + show_id + "\"}"@
}

/// The variables of an episode-list request.
pub fn show_vars(show_id: &str) -> (r: String)
    ensures
        r@ == show_vars_of(show_id@),
{
    let mut v: Vec<char> = Vec::new();
    push_str(&mut v, "{\"showId\":\"");
    push_str(&mut v, show_id);
    push_str(&mut v, "\"}");
    text::from_chars(&v)
}

/// The variables of an episode-source request.
pub open spec fn episode_vars_of(show_id: Seq<char>, mode: Seq<char>, episode: nat) -> Seq<char> {
    "{\"showId\":\""@ + show_id + "\",\"translationType\":\""@ + mode
        + "\",\"episodeString\":\""@ + text::decimal(episode) + "\"}"@
}

/// The variables of an episode-source request.
pub fn episode_vars(show_id: &str, mode: &str, episode: u32) -> (r: String)
    ensures
        r@ == episode_vars_of(show_id@, mode@, episode as nat),
{
    let mut v: Vec<char> = Vec::new();
    push_str(&mut v, "{\"showId\":\"");
    push_str(&mut v, show_id);
    push_str(&mut v, "\",\"translationType\":\"");
    push_str(&mut v, mode);
    push_str(&mut v, "\",\"episodeString\":\"");
    text::push_decimal(&mut v, episode as u64);
    push_str(&mut v, "\"}");
    text::from_chars(&v)
}

/// A GraphQL request body: the query with its quotes escaped, and the
/// variables as they are.
pub open spec fn post_body_of(query: Seq<char>, vars: Seq<char>) -> Seq<char> {
    "{\"query\":\""@ + quote_escaped(query) + "\",\"variables\":"@ + vars + "}"@
}

/// The body of a GraphQL request.
pub fn post_body(query: &str, vars: &str) -> (r: String)
    ensures
        r@ == post_body_of(query@, vars@),
{
    let mut v: Vec<char> = Vec::new();
    push_str(&mut v, "{\"query\":\"");
    text::extend_chars(&mut v, &quote_escaped_exec(query));
    push_str(&mut v, "\",\"variables\":");
    push_str(&mut v, vars);
    push_str(&mut v, "}");
    text::from_chars(&v)
}

} // verus!
