//! The `configure` command: a link to the guild's dashboard.

use vstd::prelude::*;

use crate::digits::{decimal, is_decimal_of, lemma_decimal_reads_back, push_decimal};
use crate::gateway::GuildId;

verus! {

/// serenity's `MessageBuilder::new().push(text).push_line(line).build()`.
/// Claimed, from serenity's source: content without formatting is appended
/// as it is, and `push_line` appends a newline after its content.
#[verifier::external_body]
fn build_text_then_line(text: &str, line: &str) -> (r: String)
    ensures
        r@ == text@ + line@ + seq!['\n'],
{
    serenity::utils::MessageBuilder::new().push(text).push_line(line).build()
}

/// `/dashboard/`
pub open spec fn dashboard_segment() -> Seq<char> {
    seq!['/', 'd', 'a', 's', 'h', 'b', 'o', 'a', 'r', 'd', '/']
}

/// `?s=`
pub open spec fn signature_query() -> Seq<char> {
    seq!['?', 's', '=']
}

/// `Please visit`
pub open spec fn please_visit() -> Seq<char> {
    seq!['P', 'l', 'e', 'a', 's', 'e', ' ', 'v', 'i', 's', 'i', 't']
}

/// The dashboard link of a guild: `<base_url>/dashboard/<guild id>?s=<signature>`.
pub open spec fn dashboard_link(base_url: Seq<char>, guild_id: u64, signature: Seq<char>) -> Seq<char> {
    base_url + dashboard_segment() + decimal(guild_id as nat) + signature_query() + signature
}

/// The reply to `configure`: none to a bot; otherwise `Please visit`
/// followed by the guild's dashboard link and a newline.
pub fn configure(author_is_bot: bool, base_url: &str, guild_id: GuildId, signature: &str) -> (r: Option<String>)
    ensures
        author_is_bot ==> r is None,
        !author_is_bot ==> (r matches Some(s) && s@ == please_visit() + dashboard_link(base_url@, guild_id.0, signature@) + seq!['\n']),
{
    if author_is_bot {
        return None;
    }
    let mut link = String::from_str(base_url);
    link.append("/dashboard/");
    push_decimal(&mut link, guild_id.0);
    link.append("?s=");
    link.append(signature);
    proof {
        reveal_strlit("/dashboard/");
        reveal_strlit("?s=");
        reveal_strlit("Please visit");
    }
    assert(link@ =~= dashboard_link(base_url@, guild_id.0, signature@));
    let reply = build_text_then_line("Please visit", link.as_str());
    assert(reply@ =~= please_visit() + dashboard_link(base_url@, guild_id.0, signature@) + seq!['\n']);
    Some(reply)
}

/// The dashboard link is the base URL, `/dashboard/`, the guild id as a
/// decimal numeral, `?s=` and the signature.
pub proof fn lemma_dashboard_link_parts(base_url: Seq<char>, guild_id: u64, signature: Seq<char>)
    ensures
        exists|d: Seq<char>| is_decimal_of(d, guild_id as nat) && dashboard_link(base_url, guild_id, signature) ==
            base_url + seq!['/', 'd', 'a', 's', 'h', 'b', 'o', 'a', 'r', 'd', '/'] + d + seq!['?', 's', '='] + signature,
{
    lemma_decimal_reads_back(guild_id as nat);
    let d = decimal(guild_id as nat);
    assert(is_decimal_of(d, guild_id as nat));
    assert(dashboard_link(base_url, guild_id, signature) ==
        base_url + seq!['/', 'd', 'a', 's', 'h', 'b', 'o', 'a', 'r', 'd', '/'] + d + seq!['?', 's', '='] + signature);
}

} // verus!
