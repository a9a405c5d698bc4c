//! JSON framing of the rclone request body. Strings are escaped by
//! serde_json; the object around them is framed here.

use vstd::prelude::*;

use crate::digits::digit_char;
use crate::text::push_char;

verus! {

/// How serde_json writes one character inside a string literal: `"` and
/// `\` behind a backslash; backspace, tab, line feed, form feed and carriage
/// return as `\b`, `\t`, `\n`, `\f`, `\r`; other characters below U+0020
/// as `\u00` and two lower-case hex digits; everything else as it is.
pub open spec fn json_escape(c: char) -> Seq<char> {
    if c == '"' {
        seq!['\\', '"']
    } else if c == '\\' {
        seq!['\\', '\\']
    } else if c as int == 8 {
        seq!['\\', 'b']
    } else if c as int == 9 {
        seq!['\\', 't']
    } else if c as int == 10 {
        seq!['\\', 'n']
    } else if c as int == 12 {
        seq!['\\', 'f']
    } else if c as int == 13 {
        seq!['\\', 'r']
    } else if (c as int) < 32 {
        seq!['\\', 'u', '0', '0', digit_char((c as int / 16) as nat), digit_char((c as int % 16) as nat)]
    } else {
        seq![c]
    }
}

/// The characters of `s`, each written as serde_json writes it inside a
/// string literal.
pub open spec fn json_escaped(s: Seq<char>) -> Seq<char>
    decreases s.len(),
{
    if s.len() == 0 {
        seq![]
    } else {
        json_escaped(s.drop_last()) + json_escape(s.last())
    }
}

/// serde_json's rendering of a string as a JSON string literal: the escaped
/// characters between two double quotes.
pub open spec fn json_string(s: Seq<char>) -> Seq<char> {
    seq!['"'] + json_escaped(s) + seq!['"']
}

/// A character that serde_json writes inside a string literal as it is:
/// anything but `"`, `\` and the control characters below U+0020.
pub open spec fn json_plain_char(c: char) -> bool {
    c != '"' && c != '\\' && (c as int) >= 32
}

/// A string all of whose characters serde_json writes as they are.
pub open spec fn json_plain(s: Seq<char>) -> bool {
    forall|i: int| 0 <= i < s.len() ==> json_plain_char(#[trigger] s[i])
}

/// `serde_json::to_string` on a string slice. Claimed, from serde_json's
/// source: it succeeds (the writer is a `Vec`, which never fails), and the
/// result is `s` between double quotes with each character escaped by the
/// `ESCAPE` table and `write_char_escape` (`json_escape`).
#[verifier::external_body]
fn json_quote(s: &str) -> (r: Option<String>)
    ensures
        r is Some,
        r matches Some(q) ==> q@ == json_string(s@),
{
    match serde_json::to_string(s) {
        Ok(q) => Some(q),
        Err(_) => None,
    }
}

proof fn lemma_json_escaped_plain(s: Seq<char>)
    requires
        json_plain(s),
    ensures
        json_escaped(s) == s,
    decreases s.len(),
{
    if s.len() > 0 {
        assert(json_plain(s.drop_last())) by {
            assert forall|i: int| 0 <= i < s.drop_last().len() implies json_plain_char(#[trigger] s.drop_last()[i]) by {
                assert(s.drop_last()[i] == s[i]);
            }
        }
        lemma_json_escaped_plain(s.drop_last());
        assert(json_plain_char(s[s.len() - 1]));
        assert(json_escape(s.last()) == seq![s.last()]);
        assert(json_escaped(s) =~= s.drop_last().push(s.last()));
        assert(s.drop_last().push(s.last()) =~= s);
    }
}

/// A string that needs no escaping is written between double quotes as it is.
pub proof fn lemma_json_plain(s: Seq<char>)
    requires
        json_plain(s),
    ensures
        json_string(s) == seq!['"'] + s + seq!['"'],
{
    lemma_json_escaped_plain(s);
}

/// `s` as a JSON string literal.
pub fn json_string_of(s: &str) -> (r: String)
    ensures
        r@ == json_string(s@),
{
    let q = json_quote(s);
    match q {
        Some(q) => q,
        None => String::new(),
    }
}

/// The members of a JSON object, each `key:value`, separated by commas.
pub open spec fn json_members(m: Seq<(Seq<char>, Seq<char>)>) -> Seq<char>
    decreases m.len(),
{
    if m.len() == 0 {
        seq![]
    } else if m.len() == 1 {
        m[0].0 + seq![':'] + m[0].1
    } else {
        json_members(m.drop_last()) + seq![','] + m.last().0 + seq![':'] + m.last().1
    }
}

/// A JSON object with the members `m`, written without spaces.
pub open spec fn json_object(m: Seq<(Seq<char>, Seq<char>)>) -> Seq<char> {
    seq!['{'] + json_members(m) + seq!['}']
}

/// The views of rendered members.
pub open spec fn member_views(m: Seq<(String, String)>) -> Seq<(Seq<char>, Seq<char>)> {
    m.map_values(|p: (String, String)| (p.0@, p.1@))
}

/// The JSON object whose members are the already rendered `(key, value)`
/// pairs of `members`, in order.
pub fn frame_json_object(members: &Vec<(String, String)>) -> (r: String)
    ensures
        r@ == json_object(member_views(members@)),
{
    let mut r = String::new();
    push_char(&mut r, '{');
    let n = members.len();
    let mut i: usize = 0;
    while i < n
        invariant
            n == members@.len(),
            i <= n,
            r@ == seq!['{'] + json_members(member_views(members@).take(i as int)),
        decreases n - i,
    {
        let ghost before = r@;
        let ghost mv = member_views(members@);
        if i > 0 {
            push_char(&mut r, ',');
        }
        r.append(members[i].0.as_str());
        push_char(&mut r, ':');
        r.append(members[i].1.as_str());
        proof {
            let t = mv.take(i + 1);
            assert(t.drop_last() =~= mv.take(i as int));
            assert(t.last() == (members@[i as int].0@, members@[i as int].1@));
            if i == 0 {
                assert(json_members(mv.take(0)) =~= Seq::<char>::empty());
                assert(r@ =~= seq!['{'] + json_members(t));
            } else {
                assert(r@ =~= seq!['{'] + json_members(t));
            }
        }
        i = i + 1;
    }
    assert(member_views(members@).take(n as int) =~= member_views(members@));
    push_char(&mut r, '}');
    assert(r@ =~= json_object(member_views(members@)));
    r
}

} // verus!
