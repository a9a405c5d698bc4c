//! Storage keys: the column family of a guild, the key of an attachment's
//! upload status, and the key of the pending marker the message handler
//! writes.

use vstd::prelude::*;

use crate::digits::{decimal, hex, is_decimal_of, is_hex_of, lemma_decimal_reads_back, lemma_hex_reads_back, is_decimal_char, lemma_radix_digits_chars, lemma_radix_digits_injective, lemma_radix_digits_len, push_decimal, push_hex};
use crate::gateway::{Attachment, AttachmentId, GuildId};
use crate::queue_entry::QueueEntry;

verus! {

/// `guild(`
pub open spec fn guild_open() -> Seq<char> {
    seq!['g', 'u', 'i', 'l', 'd', '(']
}

/// `attch:`
pub open spec fn attachment_prefix() -> Seq<char> {
    seq!['a', 't', 't', 'c', 'h', ':']
}

/// `):attachment(`
pub open spec fn marker_middle() -> Seq<char> {
    seq![')', ':', 'a', 't', 't', 'a', 'c', 'h', 'm', 'e', 'n', 't', '(']
}

/// The column family of a guild: `guild(<id in hex>)`.
pub open spec fn guild_key(id: u64) -> Seq<char> {
    guild_open() + hex(id as nat) + seq![')']
}

/// The key of an attachment's upload status: `attch:<id in hex>`.
pub open spec fn attachment_key_spec(id: u64) -> Seq<char> {
    attachment_prefix() + hex(id as nat)
}

/// The key of the pending marker of an attachment:
/// `guild(<guild id>):attachment(<attachment id>)`, both in decimal.
pub open spec fn pending_key_spec(guild: u64, att: u64) -> Seq<char> {
    guild_open() + decimal(guild as nat) + marker_middle() + decimal(att as nat) + seq![')']
}

/// Something that names an entry, or a namespace, of the bot's storage.
pub trait RocksDbKey {
    /// The key, as characters.
    spec fn db_key(&self) -> Seq<char>;

    /// The key.
    fn to_db_key(&self) -> (r: String)
        ensures
            r@ == self.db_key(),
    ;
}

/// The key of an attachment's upload status.
pub fn attachment_key(att_id: &AttachmentId) -> (r: String)
    ensures
        r@ == attachment_key_spec(att_id.0),
{
    let mut r = String::new();
    r.append("attch:");
    proof {
        reveal_strlit("attch:");
    }
    push_hex(&mut r, att_id.0);
    assert(r@ =~= attachment_key_spec(att_id.0));
    r
}

/// The key of the pending marker that records an attachment of a guild as
/// queued.
pub fn pending_key(guild_id: &GuildId, att_id: &AttachmentId) -> (r: String)
    ensures
        r@ == pending_key_spec(guild_id.0, att_id.0),
{
    let mut r = String::new();
    r.append("guild(");
    push_decimal(&mut r, guild_id.0);
    r.append("):attachment(");
    push_decimal(&mut r, att_id.0);
    r.append(")");
    proof {
        reveal_strlit("guild(");
        reveal_strlit("):attachment(");
        reveal_strlit(")");
    }
    assert(r@ =~= pending_key_spec(guild_id.0, att_id.0));
    r
}

impl RocksDbKey for GuildId {
    open spec fn db_key(&self) -> Seq<char> {
        guild_key(self.0)
    }

    fn to_db_key(&self) -> (r: String) {
        let mut r = String::new();
        r.append("guild(");
        push_hex(&mut r, self.0);
        r.append(")");
        proof {
            reveal_strlit("guild(");
            reveal_strlit(")");
        }
        assert(r@ =~= guild_key(self.0));
        r
    }
}

impl RocksDbKey for AttachmentId {
    open spec fn db_key(&self) -> Seq<char> {
        attachment_key_spec(self.0)
    }

    fn to_db_key(&self) -> (r: String) {
        attachment_key(self)
    }
}

impl RocksDbKey for QueueEntry {
    open spec fn db_key(&self) -> Seq<char> {
        attachment_key_spec(self.att_id.0)
    }

    fn to_db_key(&self) -> (r: String) {
        attachment_key(&self.att_id)
    }
}

impl RocksDbKey for Attachment {
    open spec fn db_key(&self) -> Seq<char> {
        attachment_key_spec(self.id.0)
    }

    fn to_db_key(&self) -> (r: String) {
        attachment_key(&self.id)
    }
}

/// Different guilds get different column families.
pub proof fn lemma_guild_keys_distinct(a: u64, b: u64)
    requires
        a != b,
    ensures
        guild_key(a) != guild_key(b),
{
    if guild_key(a) == guild_key(b) {
        let ka = guild_key(a);
        let ha = hex(a as nat);
        let hb = hex(b as nat);
        assert(guild_open().len() == 6);
        assert(ka.len() == 6 + ha.len() + 1);
        assert(guild_key(b).len() == 6 + hb.len() + 1);
        assert(ha.len() == hb.len());
        assert(ha =~= ka.subrange(6, 6 + ha.len() as int));
        assert(hb =~= guild_key(b).subrange(6, 6 + hb.len() as int));
        lemma_radix_digits_injective(a as nat, b as nat, 16);
    }
}

/// Different attachments get different status keys.
pub proof fn lemma_attachment_keys_distinct(a: u64, b: u64)
    requires
        a != b,
    ensures
        attachment_key_spec(a) != attachment_key_spec(b),
{
    if attachment_key_spec(a) == attachment_key_spec(b) {
        let ha = hex(a as nat);
        let hb = hex(b as nat);
        assert(ha =~= attachment_key_spec(a).subrange(6, attachment_key_spec(a).len() as int));
        assert(hb =~= attachment_key_spec(b).subrange(6, attachment_key_spec(b).len() as int));
        lemma_radix_digits_injective(a as nat, b as nat, 16);
    }
}

/// A guild's column family name is never an attachment status key.
pub proof fn lemma_guild_and_attachment_keys_differ(g: u64, a: u64)
    ensures
        guild_key(g) != attachment_key_spec(a),
{
    assert(guild_key(g)[0] == 'g');
    assert(attachment_key_spec(a)[0] == 'a');
}

/// Different (guild, attachment) pairs get different pending markers.
pub proof fn lemma_pending_keys_distinct(g1: u64, a1: u64, g2: u64, a2: u64)
    requires
        g1 != g2 || a1 != a2,
    ensures
        pending_key_spec(g1, a1) != pending_key_spec(g2, a2),
{
    if pending_key_spec(g1, a1) == pending_key_spec(g2, a2) {
        let s = pending_key_spec(g1, a1);
        let dg1 = decimal(g1 as nat);
        let dg2 = decimal(g2 as nat);
        let da1 = decimal(a1 as nat);
        let da2 = decimal(a2 as nat);
        lemma_radix_digits_chars(g1 as nat, 10);
        lemma_radix_digits_chars(g2 as nat, 10);
        lemma_radix_digits_len(a1 as nat, 10);
        if dg1.len() < dg2.len() {
            assert(s[6 + dg1.len() as int] == ')');
            assert(pending_key_spec(g2, a2)[6 + dg1.len() as int] == dg2[dg1.len() as int]);
            assert(is_decimal_char(dg2[dg1.len() as int]));
        } else if dg2.len() < dg1.len() {
            assert(pending_key_spec(g2, a2)[6 + dg2.len() as int] == ')');
            assert(s[6 + dg2.len() as int] == dg1[dg2.len() as int]);
            assert(is_decimal_char(dg1[dg2.len() as int]));
        } else {
            assert(dg1 =~= s.subrange(6, 6 + dg1.len() as int));
            assert(dg2 =~= pending_key_spec(g2, a2).subrange(6, 6 + dg2.len() as int));
            lemma_radix_digits_injective(g1 as nat, g2 as nat, 10);
            let start: int = 6 + dg1.len() as int + 13;
            assert(guild_open().len() == 6);
            assert(marker_middle().len() == 13);
            assert(s.len() == start + da1.len() + 1);
            assert(pending_key_spec(g2, a2).len() == start + da2.len() + 1);
            assert(da1.len() == da2.len());
            assert(da1 =~= s.subrange(start, start + da1.len() as int));
            assert(da2 =~= pending_key_spec(g2, a2).subrange(start, start + da2.len() as int));
            lemma_radix_digits_injective(a1 as nat, a2 as nat, 10);
        }
    }
}

/// A guild's column family is `guild(`, the guild id as a lower-case
/// hexadecimal numeral, `)`.
pub proof fn lemma_guild_key_reads_back(id: u64)
    ensures
        exists|h: Seq<char>| is_hex_of(h, id as nat) && guild_key(id) == seq!['g', 'u', 'i', 'l', 'd', '('] + h + seq![')'],
{
    lemma_hex_reads_back(id as nat);
    assert(is_hex_of(hex(id as nat), id as nat));
}

/// An attachment's status key is `attch:` and the attachment id as a
/// lower-case hexadecimal numeral.
pub proof fn lemma_attachment_key_reads_back(id: u64)
    ensures
        exists|h: Seq<char>| is_hex_of(h, id as nat) && attachment_key_spec(id) == seq!['a', 't', 't', 'c', 'h', ':'] + h,
{
    lemma_hex_reads_back(id as nat);
    assert(is_hex_of(hex(id as nat), id as nat));
}

/// A pending marker is `guild(`, the guild id in decimal, `):attachment(`,
/// the attachment id in decimal, `)`.
pub proof fn lemma_pending_key_reads_back(guild: u64, att: u64)
    ensures
        exists|g: Seq<char>, a: Seq<char>| is_decimal_of(g, guild as nat) && is_decimal_of(a, att as nat)
            && pending_key_spec(guild, att) == seq!['g', 'u', 'i', 'l', 'd', '('] + g
                + seq![')', ':', 'a', 't', 't', 'a', 'c', 'h', 'm', 'e', 'n', 't', '('] + a + seq![')'],
{
    lemma_decimal_reads_back(guild as nat);
    lemma_decimal_reads_back(att as nat);
    assert(is_decimal_of(decimal(guild as nat), guild as nat));
    assert(is_decimal_of(decimal(att as nat), att as nat));
    let g = decimal(guild as nat);
    let a = decimal(att as nat);
    assert(pending_key_spec(guild, att) == seq!['g', 'u', 'i', 'l', 'd', '('] + g
        + seq![')', ':', 'a', 't', 't', 'a', 'c', 'h', 'm', 'e', 'n', 't', '('] + a + seq![')']);
}

} // verus!
