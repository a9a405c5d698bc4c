//! The guild cache is ready: every guild gets its column family, created
//! when missing.

use vstd::prelude::*;

use crate::gateway::GuildId;
use crate::helpers::{guild_key, RocksDbKey};

verus! {

/// The column families that the storage holds.
pub struct GuildNamespaces {
    names: Vec<String>,
}

/// What to do for one guild's column family.
pub enum NamespaceAction {
    /// It is missing: create the family of this name.
    Create(String),
    /// It exists already: leave the family of this name as it is.
    Skip(String),
}

impl View for GuildNamespaces {
    type V = Seq<Seq<char>>;

    /// The names of the column families.
    closed spec fn view(&self) -> Seq<Seq<char>> {
        self.names@.map_values(|s: String| s@)
    }
}

/// Whether the guild's column family has to be created given the existing
/// ones.
pub open spec fn needs_namespace(existing: Seq<Seq<char>>, guild: u64) -> bool {
    !existing.contains(guild_key(guild))
}

impl GuildNamespaces {
    /// The column families `names`, as the storage lists them when it opens.
    pub fn new(names: Vec<String>) -> (r: Self)
        ensures
            r@ == names@.map_values(|s: String| s@),
    {
        GuildNamespaces { names }
    }

    /// Whether a column family of this name exists.
    pub fn contains(&self, name: &String) -> (r: bool)
        ensures
            r == self@.contains(name@),
    {
        let n = self.names.len();
        let mut i: usize = 0;
        while i < n
            invariant
                n == self.names@.len(),
                i <= n,
                forall|j: int| 0 <= j < i ==> self.names@[j]@ != name@,
            decreases n - i,
        {
            if self.names[i] == *name {
                assert(self@[i as int] == name@);
                return true;
            }
            i = i + 1;
        }
        assert forall|j: int| 0 <= j < self@.len() implies self@[j] != name@ by {
            assert(self@[j] == self.names@[j]@);
        }
        false
    }

    /// The step for `guild`: create its column family when it is missing,
    /// skip it otherwise.
    pub fn plan(&self, guild: &GuildId) -> (r: NamespaceAction)
        ensures
            match r {
                NamespaceAction::Create(name) => name@ == guild_key(guild.0) && needs_namespace(self@, guild.0),
                NamespaceAction::Skip(name) => name@ == guild_key(guild.0) && !needs_namespace(self@, guild.0),
            },
    {
        let name = guild.to_db_key();
        if self.contains(&name) {
            NamespaceAction::Skip(name)
        } else {
            NamespaceAction::Create(name)
        }
    }

    /// Records that the column family `name` was created.
    pub fn record_created(&mut self, name: String)
        ensures
            final(self)@ == old(self)@.push(name@),
    {
        let ghost old_names = self.names@;
        self.names.push(name);
        assert(self.names@.map_values(|s: String| s@) =~= old_names.map_values(|s: String| s@).push(name@));
    }
}

/// A column family is created at most once: once a guild's family has been
/// recorded, the guild's step is to skip it.
pub proof fn lemma_created_namespace_is_skipped(existing: Seq<Seq<char>>, guild: u64)
    ensures
        !needs_namespace(existing.push(guild_key(guild)), guild),
{
    assert(existing.push(guild_key(guild))[existing.len() as int] == guild_key(guild));
}

/// The column families after the step for `guild`, when a creation it asks
/// for succeeds: `plan` followed, on `Create`, by `record_created`.
pub open spec fn after_step(existing: Seq<Seq<char>>, guild: u64) -> Seq<Seq<char>> {
    if needs_namespace(existing, guild) {
        existing.push(guild_key(guild))
    } else {
        existing
    }
}

/// The column families after the steps for `guilds` in order, when every
/// creation succeeds.
pub open spec fn after_steps(existing: Seq<Seq<char>>, guilds: Seq<u64>) -> Seq<Seq<char>>
    decreases guilds.len(),
{
    if guilds.len() == 0 {
        existing
    } else {
        after_step(after_steps(existing, guilds.drop_last()), guilds.last())
    }
}

/// Whether the steps for `guilds` ask to create any column family.
pub open spec fn creates_any(existing: Seq<Seq<char>>, guilds: Seq<u64>) -> bool
    decreases guilds.len(),
{
    if guilds.len() == 0 {
        false
    } else {
        creates_any(existing, guilds.drop_last()) || needs_namespace(after_steps(existing, guilds.drop_last()), guilds.last())
    }
}

/// After the steps for a list of guilds, the column families are exactly the
/// existing ones and those of the listed guilds.
pub proof fn lemma_steps_union(existing: Seq<Seq<char>>, guilds: Seq<u64>)
    ensures
        forall|x: Seq<char>| #[trigger] after_steps(existing, guilds).contains(x) <==> (existing.contains(x) || exists|i: int| 0 <= i < guilds.len() && x == guild_key(guilds[i])),
    decreases guilds.len(),
{
    if guilds.len() > 0 {
        let prev = guilds.drop_last();
        lemma_steps_union(existing, prev);
        let before = after_steps(existing, prev);
        let g = guilds.last();
        assert forall|x: Seq<char>| #[trigger] after_steps(existing, guilds).contains(x) <==> (existing.contains(x) || exists|i: int| 0 <= i < guilds.len() && x == guild_key(guilds[i])) by {
            let now = after_steps(existing, guilds);
            if needs_namespace(before, g) {
                assert(now == before.push(guild_key(g)));
                if now.contains(x) {
                    let j = choose|j: int| 0 <= j < now.len() && now[j] == x;
                    if j < before.len() {
                        assert(before[j] == x);
                        assert(before.contains(x));
                    }
                }
                if before.contains(x) {
                    let j = choose|j: int| 0 <= j < before.len() && before[j] == x;
                    assert(now[j] == x);
                }
                assert(now[before.len() as int] == guild_key(g));
            }
            if exists|i: int| 0 <= i < guilds.len() && x == guild_key(guilds[i]) {
                let i = choose|i: int| 0 <= i < guilds.len() && x == guild_key(guilds[i]);
                if i < prev.len() {
                    assert(prev[i] == guilds[i]);
                }
            }
            if exists|i: int| 0 <= i < prev.len() && x == guild_key(prev[i]) {
                let i = choose|i: int| 0 <= i < prev.len() && x == guild_key(prev[i]);
                assert(guilds[i] == prev[i]);
            }
            if !needs_namespace(before, g) && x == guild_key(g) {
                assert(before.contains(x));
            }
            assert(guilds[guilds.len() - 1] == g);
        }
    }
}

proof fn lemma_steps_keep_all(existing: Seq<Seq<char>>, guilds: Seq<u64>)
    requires
        forall|i: int| 0 <= i < guilds.len() ==> existing.contains(guild_key(#[trigger] guilds[i])),
    ensures
        after_steps(existing, guilds) == existing,
        !creates_any(existing, guilds),
    decreases guilds.len(),
{
    if guilds.len() > 0 {
        let prev = guilds.drop_last();
        assert forall|i: int| 0 <= i < prev.len() implies existing.contains(guild_key(#[trigger] prev[i])) by {
            assert(prev[i] == guilds[i]);
        }
        lemma_steps_keep_all(existing, prev);
        assert(existing.contains(guild_key(guilds[guilds.len() - 1])));
    }
}

/// Running the steps for the same list of guilds a second time, after every
/// creation of the first run succeeded, creates nothing and leaves the
/// column families as the first run left them.
pub proof fn lemma_steps_idempotent(existing: Seq<Seq<char>>, guilds: Seq<u64>)
    ensures
        !creates_any(after_steps(existing, guilds), guilds),
        after_steps(after_steps(existing, guilds), guilds) == after_steps(existing, guilds),
{
    let once = after_steps(existing, guilds);
    lemma_steps_union(existing, guilds);
    assert forall|i: int| 0 <= i < guilds.len() implies once.contains(guild_key(#[trigger] guilds[i])) by {
        assert(0 <= i < guilds.len() && guild_key(guilds[i]) == guild_key(guilds[i]));
    }
    lemma_steps_keep_all(once, guilds);
}

} // verus!
