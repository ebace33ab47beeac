//! The process-wide invocation counter: a mapping from command name to the
//! number of times the dispatcher has handled that command.

use vstd::prelude::*;
use vstd::string::*;

use crate::text::str_eq;

verus! {

/// One counted command name.
pub struct NamedCount {
    pub name: String,
    pub count: u64,
}

/// The count recorded for `name` in `entries`: the count of the first entry
/// carrying that name, and zero where no entry does.
pub open spec fn count_in(entries: Seq<NamedCount>, name: Seq<char>) -> u64
    decreases entries.len(),
{
    if entries.len() == 0 {
        0
    } else if entries[0].name@ == name {
        entries[0].count
    } else {
        count_in(entries.drop_first(), name)
    }
}

/// Whether some entry of `entries` carries `name`.
pub open spec fn has_name(entries: Seq<NamedCount>, name: Seq<char>) -> bool
    decreases entries.len(),
{
    if entries.len() == 0 {
        false
    } else {
        entries[0].name@ == name || has_name(entries.drop_first(), name)
    }
}

proof fn lemma_count_in_concat(s: Seq<NamedCount>, t: Seq<NamedCount>, name: Seq<char>)
    ensures
        count_in(s + t, name) == if has_name(s, name) {
            count_in(s, name)
        } else {
            count_in(t, name)
        },
    decreases s.len(),
{
    if s.len() == 0 {
        assert(s + t =~= t);
    } else {
        assert((s + t).drop_first() =~= s.drop_first() + t);
        assert((s + t)[0] == s[0]);
        lemma_count_in_concat(s.drop_first(), t, name);
    }
}

proof fn lemma_count_single(e: NamedCount, t: Seq<NamedCount>, name: Seq<char>)
    ensures
        count_in(seq![e] + t, name) == if e.name@ == name {
            e.count
        } else {
            count_in(t, name)
        },
        has_name(seq![e] + t, name) == (e.name@ == name || has_name(t, name)),
{
    assert((seq![e] + t).drop_first() =~= t);
    assert((seq![e] + t)[0] == e);
}

proof fn lemma_count_absent(s: Seq<NamedCount>, name: Seq<char>)
    requires
        forall|j: int| 0 <= j < s.len() ==> s[j].name@ != name,
    ensures
        !has_name(s, name),
        count_in(s, name) == 0,
    decreases s.len(),
{
    if s.len() > 0 {
        lemma_count_absent(s.drop_first(), name);
    }
}

/// The count in `entries` is the count of the first entry carrying the name.
proof fn lemma_count_at(entries: Seq<NamedCount>, i: int, name: Seq<char>)
    requires
        0 <= i < entries.len(),
        entries[i].name@ == name,
        forall|j: int| 0 <= j < i ==> entries[j].name@ != name,
    ensures
        count_in(entries, name) == entries[i].count,
    decreases i,
{
    if i == 0 {
    } else {
        lemma_count_at(entries.drop_first(), i - 1, name);
    }
}

/// Replacing the first entry carrying a name changes that name's count to
/// the new entry's count and no other name's count.
proof fn lemma_count_update(entries: Seq<NamedCount>, i: int, e: NamedCount)
    requires
        0 <= i < entries.len(),
        entries[i].name@ == e.name@,
        forall|j: int| 0 <= j < i ==> entries[j].name@ != e.name@,
    ensures
        count_in(entries.update(i, e), e.name@) == e.count,
        forall|other: Seq<char>| other != e.name@ ==> count_in(entries.update(i, e), other)
            == count_in(entries, other),
    decreases i,
{
    if i == 0 {
        assert(entries.update(0, e).drop_first() =~= entries.drop_first());
        assert forall|other: Seq<char>| other != e.name@ implies count_in(
            entries.update(0, e),
            other,
        ) == count_in(entries, other) by {
            assert(entries.update(0, e)[0] == e);
        }
    } else {
        assert(entries.update(i, e).drop_first() =~= entries.drop_first().update(i - 1, e));
        assert(entries.update(i, e)[0] == entries[0]);
        lemma_count_update(entries.drop_first(), i - 1, e);
        assert forall|other: Seq<char>| other != e.name@ implies count_in(
            entries.update(i, e),
            other,
        ) == count_in(entries, other) by {
            assert(count_in(entries.drop_first().update(i - 1, e), other) == count_in(
                entries.drop_first(),
                other,
            ));
        }
    }
}

/// Appending an entry for a name no present entry carries gives that name the
/// appended count and changes no other name's count.
proof fn lemma_count_append(entries: Seq<NamedCount>, e: NamedCount)
    requires
        forall|j: int| 0 <= j < entries.len() ==> entries[j].name@ != e.name@,
    ensures
        count_in(entries.push(e), e.name@) == e.count,
        count_in(entries, e.name@) == 0,
        forall|other: Seq<char>| other != e.name@ ==> count_in(entries.push(e), other)
            == count_in(entries, other),
{
    lemma_count_absent(entries, e.name@);
    assert(entries.push(e) =~= entries + seq![e]);
    lemma_count_in_concat(entries, seq![e], e.name@);
    assert(seq![e] =~= seq![e] + Seq::<NamedCount>::empty());
    lemma_count_single(e, Seq::<NamedCount>::empty(), e.name@);
    assert forall|other: Seq<char>| other != e.name@ implies count_in(entries.push(e), other)
        == count_in(entries, other) by {
        lemma_count_in_concat(entries, seq![e], other);
        lemma_count_single(e, Seq::<NamedCount>::empty(), other);
        if !has_name(entries, other) {
            lemma_count_zero_if_absent(entries, other);
        }
    }
}

proof fn lemma_count_zero_if_absent(s: Seq<NamedCount>, name: Seq<char>)
    requires
        !has_name(s, name),
    ensures
        count_in(s, name) == 0,
    decreases s.len(),
{
    if s.len() > 0 {
        lemma_count_zero_if_absent(s.drop_first(), name);
    }
}

/// The per-command invocation counter. Exclusive access is the caller's to
/// arrange (the hosting process keeps it behind a lock); every mutation goes
/// through `record`, which bumps exactly one name.
pub struct CommandCounter {
    entries: Vec<NamedCount>,
}

impl CommandCounter {
    /// The count recorded for `name`.
    pub closed spec fn count_of(self, name: Seq<char>) -> u64 {
        count_in(self.entries@, name)
    }

    /// A fresh counter records zero for every name.
    pub fn new() -> (c: CommandCounter)
        ensures
            forall|name: Seq<char>| c.count_of(name) == 0,
    {
        CommandCounter { entries: Vec::new() }
    }

    /// Records one invocation of `name`: its count grows by exactly one
    /// (saturating at the machine limit), and no other name's count moves.
    pub fn record(&mut self, name: &str)
        ensures
            final(self).count_of(name@) == (if old(self).count_of(name@) < u64::MAX {
                old(self).count_of(name@) + 1
            } else {
                old(self).count_of(name@) as int
            }),
            forall|other: Seq<char>| other != name@ ==> final(self).count_of(other) == old(
                self,
            ).count_of(other),
    {
        let n = self.entries.len();
        let mut i: usize = 0;
        while i < n
            invariant
                n == self.entries.len(),
                self.entries@ == old(self).entries@,
                i <= n,
                forall|j: int| 0 <= j < i ==> self.entries@[j].name@ != name@,
            decreases n - i,
        {
            if str_eq(self.entries[i].name.as_str(), name) {
                let c = self.entries[i].count;
                let newc = if c < u64::MAX {
                    c + 1
                } else {
                    c
                };
                self.entries[i].count = newc;
                proof {
                    let e = self.entries@[i as int];
                    assert(self.entries@ =~= old(self).entries@.update(i as int, e));
                    lemma_count_at(old(self).entries@, i as int, name@);
                    lemma_count_update(old(self).entries@, i as int, e);
                }
                return ;
            }
            i += 1;
        }
        let e = NamedCount { name: String::from_str(name), count: 1 };
        self.entries.push(e);
        proof {
            lemma_count_append(old(self).entries@, e);
        }
    }

    /// Reads the count recorded for `name`.
    pub fn count(&self, name: &str) -> (c: u64)
        ensures
            c == self.count_of(name@),
    {
        let n = self.entries.len();
        let mut i: usize = 0;
        while i < n
            invariant
                n == self.entries.len(),
                i <= n,
                forall|j: int| 0 <= j < i ==> self.entries@[j].name@ != name@,
            decreases n - i,
        {
            if str_eq(self.entries[i].name.as_str(), name) {
                proof {
                    lemma_count_at(self.entries@, i as int, name@);
                }
                return self.entries[i].count;
            }
            i += 1;
        }
        proof {
            lemma_count_absent(self.entries@, name@);
        }
        0
    }
}

} // verus!
