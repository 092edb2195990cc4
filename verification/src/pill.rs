//! Pills and herbs: the crafting recipes, the herb store and the pill store.

use vstd::prelude::*;
use crate::map::HerbQuality;

verus! {

/// One stack of stored herbs of a given name and quality.
#[derive(Debug, Clone)]
pub struct HerbEntry {
    pub name: String,
    pub quality: HerbQuality,
    pub count: u32,
}

/// The count of the first stack with the given name and quality; zero when
/// there is none.
pub open spec fn herb_count(s: Seq<HerbEntry>, name: Seq<char>, quality: HerbQuality) -> int
    decreases s.len(),
{
    if s.len() == 0 {
        0
    } else if s[0].name@ == name && s[0].quality == quality {
        s[0].count as int
    } else {
        herb_count(s.drop_first(), name, quality)
    }
}

/// Whether some stack carries the given name and quality.
pub open spec fn herb_has(s: Seq<HerbEntry>, name: Seq<char>, quality: HerbQuality) -> bool
    decreases s.len(),
{
    if s.len() == 0 {
        false
    } else if s[0].name@ == name && s[0].quality == quality {
        true
    } else {
        herb_has(s.drop_first(), name, quality)
    }
}

/// A sum of u32 counts, capped at u32::MAX.
pub open spec fn cap_add(a: int, b: int) -> int {
    if a + b > u32::MAX {
        u32::MAX as int
    } else {
        a + b
    }
}

/// The total stored count, capped at u32::MAX.
pub open spec fn herb_total(s: Seq<HerbEntry>) -> int
    decreases s.len(),
{
    if s.len() == 0 {
        0
    } else {
        cap_add(s[0].count as int, herb_total(s.drop_first()))
    }
}

/// The total stored count of one quality, capped at u32::MAX.
pub open spec fn herb_total_quality(s: Seq<HerbEntry>, quality: HerbQuality) -> int
    decreases s.len(),
{
    if s.len() == 0 {
        0
    } else if s[0].quality == quality {
        cap_add(s[0].count as int, herb_total_quality(s.drop_first(), quality))
    } else {
        herb_total_quality(s.drop_first(), quality)
    }
}

/// The store of gathered herbs, one stack per name-and-quality pair.
#[derive(Debug, Clone)]
pub struct HerbInventory {
    entries: Vec<HerbEntry>,
}

impl View for HerbInventory {
    type V = Seq<HerbEntry>;

    closed spec fn view(&self) -> Seq<HerbEntry> {
        self.entries@
    }
}

impl HerbInventory {
    /// Stacks are unique per name-and-quality pair.
    pub open spec fn wf(&self) -> bool {
        forall|i: int, j: int|
            0 <= i < j < self@.len() ==> !(self@[i].name@ == self@[j].name@ && self@[i].quality
                == self@[j].quality)
    }

    pub fn new() -> (r: HerbInventory)
        ensures
            r@ =~= Seq::<HerbEntry>::empty(),
            r.wf(),
    {
        HerbInventory { entries: Vec::new() }
    }

    /// Add `count` herbs to the matching stack (capped at u32::MAX), opening
    /// a new stack when none matches.
    pub fn add(&mut self, name: &String, quality: HerbQuality, count: u32)
        requires
            old(self).wf(),
        ensures
            final(self).wf(),
            herb_count(final(self)@, name@, quality) == cap_add(
                herb_count(old(self)@, name@, quality),
                count as int,
            ),
            forall|n2: Seq<char>, q2: HerbQuality|
                !(n2 == name@ && q2 == quality) ==> herb_count(final(self)@, n2, q2) == herb_count(
                    old(self)@,
                    n2,
                    q2,
                ),
    {
        let ghost orig = self@;
        let n = self.entries.len();
        proof {
            assert(orig.subrange(0, n as int) =~= orig);
        }
        let mut i: usize = 0;
        while i < n
            invariant
                0 <= i <= n,
                n == orig.len(),
                self@ == orig,
                old(self).wf(),
                orig == old(self)@,
                herb_count(orig, name@, quality) == herb_count(
                    orig.subrange(i as int, n as int),
                    name@,
                    quality,
                ),
                forall|k: int|
                    0 <= k < i ==> !((#[trigger] orig[k]).name@ == name@ && orig[k].quality
                        == quality),
            decreases n - i,
        {
            proof {
                lemma_herb_split(orig, name@, quality, i as int);
            }
            let matches_key = self.entries[i].name == *name && self.entries[i].quality == quality;
            if matches_key {
                let e = &self.entries[i];
                let new_count: u32 = if count > u32::MAX - e.count {
                    u32::MAX
                } else {
                    e.count + count
                };
                let updated = HerbEntry {
                    name: clone_string(&self.entries[i].name),
                    quality: self.entries[i].quality,
                    count: new_count,
                };
                self.entries.set(i, updated);
                proof {
                    lemma_herb_count_update(orig, i as int, updated, name@, quality);
                }
                return ;
            }
            i = i + 1;
        }
        let fresh = HerbEntry { name: clone_string(name), quality, count };
        self.entries.push(fresh);
        proof {
            lemma_herb_absent(orig, name@, quality);
            lemma_herb_count_push(orig, fresh, name@, quality);
        }
    }

    /// The stored count of one name-and-quality stack.
    pub fn get_count(&self, name: &String, quality: HerbQuality) -> (r: u32)
        ensures
            r == herb_count(self@, name@, quality),
    {
        let ghost s = self@;
        let n = self.entries.len();
        proof {
            assert(s.subrange(0, n as int) =~= s);
        }
        let mut i: usize = 0;
        while i < n
            invariant
                0 <= i <= n,
                n == s.len(),
                self@ == s,
                herb_count(s, name@, quality) == herb_count(
                    s.subrange(i as int, n as int),
                    name@,
                    quality,
                ),
            decreases n - i,
        {
            proof {
                lemma_herb_split(s, name@, quality, i as int);
            }
            if self.entries[i].name == *name && self.entries[i].quality == quality {
                return self.entries[i].count;
            }
            i = i + 1;
        }
        proof {
            assert(s.subrange(n as int, n as int) =~= Seq::<HerbEntry>::empty());
        }
        0
    }

    /// Take `count` herbs from the matching stack; succeeds exactly when the
    /// stack holds at least that many. A stack drained to zero is removed.
    pub fn consume(&mut self, name: &String, quality: HerbQuality, count: u32) -> (ok: bool)
        requires
            old(self).wf(),
        ensures
            final(self).wf(),
            ok == (herb_has(old(self)@, name@, quality) && herb_count(old(self)@, name@, quality)
                >= count),
            ok ==> herb_count(final(self)@, name@, quality) == herb_count(
                old(self)@,
                name@,
                quality,
            ) - count,
            !ok ==> final(self)@ == old(self)@,
            forall|n2: Seq<char>, q2: HerbQuality|
                !(n2 == name@ && q2 == quality) ==> herb_count(final(self)@, n2, q2) == herb_count(
                    old(self)@,
                    n2,
                    q2,
                ),
    {
        let ghost orig = self@;
        let n = self.entries.len();
        proof {
            assert(orig.subrange(0, n as int) =~= orig);
        }
        let mut i: usize = 0;
        while i < n
            invariant
                0 <= i <= n,
                n == orig.len(),
                self@ == orig,
                old(self).wf(),
                orig == old(self)@,
                herb_count(orig, name@, quality) == herb_count(
                    orig.subrange(i as int, n as int),
                    name@,
                    quality,
                ),
                herb_has(orig, name@, quality) == herb_has(
                    orig.subrange(i as int, n as int),
                    name@,
                    quality,
                ),
                forall|k: int|
                    0 <= k < i ==> !((#[trigger] orig[k]).name@ == name@ && orig[k].quality
                        == quality),
            decreases n - i,
        {
            proof {
                lemma_herb_split(orig, name@, quality, i as int);
            }
            if self.entries[i].name == *name && self.entries[i].quality == quality {
                if self.entries[i].count >= count {
                    let remaining = self.entries[i].count - count;
                    if remaining == 0 {
                        self.entries.remove(i);
                        proof {
                            lemma_herb_count_remove(orig, i as int, name@, quality);
                        }
                    } else {
                        let updated = HerbEntry {
                            name: clone_string(&self.entries[i].name),
                            quality: self.entries[i].quality,
                            count: remaining,
                        };
                        self.entries.set(i, updated);
                        proof {
                            lemma_herb_count_update(orig, i as int, updated, name@, quality);
                        }
                    }
                    return true;
                } else {
                    return false;
                }
            }
            i = i + 1;
        }
        proof {
            assert(orig.subrange(n as int, n as int) =~= Seq::<HerbEntry>::empty());
        }
        false
    }

    /// Every stack that still holds herbs, in store order.
    pub fn get_all(&self) -> (r: Vec<HerbEntry>)
        ensures
            r@ == herbs_nonzero(self@),
    {
        let ghost s = self@;
        let n = self.entries.len();
        proof {
            assert(s.subrange(0, n as int) =~= s);
            assert(Seq::<HerbEntry>::empty() + herbs_nonzero(s) =~= herbs_nonzero(s));
        }
        let mut out: Vec<HerbEntry> = Vec::new();
        let mut i: usize = 0;
        while i < n
            invariant
                0 <= i <= n,
                n == s.len(),
                self@ == s,
                out@ + herbs_nonzero(s.subrange(i as int, n as int)) == herbs_nonzero(s),
            decreases n - i,
        {
            proof {
                lemma_herbs_nonzero_split(s, i as int);
            }
            if self.entries[i].count > 0 {
                let copied = HerbEntry {
                    name: clone_string(&self.entries[i].name),
                    quality: self.entries[i].quality,
                    count: self.entries[i].count,
                };
                out.push(copied);
            }
            proof {
                assert(out@ + herbs_nonzero(s.subrange(i as int + 1, n as int)) =~= herbs_nonzero(
                    s,
                ));
            }
            i = i + 1;
        }
        proof {
            assert(s.subrange(n as int, n as int) =~= Seq::<HerbEntry>::empty());
            assert(out@ =~= herbs_nonzero(s));
        }
        out
    }

    /// The total stored count, capped at u32::MAX.
    pub fn total_count(&self) -> (r: u32)
        ensures
            r == herb_total(self@),
    {
        let ghost s = self@;
        let n = self.entries.len();
        proof {
            assert(s.subrange(n as int, n as int) =~= Seq::<HerbEntry>::empty());
        }
        let mut total: u32 = 0;
        let mut i: usize = n;
        while i > 0
            invariant
                0 <= i <= n,
                n == s.len(),
                self@ == s,
                total == herb_total(s.subrange(i as int, n as int)),
            decreases i,
        {
            i = i - 1;
            proof {
                lemma_herb_total_split(s, i as int);
            }
            let c = self.entries[i].count;
            total = if c > u32::MAX - total {
                u32::MAX
            } else {
                c + total
            };
        }
        proof {
            assert(s.subrange(0, n as int) =~= s);
        }
        total
    }

    /// The total stored count of one quality, capped at u32::MAX.
    pub fn count_by_quality(&self, quality: HerbQuality) -> (r: u32)
        ensures
            r == herb_total_quality(self@, quality),
    {
        let ghost s = self@;
        let n = self.entries.len();
        proof {
            assert(s.subrange(n as int, n as int) =~= Seq::<HerbEntry>::empty());
        }
        let mut total: u32 = 0;
        let mut i: usize = n;
        while i > 0
            invariant
                0 <= i <= n,
                n == s.len(),
                self@ == s,
                total == herb_total_quality(s.subrange(i as int, n as int), quality),
            decreases i,
        {
            i = i - 1;
            proof {
                lemma_herb_total_split(s, i as int);
            }
            if self.entries[i].quality == quality {
                let c = self.entries[i].count;
                total = if c > u32::MAX - total {
                    u32::MAX
                } else {
                    c + total
                };
            }
        }
        proof {
            assert(s.subrange(0, n as int) =~= s);
        }
        total
    }
}

/// The stacks that still hold herbs, in order.
pub open spec fn herbs_nonzero(s: Seq<HerbEntry>) -> Seq<HerbEntry>
    decreases s.len(),
{
    if s.len() == 0 {
        Seq::empty()
    } else if s[0].count > 0 {
        seq![s[0]] + herbs_nonzero(s.drop_first())
    } else {
        herbs_nonzero(s.drop_first())
    }
}

/// A copy of a string with the same characters.
fn clone_string(s: &String) -> (r: String)
    ensures
        r == *s,
{
    s.clone()
}

proof fn lemma_herb_split(s: Seq<HerbEntry>, name: Seq<char>, quality: HerbQuality, i: int)
    requires
        0 <= i < s.len(),
    ensures
        herb_count(s.subrange(i, s.len() as int), name, quality) == (if s[i].name@ == name
            && s[i].quality == quality {
            s[i].count as int
        } else {
            herb_count(s.subrange(i + 1, s.len() as int), name, quality)
        }),
        herb_has(s.subrange(i, s.len() as int), name, quality) == (if s[i].name@ == name
            && s[i].quality == quality {
            true
        } else {
            herb_has(s.subrange(i + 1, s.len() as int), name, quality)
        }),
{
    assert(s.subrange(i, s.len() as int).drop_first() =~= s.subrange(i + 1, s.len() as int));
}

proof fn lemma_herbs_nonzero_split(s: Seq<HerbEntry>, i: int)
    requires
        0 <= i < s.len(),
    ensures
        herbs_nonzero(s.subrange(i, s.len() as int)) == (if s[i].count > 0 {
            seq![s[i]] + herbs_nonzero(s.subrange(i + 1, s.len() as int))
        } else {
            herbs_nonzero(s.subrange(i + 1, s.len() as int))
        }),
{
    assert(s.subrange(i, s.len() as int).drop_first() =~= s.subrange(i + 1, s.len() as int));
}

proof fn lemma_herb_total_split(s: Seq<HerbEntry>, i: int)
    requires
        0 <= i < s.len(),
    ensures
        herb_total(s.subrange(i, s.len() as int)) == cap_add(
            s[i].count as int,
            herb_total(s.subrange(i + 1, s.len() as int)),
        ),
        herb_total_quality(s.subrange(i, s.len() as int), s[i].quality) == cap_add(
            s[i].count as int,
            herb_total_quality(s.subrange(i + 1, s.len() as int), s[i].quality),
        ),
        forall|q: HerbQuality|
            q != s[i].quality ==> herb_total_quality(s.subrange(i, s.len() as int), q)
                == herb_total_quality(s.subrange(i + 1, s.len() as int), q),
{
    assert(s.subrange(i, s.len() as int).drop_first() =~= s.subrange(i + 1, s.len() as int));
}

/// How updating the stack at `i` (same key) changes lookups: the updated key
/// reads the new count, every other key is untouched.
proof fn lemma_herb_count_update(
    s: Seq<HerbEntry>,
    i: int,
    updated: HerbEntry,
    name: Seq<char>,
    quality: HerbQuality,
)
    requires
        0 <= i < s.len(),
        forall|i2: int, j2: int|
            0 <= i2 < j2 < s.len() ==> !(s[i2].name@ == s[j2].name@ && s[i2].quality
                == s[j2].quality),
        forall|k: int|
            0 <= k < i ==> !((#[trigger] s[k]).name@ == name && s[k].quality == quality),
        s[i].name@ == name && s[i].quality == quality,
        updated.name@ == name && updated.quality == quality,
    ensures
        herb_count(s.update(i, updated), name, quality) == updated.count as int,
        forall|n2: Seq<char>, q2: HerbQuality|
            !(n2 == name && q2 == quality) ==> herb_count(s.update(i, updated), n2, q2)
                == herb_count(s, n2, q2),
        forall|i2: int, j2: int|
            0 <= i2 < j2 < s.update(i, updated).len() ==> !(s.update(i, updated)[i2].name@
                == s.update(i, updated)[j2].name@ && s.update(i, updated)[i2].quality == s.update(
                i,
                updated,
            )[j2].quality),
    decreases s.len(),
{
    let t = s.update(i, updated);
    if i == 0 {
        assert(t.drop_first() =~= s.drop_first());
        assert forall|n2: Seq<char>, q2: HerbQuality|
            !(n2 == name && q2 == quality) implies herb_count(t, n2, q2) == herb_count(
            s,
            n2,
            q2,
        ) by {}
    } else {
        assert(t.drop_first() =~= s.drop_first().update(i - 1, updated));
        assert(forall|k: int|
            0 <= k < s.drop_first().len() ==> #[trigger] s.drop_first()[k] == s[k + 1]);
        lemma_herb_count_update(s.drop_first(), i - 1, updated, name, quality);
        assert(t[0] == s[0]);
        assert forall|n2: Seq<char>, q2: HerbQuality|
            !(n2 == name && q2 == quality) implies herb_count(t, n2, q2) == herb_count(
            s,
            n2,
            q2,
        ) by {
            assert(herb_count(t, n2, q2) == (if t[0].name@ == n2 && t[0].quality == q2 {
                t[0].count as int
            } else {
                herb_count(t.drop_first(), n2, q2)
            }));
            assert(herb_count(s, n2, q2) == (if s[0].name@ == n2 && s[0].quality == q2 {
                s[0].count as int
            } else {
                herb_count(s.drop_first(), n2, q2)
            }));
        }
    }
}

/// How removing the stack at `i` changes lookups: its key reads zero, every
/// other key is untouched.
proof fn lemma_herb_count_remove(s: Seq<HerbEntry>, i: int, name: Seq<char>, quality: HerbQuality)
    requires
        0 <= i < s.len(),
        forall|i2: int, j2: int|
            0 <= i2 < j2 < s.len() ==> !(s[i2].name@ == s[j2].name@ && s[i2].quality
                == s[j2].quality),
        forall|k: int|
            0 <= k < i ==> !((#[trigger] s[k]).name@ == name && s[k].quality == quality),
        s[i].name@ == name && s[i].quality == quality,
    ensures
        herb_count(s.remove(i), name, quality) == 0,
        forall|n2: Seq<char>, q2: HerbQuality|
            !(n2 == name && q2 == quality) ==> herb_count(s.remove(i), n2, q2) == herb_count(
                s,
                n2,
                q2,
            ),
        forall|i2: int, j2: int|
            0 <= i2 < j2 < s.remove(i).len() ==> !(s.remove(i)[i2].name@ == s.remove(i)[j2].name@
                && s.remove(i)[i2].quality == s.remove(i)[j2].quality),
    decreases s.len(),
{
    let t = s.remove(i);
    if i == 0 {
        assert(t =~= s.drop_first());
        assert forall|n2: Seq<char>, q2: HerbQuality|
            !(n2 == name && q2 == quality) implies herb_count(t, n2, q2) == herb_count(
            s,
            n2,
            q2,
        ) by {
            assert(!(s[0].name@ == n2 && s[0].quality == q2));
            assert(herb_count(s, n2, q2) == herb_count(s.drop_first(), n2, q2));
        }
        assert forall|k: int|
            0 <= k < t.len() implies !((#[trigger] t[k]).name@ == name && t[k].quality
            == quality) by {
            assert(t[k] == s[k + 1]);
            assert(!(s[0].name@ == s[k + 1].name@ && s[0].quality == s[k + 1].quality));
        }
        assert(herb_count(t, name, quality) == 0) by {
            lemma_herb_absent(t, name, quality);
        }
    } else {
        assert(t.drop_first() =~= s.drop_first().remove(i - 1));
        assert(forall|k: int|
            0 <= k < s.drop_first().len() ==> #[trigger] s.drop_first()[k] == s[k + 1]);
        lemma_herb_count_remove(s.drop_first(), i - 1, name, quality);
        assert(t[0] == s[0]);
        assert forall|n2: Seq<char>, q2: HerbQuality|
            !(n2 == name && q2 == quality) implies herb_count(t, n2, q2) == herb_count(
            s,
            n2,
            q2,
        ) by {
            assert(herb_count(t, n2, q2) == (if t[0].name@ == n2 && t[0].quality == q2 {
                t[0].count as int
            } else {
                herb_count(t.drop_first(), n2, q2)
            }));
            assert(herb_count(s, n2, q2) == (if s[0].name@ == n2 && s[0].quality == q2 {
                s[0].count as int
            } else {
                herb_count(s.drop_first(), n2, q2)
            }));
        }
        assert(herb_count(t, name, quality) == herb_count(t.drop_first(), name, quality));
    }
}

/// A key held by no stack reads zero.
proof fn lemma_herb_absent(t: Seq<HerbEntry>, name: Seq<char>, quality: HerbQuality)
    requires
        forall|k: int|
            0 <= k < t.len() ==> !((#[trigger] t[k]).name@ == name && t[k].quality == quality),
    ensures
        herb_count(t, name, quality) == 0,
    decreases t.len(),
{
    if t.len() > 0 {
        assert(forall|k: int|
            0 <= k < t.drop_first().len() ==> #[trigger] t.drop_first()[k] == t[k + 1]);
        lemma_herb_absent(t.drop_first(), name, quality);
    }
}

/// How appending a fresh stack with a new key changes lookups: its key reads
/// the fresh count, every other key is untouched.
proof fn lemma_herb_count_push(
    s: Seq<HerbEntry>,
    fresh: HerbEntry,
    name: Seq<char>,
    quality: HerbQuality,
)
    requires
        forall|i2: int, j2: int|
            0 <= i2 < j2 < s.len() ==> !(s[i2].name@ == s[j2].name@ && s[i2].quality
                == s[j2].quality),
        forall|k: int|
            0 <= k < s.len() ==> !((#[trigger] s[k]).name@ == name && s[k].quality == quality),
        fresh.name@ == name && fresh.quality == quality,
    ensures
        herb_count(s.push(fresh), name, quality) == fresh.count as int,
        forall|n2: Seq<char>, q2: HerbQuality|
            !(n2 == name && q2 == quality) ==> herb_count(s.push(fresh), n2, q2) == herb_count(
                s,
                n2,
                q2,
            ),
        forall|i2: int, j2: int|
            0 <= i2 < j2 < s.push(fresh).len() ==> !(s.push(fresh)[i2].name@ == s.push(
                fresh,
            )[j2].name@ && s.push(fresh)[i2].quality == s.push(fresh)[j2].quality),
    decreases s.len(),
{
    let t = s.push(fresh);
    if s.len() == 0 {
        assert(t[0] == fresh);
        assert(t.drop_first() =~= Seq::<HerbEntry>::empty());
        assert forall|n2: Seq<char>, q2: HerbQuality|
            !(n2 == name && q2 == quality) implies herb_count(t, n2, q2) == herb_count(
            s,
            n2,
            q2,
        ) by {
            assert(!(t[0].name@ == n2 && t[0].quality == q2));
            assert(herb_count(t, n2, q2) == herb_count(t.drop_first(), n2, q2));
            assert(herb_count(t.drop_first(), n2, q2) == 0);
        }
    } else {
        assert(t.drop_first() =~= s.drop_first().push(fresh));
        assert(forall|k: int|
            0 <= k < s.drop_first().len() ==> #[trigger] s.drop_first()[k] == s[k + 1]);
        lemma_herb_count_push(s.drop_first(), fresh, name, quality);
        assert(t[0] == s[0]);
        assert forall|n2: Seq<char>, q2: HerbQuality|
            !(n2 == name && q2 == quality) implies herb_count(t, n2, q2) == herb_count(
            s,
            n2,
            q2,
        ) by {
            assert(herb_count(t, n2, q2) == (if t[0].name@ == n2 && t[0].quality == q2 {
                t[0].count as int
            } else {
                herb_count(t.drop_first(), n2, q2)
            }));
            assert(herb_count(s, n2, q2) == (if s[0].name@ == n2 && s[0].quality == q2 {
                s[0].count as int
            } else {
                herb_count(s.drop_first(), n2, q2)
            }));
        }
        assert(herb_count(t, name, quality) == herb_count(t.drop_first(), name, quality));
    }
}


/// A kind of pill.
#[derive(Debug, Clone, Copy, PartialEq, Eq, Structural)]
pub enum PillType {
    QiRecovery,
    BodyStrength,
    VitalityElixir,
    CultivationBoost,
}

/// The wire name of a pill type.
pub open spec fn pill_type_name(t: PillType) -> Seq<char> {
    match t {
        PillType::QiRecovery => "QiRecovery"@,
        PillType::BodyStrength => "BodyStrength"@,
        PillType::VitalityElixir => "VitalityElixir"@,
        PillType::CultivationBoost => "CultivationBoost"@,
    }
}

/// What swallowing one pill does.
#[derive(Debug, Clone, Copy, PartialEq, Eq, Structural)]
pub struct PillEffect {
    pub energy_restore: u32,
    pub constitution_restore: u32,
    pub cultivation_boost: u32,
}

/// The effect of each pill type: stamina recovery, vigor recovery, a bit of
/// both, or raw progression.
pub open spec fn pill_effects_spec(t: PillType) -> PillEffect {
    match t {
        PillType::QiRecovery => PillEffect {
            energy_restore: 30u32,
            constitution_restore: 0u32,
            cultivation_boost: 0u32,
        },
        PillType::BodyStrength => PillEffect {
            energy_restore: 0u32,
            constitution_restore: 30u32,
            cultivation_boost: 0u32,
        },
        PillType::VitalityElixir => PillEffect {
            energy_restore: 20u32,
            constitution_restore: 20u32,
            cultivation_boost: 0u32,
        },
        PillType::CultivationBoost => PillEffect {
            energy_restore: 0u32,
            constitution_restore: 0u32,
            cultivation_boost: 10u32,
        },
    }
}

/// The resource cost of crafting one pill of each type.
pub open spec fn crafting_cost_spec(t: PillType) -> int {
    match t {
        PillType::QiRecovery => 50,
        PillType::BodyStrength => 50,
        PillType::VitalityElixir => 100,
        PillType::CultivationBoost => 200,
    }
}

impl PillType {
    /// Parse a wire name back into a pill type.
    pub fn from_str(s: &String) -> (r: Option<PillType>)
        ensures
            r == (if s@ == pill_type_name(PillType::QiRecovery) {
                Some(PillType::QiRecovery)
            } else if s@ == pill_type_name(PillType::BodyStrength) {
                Some(PillType::BodyStrength)
            } else if s@ == pill_type_name(PillType::VitalityElixir) {
                Some(PillType::VitalityElixir)
            } else if s@ == pill_type_name(PillType::CultivationBoost) {
                Some(PillType::CultivationBoost)
            } else {
                None::<PillType>
            }),
    {
        if *s == lit_string("QiRecovery") {
            Some(PillType::QiRecovery)
        } else if *s == lit_string("BodyStrength") {
            Some(PillType::BodyStrength)
        } else if *s == lit_string("VitalityElixir") {
            Some(PillType::VitalityElixir)
        } else if *s == lit_string("CultivationBoost") {
            Some(PillType::CultivationBoost)
        } else {
            None
        }
    }

    /// The wire name of the pill type.
    pub fn to_string(&self) -> (r: &'static str)
        ensures
            r@ == pill_type_name(*self),
    {
        match self {
            PillType::QiRecovery => "QiRecovery",
            PillType::BodyStrength => "BodyStrength",
            PillType::VitalityElixir => "VitalityElixir",
            PillType::CultivationBoost => "CultivationBoost",
        }
    }

    /// The display name of the pill type.
    pub fn name(&self) -> (r: &'static str)
        ensures
            r@ == (match *self {
                PillType::QiRecovery => "Qi Recovery Pill"@,
                PillType::BodyStrength => "Body Strength Pill"@,
                PillType::VitalityElixir => "Vitality Elixir"@,
                PillType::CultivationBoost => "Cultivation Boost Pill"@,
            }),
    {
        match self {
            PillType::QiRecovery => "Qi Recovery Pill",
            PillType::BodyStrength => "Body Strength Pill",
            PillType::VitalityElixir => "Vitality Elixir",
            PillType::CultivationBoost => "Cultivation Boost Pill",
        }
    }

    /// A short description of the pill's effect.
    pub fn description(&self) -> (r: &'static str)
        ensures
            r@ == (match *self {
                PillType::QiRecovery => "Restores 30 stamina"@,
                PillType::BodyStrength => "Restores 30 vigor"@,
                PillType::VitalityElixir => "Restores 20 stamina and 20 vigor"@,
                PillType::CultivationBoost => "Grants 10 points of progression"@,
            }),
    {
        match self {
            PillType::QiRecovery => "Restores 30 stamina",
            PillType::BodyStrength => "Restores 30 vigor",
            PillType::VitalityElixir => "Restores 20 stamina and 20 vigor",
            PillType::CultivationBoost => "Grants 10 points of progression",
        }
    }

    /// What swallowing one pill of this type does.
    pub fn effects(&self) -> (r: PillEffect)
        ensures
            r == pill_effects_spec(*self),
    {
        match self {
            PillType::QiRecovery => PillEffect {
                energy_restore: 30,
                constitution_restore: 0,
                cultivation_boost: 0,
            },
            PillType::BodyStrength => PillEffect {
                energy_restore: 0,
                constitution_restore: 30,
                cultivation_boost: 0,
            },
            PillType::VitalityElixir => PillEffect {
                energy_restore: 20,
                constitution_restore: 20,
                cultivation_boost: 0,
            },
            PillType::CultivationBoost => PillEffect {
                energy_restore: 0,
                constitution_restore: 0,
                cultivation_boost: 10,
            },
        }
    }

    /// The resource cost of crafting one pill of this type.
    pub fn crafting_cost(&self) -> (r: u32)
        ensures
            r == crafting_cost_spec(*self),
    {
        match self {
            PillType::QiRecovery => 50,
            PillType::BodyStrength => 50,
            PillType::VitalityElixir => 100,
            PillType::CultivationBoost => 200,
        }
    }
}

/// A String holding the same characters as the given literal.
fn lit_string(lit: &str) -> (r: String)
    ensures
        r@ == lit@,
{
    <String as vstd::string::StringExecFns>::from_str(lit)
}

/// A crafting recipe: the herbs and resources one batch takes, its success
/// rate in fixed point (thousandths), and the yield.
#[derive(Debug, Clone, Copy, PartialEq, Eq, Structural)]
pub struct PillRecipe {
    pub pill_type: PillType,
    pub required_herb_quality: HerbQuality,
    pub required_herb_count: u32,
    pub resource_cost: u32,
    pub success_rate: u32,
    pub output_count: u32,
}

/// The fixed recipe list, in catalogue order.
pub open spec fn all_recipes_spec() -> Seq<PillRecipe> {
    seq![
        PillRecipe {
            pill_type: PillType::QiRecovery,
            required_herb_quality: HerbQuality::Common,
            required_herb_count: 2u32,
            resource_cost: 20u32,
            success_rate: 900u32,
            output_count: 1u32,
        },
        PillRecipe {
            pill_type: PillType::BodyStrength,
            required_herb_quality: HerbQuality::Common,
            required_herb_count: 2u32,
            resource_cost: 20u32,
            success_rate: 900u32,
            output_count: 1u32,
        },
        PillRecipe {
            pill_type: PillType::VitalityElixir,
            required_herb_quality: HerbQuality::Uncommon,
            required_herb_count: 2u32,
            resource_cost: 50u32,
            success_rate: 800u32,
            output_count: 1u32,
        },
        PillRecipe {
            pill_type: PillType::CultivationBoost,
            required_herb_quality: HerbQuality::Rare,
            required_herb_count: 1u32,
            resource_cost: 100u32,
            success_rate: 700u32,
            output_count: 1u32,
        },
    ]
}

/// The catalogue recipe of a pill type.
pub open spec fn recipe_of(t: PillType) -> PillRecipe {
    match t {
        PillType::QiRecovery => all_recipes_spec()[0],
        PillType::BodyStrength => all_recipes_spec()[1],
        PillType::VitalityElixir => all_recipes_spec()[2],
        PillType::CultivationBoost => all_recipes_spec()[3],
    }
}

impl PillRecipe {
    /// Every recipe, in catalogue order.
    pub fn all_recipes() -> (r: Vec<PillRecipe>)
        ensures
            r@ == all_recipes_spec(),
    {
        let mut v: Vec<PillRecipe> = Vec::new();
        v.push(
            PillRecipe {
                pill_type: PillType::QiRecovery,
                required_herb_quality: HerbQuality::Common,
                required_herb_count: 2,
                resource_cost: 20,
                success_rate: 900,
                output_count: 1,
            },
        );
        v.push(
            PillRecipe {
                pill_type: PillType::BodyStrength,
                required_herb_quality: HerbQuality::Common,
                required_herb_count: 2,
                resource_cost: 20,
                success_rate: 900,
                output_count: 1,
            },
        );
        v.push(
            PillRecipe {
                pill_type: PillType::VitalityElixir,
                required_herb_quality: HerbQuality::Uncommon,
                required_herb_count: 2,
                resource_cost: 50,
                success_rate: 800,
                output_count: 1,
            },
        );
        v.push(
            PillRecipe {
                pill_type: PillType::CultivationBoost,
                required_herb_quality: HerbQuality::Rare,
                required_herb_count: 1,
                resource_cost: 100,
                success_rate: 700,
                output_count: 1,
            },
        );
        proof {
            assert(v@ =~= all_recipes_spec());
        }
        v
    }

    /// The recipe of a pill type: the catalogue has one for each.
    pub fn for_pill(pill_type: PillType) -> (r: Option<PillRecipe>)
        ensures
            r == Some(recipe_of(pill_type)),
    {
        let recipes = Self::all_recipes();
        let n = recipes.len();
        let mut i: usize = 0;
        while i < n
            invariant
                0 <= i <= n,
                n == all_recipes_spec().len(),
                recipes@ == all_recipes_spec(),
                forall|k: int| 0 <= k < i ==> all_recipes_spec()[k].pill_type != pill_type,
            decreases n - i,
        {
            if recipes[i].pill_type == pill_type {
                proof {
                    assert(recipes@[i as int] == recipe_of(pill_type));
                }
                return Some(recipes[i]);
            }
            i = i + 1;
        }
        proof {
            assert(all_recipes_spec()[3].pill_type == PillType::CultivationBoost);
            assert(false);
        }
        None
    }
}

/// The count of the first stored stack of a pill type; zero when none.
pub open spec fn pill_count(s: Seq<(PillType, u32)>, t: PillType) -> int
    decreases s.len(),
{
    if s.len() == 0 {
        0
    } else if s[0].0 == t {
        s[0].1 as int
    } else {
        pill_count(s.drop_first(), t)
    }
}

/// Whether a stack of the type exists at all.
pub open spec fn pill_has(s: Seq<(PillType, u32)>, t: PillType) -> bool
    decreases s.len(),
{
    if s.len() == 0 {
        false
    } else if s[0].0 == t {
        true
    } else {
        pill_has(s.drop_first(), t)
    }
}

/// The store of crafted pills.
#[derive(Debug, Clone)]
pub struct PillInventory {
    pub pills: Vec<(PillType, u32)>,
}

impl PillInventory {
    /// Stacks are unique per pill type.
    pub open spec fn wf(&self) -> bool {
        forall|i: int, j: int| 0 <= i < j < self.pills@.len() ==> self.pills@[i].0 != self.pills@[j].0
    }

    /// The starting stock: ten of each recovery pill, five elixirs, no
    /// progression pills.
    pub fn new() -> (r: PillInventory)
        ensures
            r.wf(),
            r.pills@ == seq![
                (PillType::QiRecovery, 10u32),
                (PillType::BodyStrength, 10u32),
                (PillType::VitalityElixir, 5u32),
                (PillType::CultivationBoost, 0u32),
            ],
    {
        let mut pills: Vec<(PillType, u32)> = Vec::new();
        pills.push((PillType::QiRecovery, 10));
        pills.push((PillType::BodyStrength, 10));
        pills.push((PillType::VitalityElixir, 5));
        pills.push((PillType::CultivationBoost, 0));
        proof {
            assert(pills@ =~= seq![
                (PillType::QiRecovery, 10u32),
                (PillType::BodyStrength, 10u32),
                (PillType::VitalityElixir, 5u32),
                (PillType::CultivationBoost, 0u32),
            ]);
        }
        PillInventory { pills }
    }

    /// The stored count of one pill type.
    pub fn get_count(&self, pill_type: PillType) -> (r: u32)
        ensures
            r == pill_count(self.pills@, pill_type),
    {
        let ghost s = self.pills@;
        let n = self.pills.len();
        proof {
            assert(s.subrange(0, n as int) =~= s);
        }
        let mut i: usize = 0;
        while i < n
            invariant
                0 <= i <= n,
                n == s.len(),
                self.pills@ == s,
                pill_count(s, pill_type) == pill_count(s.subrange(i as int, n as int), pill_type),
            decreases n - i,
        {
            proof {
                lemma_pill_split(s, pill_type, i as int);
            }
            if self.pills[i].0 == pill_type {
                return self.pills[i].1;
            }
            i = i + 1;
        }
        proof {
            assert(s.subrange(n as int, n as int) =~= Seq::<(PillType, u32)>::empty());
        }
        0
    }

    /// Add pills of one type to the store (capped at u32::MAX), opening a
    /// stack when none exists.
    pub fn add(&mut self, pill_type: PillType, count: u32)
        requires
            old(self).wf(),
        ensures
            final(self).wf(),
            pill_count(final(self).pills@, pill_type) == cap_add(
                pill_count(old(self).pills@, pill_type),
                count as int,
            ),
            forall|t2: PillType|
                t2 != pill_type ==> pill_count(final(self).pills@, t2) == pill_count(
                    old(self).pills@,
                    t2,
                ),
    {
        let ghost orig = self.pills@;
        let n = self.pills.len();
        proof {
            assert(orig.subrange(0, n as int) =~= orig);
        }
        let mut i: usize = 0;
        while i < n
            invariant
                0 <= i <= n,
                n == orig.len(),
                self.pills@ == orig,
                old(self).wf(),
                orig == old(self).pills@,
                pill_count(orig, pill_type) == pill_count(
                    orig.subrange(i as int, n as int),
                    pill_type,
                ),
                forall|k: int| 0 <= k < i ==> (#[trigger] orig[k]).0 != pill_type,
            decreases n - i,
        {
            proof {
                lemma_pill_split(orig, pill_type, i as int);
            }
            if self.pills[i].0 == pill_type {
                let c = self.pills[i].1;
                let new_count: u32 = if count > u32::MAX - c {
                    u32::MAX
                } else {
                    c + count
                };
                self.pills.set(i, (pill_type, new_count));
                proof {
                    lemma_pill_update(orig, i as int, (pill_type, new_count), pill_type);
                }
                return ;
            }
            i = i + 1;
        }
        self.pills.push((pill_type, count));
        proof {
            lemma_pill_absent(orig, pill_type);
            lemma_pill_push(orig, (pill_type, count), pill_type);
        }
    }

    /// Take one pill of the type; succeeds exactly when a stack with at
    /// least one pill exists. The stack stays, even at zero.
    pub fn consume(&mut self, pill_type: PillType) -> (ok: bool)
        requires
            old(self).wf(),
        ensures
            final(self).wf(),
            ok == (pill_has(old(self).pills@, pill_type) && pill_count(old(self).pills@, pill_type)
                > 0),
            ok ==> pill_count(final(self).pills@, pill_type) == pill_count(
                old(self).pills@,
                pill_type,
            ) - 1,
            !ok ==> *final(self) == *old(self),
            forall|t2: PillType|
                t2 != pill_type ==> pill_count(final(self).pills@, t2) == pill_count(
                    old(self).pills@,
                    t2,
                ),
    {
        let ghost orig = self.pills@;
        let n = self.pills.len();
        proof {
            assert(orig.subrange(0, n as int) =~= orig);
        }
        let mut i: usize = 0;
        while i < n
            invariant
                0 <= i <= n,
                n == orig.len(),
                self.pills@ == orig,
                old(self).wf(),
                orig == old(self).pills@,
                pill_count(orig, pill_type) == pill_count(
                    orig.subrange(i as int, n as int),
                    pill_type,
                ),
                pill_has(orig, pill_type) == pill_has(
                    orig.subrange(i as int, n as int),
                    pill_type,
                ),
                *self == *old(self),
                forall|k: int| 0 <= k < i ==> (#[trigger] orig[k]).0 != pill_type,
            decreases n - i,
        {
            proof {
                lemma_pill_split(orig, pill_type, i as int);
            }
            if self.pills[i].0 == pill_type {
                let c = self.pills[i].1;
                if c > 0 {
                    self.pills.set(i, (pill_type, c - 1));
                    proof {
                        lemma_pill_update(orig, i as int, (pill_type, (c - 1) as u32), pill_type);
                    }
                    return true;
                } else {
                    return false;
                }
            }
            i = i + 1;
        }
        proof {
            assert(orig.subrange(n as int, n as int) =~= Seq::<(PillType, u32)>::empty());
        }
        false
    }

    /// Craft one pill of the type from the shared resource pool; succeeds
    /// exactly when the pool can pay the crafting cost.
    pub fn craft(&mut self, pill_type: PillType, resources: &mut u32) -> (ok: bool)
        requires
            old(self).wf(),
        ensures
            final(self).wf(),
            ok == (old(resources) >= crafting_cost_spec(pill_type)),
            ok ==> *final(resources) == old(resources) - crafting_cost_spec(pill_type)
                && pill_count(final(self).pills@, pill_type) == cap_add(
                pill_count(old(self).pills@, pill_type),
                1,
            ),
            !ok ==> *final(resources) == *old(resources) && final(self).pills@ == old(
                self,
            ).pills@,
            forall|t2: PillType|
                t2 != pill_type ==> pill_count(final(self).pills@, t2) == pill_count(
                    old(self).pills@,
                    t2,
                ),
    {
        let cost = pill_type.crafting_cost();
        if *resources >= cost {
            *resources = *resources - cost;
            self.add(pill_type, 1);
            true
        } else {
            false
        }
    }
}

/// A positive stored count means the stack exists.
pub proof fn lemma_pill_count_has(s: Seq<(PillType, u32)>, t: PillType)
    ensures
        pill_count(s, t) > 0 ==> pill_has(s, t),
    decreases s.len(),
{
    if s.len() > 0 {
        lemma_pill_count_has(s.drop_first(), t);
    }
}

proof fn lemma_pill_split(s: Seq<(PillType, u32)>, t: PillType, i: int)
    requires
        0 <= i < s.len(),
    ensures
        pill_count(s.subrange(i, s.len() as int), t) == (if s[i].0 == t {
            s[i].1 as int
        } else {
            pill_count(s.subrange(i + 1, s.len() as int), t)
        }),
        pill_has(s.subrange(i, s.len() as int), t) == (if s[i].0 == t {
            true
        } else {
            pill_has(s.subrange(i + 1, s.len() as int), t)
        }),
{
    assert(s.subrange(i, s.len() as int).drop_first() =~= s.subrange(i + 1, s.len() as int));
}

proof fn lemma_pill_absent(s: Seq<(PillType, u32)>, t: PillType)
    requires
        forall|k: int| 0 <= k < s.len() ==> (#[trigger] s[k]).0 != t,
    ensures
        pill_count(s, t) == 0,
        !pill_has(s, t),
    decreases s.len(),
{
    if s.len() > 0 {
        assert(forall|k: int|
            0 <= k < s.drop_first().len() ==> #[trigger] s.drop_first()[k] == s[k + 1]);
        lemma_pill_absent(s.drop_first(), t);
    }
}

proof fn lemma_pill_update(s: Seq<(PillType, u32)>, i: int, updated: (PillType, u32), t: PillType)
    requires
        0 <= i < s.len(),
        forall|i2: int, j2: int| 0 <= i2 < j2 < s.len() ==> s[i2].0 != s[j2].0,
        forall|k: int| 0 <= k < i ==> (#[trigger] s[k]).0 != t,
        s[i].0 == t,
        updated.0 == t,
    ensures
        pill_count(s.update(i, updated), t) == updated.1 as int,
        forall|t2: PillType|
            t2 != t ==> pill_count(s.update(i, updated), t2) == pill_count(s, t2),
        forall|i2: int, j2: int|
            0 <= i2 < j2 < s.update(i, updated).len() ==> s.update(i, updated)[i2].0 != s.update(
                i,
                updated,
            )[j2].0,
    decreases s.len(),
{
    let w = s.update(i, updated);
    if i == 0 {
        assert(w.drop_first() =~= s.drop_first());
        assert forall|t2: PillType| t2 != t implies pill_count(w, t2) == pill_count(s, t2) by {
            assert(pill_count(w, t2) == pill_count(w.drop_first(), t2));
            assert(pill_count(s, t2) == pill_count(s.drop_first(), t2));
        }
    } else {
        assert(w.drop_first() =~= s.drop_first().update(i - 1, updated));
        assert(forall|k: int|
            0 <= k < s.drop_first().len() ==> #[trigger] s.drop_first()[k] == s[k + 1]);
        lemma_pill_update(s.drop_first(), i - 1, updated, t);
        assert(w[0] == s[0]);
        assert forall|t2: PillType| t2 != t implies pill_count(w, t2) == pill_count(s, t2) by {
            assert(pill_count(w, t2) == (if w[0].0 == t2 {
                w[0].1 as int
            } else {
                pill_count(w.drop_first(), t2)
            }));
            assert(pill_count(s, t2) == (if s[0].0 == t2 {
                s[0].1 as int
            } else {
                pill_count(s.drop_first(), t2)
            }));
        }
        assert(pill_count(w, t) == pill_count(w.drop_first(), t));
    }
}

proof fn lemma_pill_push(s: Seq<(PillType, u32)>, fresh: (PillType, u32), t: PillType)
    requires
        forall|i2: int, j2: int| 0 <= i2 < j2 < s.len() ==> s[i2].0 != s[j2].0,
        forall|k: int| 0 <= k < s.len() ==> (#[trigger] s[k]).0 != t,
        fresh.0 == t,
    ensures
        pill_count(s.push(fresh), t) == fresh.1 as int,
        forall|t2: PillType| t2 != t ==> pill_count(s.push(fresh), t2) == pill_count(s, t2),
        forall|i2: int, j2: int|
            0 <= i2 < j2 < s.push(fresh).len() ==> s.push(fresh)[i2].0 != s.push(fresh)[j2].0,
    decreases s.len(),
{
    let w = s.push(fresh);
    if s.len() == 0 {
        assert(w[0] == fresh);
        assert(w.drop_first() =~= Seq::<(PillType, u32)>::empty());
        assert forall|t2: PillType| t2 != t implies pill_count(w, t2) == pill_count(s, t2) by {
            assert(pill_count(w, t2) == pill_count(w.drop_first(), t2));
            assert(pill_count(w.drop_first(), t2) == 0);
        }
    } else {
        assert(w.drop_first() =~= s.drop_first().push(fresh));
        assert(forall|k: int|
            0 <= k < s.drop_first().len() ==> #[trigger] s.drop_first()[k] == s[k + 1]);
        lemma_pill_push(s.drop_first(), fresh, t);
        assert(w[0] == s[0]);
        assert forall|t2: PillType| t2 != t implies pill_count(w, t2) == pill_count(s, t2) by {
            assert(pill_count(w, t2) == (if w[0].0 == t2 {
                w[0].1 as int
            } else {
                pill_count(w.drop_first(), t2)
            }));
            assert(pill_count(s, t2) == (if s[0].0 == t2 {
                s[0].1 as int
            } else {
                pill_count(s.drop_first(), t2)
            }));
        }
        assert(pill_count(w, t) == pill_count(w.drop_first(), t));
    }
}

} // verus!
