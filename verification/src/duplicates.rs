//! The duplicate index: which games share a file path, a registry key, or a
//! registry value, and whether a shared entry still counts as a conflict.
//! A shared entry is resolved once at most one of its sharers is enabled.

use vstd::prelude::*;

use crate::scan::ScanInfo;

verus! {

/// The duplication status of one entry or one game.
#[derive(Clone, Copy, Debug, PartialEq, Eq, Structural)]
pub enum Duplication {
    /// Only one game holds the entry.
    Unique,
    /// Several games hold the entry, but at most one of them is enabled.
    Resolved,
    /// Several enabled games hold the entry.
    Duplicate,
}

impl Duplication {
    pub open spec fn spec_resolved(self) -> bool {
        self != Duplication::Duplicate
    }

    /// Whether the entry needs no duplicate marker in the report.
    pub fn resolved(self) -> (r: bool)
        ensures
            r == self.spec_resolved(),
    {
        match self {
            Duplication::Duplicate => false,
            _ => true,
        }
    }

    pub open spec fn spec_rank(self) -> int {
        match self {
            Duplication::Unique => 0,
            Duplication::Resolved => 1,
            Duplication::Duplicate => 2,
        }
    }
}

/// The worse of two duplication statuses.
pub open spec fn dup_max(a: Duplication, b: Duplication) -> Duplication {
    if a.spec_rank() >= b.spec_rank() {
        a
    } else {
        b
    }
}

/// The games sharing one entry, each with its enabled flag.
pub type SharersModel = Seq<(Seq<char>, bool)>;

pub open spec fn sharer_views(s: Seq<(String, bool)>) -> SharersModel {
    Seq::new(s.len(), |i: int| (s[i].0@, s[i].1))
}

pub open spec fn entry_views(s: Seq<(String, Vec<(String, bool)>)>) -> Seq<
    (Seq<char>, SharersModel),
> {
    Seq::new(s.len(), |i: int| (s[i].0@, sharer_views(s[i].1@)))
}

pub open spec fn value_entry_views(s: Seq<(String, String, Vec<(String, bool)>)>) -> Seq<
    ((Seq<char>, Seq<char>), SharersModel),
> {
    Seq::new(s.len(), |i: int| ((s[i].0@, s[i].1@), sharer_views(s[i].2@)))
}

pub open spec fn contains_game(games: SharersModel, name: Seq<char>) -> bool {
    exists|i: int| 0 <= i < games.len() && games[i].0 == name
}

pub open spec fn enabled_count(games: SharersModel) -> int
    decreases games.len(),
{
    if games.len() == 0 {
        0
    } else {
        enabled_count(games.drop_last()) + if games.last().1 {
            1int
        } else {
            0int
        }
    }
}

/// How one entry's sharers classify: unique below two sharers, resolved when
/// at most one sharer is enabled, a duplicate otherwise.
pub open spec fn duplication_of(games: SharersModel) -> Duplication {
    if games.len() < 2 {
        Duplication::Unique
    } else if enabled_count(games) <= 1 {
        Duplication::Resolved
    } else {
        Duplication::Duplicate
    }
}

/// The sharer list under a key, or the empty list for an unknown key.
pub open spec fn lookup(entries: Seq<(Seq<char>, SharersModel)>, key: Seq<char>) -> SharersModel
    decreases entries.len(),
{
    if entries.len() == 0 {
        Seq::empty()
    } else if entries[0].0 == key {
        entries[0].1
    } else {
        lookup(entries.skip(1), key)
    }
}

pub open spec fn lookup2(
    entries: Seq<((Seq<char>, Seq<char>), SharersModel)>,
    key: (Seq<char>, Seq<char>),
) -> SharersModel
    decreases entries.len(),
{
    if entries.len() == 0 {
        Seq::empty()
    } else if entries[0].0 == key {
        entries[0].1
    } else {
        lookup2(entries.skip(1), key)
    }
}

/// Records a game under a sharer list, overwriting its previous flag.
pub open spec fn upsert_sharer(games: SharersModel, name: Seq<char>, enabled: bool) -> SharersModel
    decreases games.len(),
{
    if games.len() == 0 {
        seq![(name, enabled)]
    } else if games[0].0 == name {
        seq![(name, enabled)] + games.skip(1)
    } else {
        seq![games[0]] + upsert_sharer(games.skip(1), name, enabled)
    }
}

/// Records a game under a keyed entry, adding the entry if the key is new.
pub open spec fn upsert_entry(
    entries: Seq<(Seq<char>, SharersModel)>,
    key: Seq<char>,
    name: Seq<char>,
    enabled: bool,
) -> Seq<(Seq<char>, SharersModel)>
    decreases entries.len(),
{
    if entries.len() == 0 {
        seq![(key, seq![(name, enabled)])]
    } else if entries[0].0 == key {
        seq![(key, upsert_sharer(entries[0].1, name, enabled))] + entries.skip(1)
    } else {
        seq![entries[0]] + upsert_entry(entries.skip(1), key, name, enabled)
    }
}

pub open spec fn upsert_entry2(
    entries: Seq<((Seq<char>, Seq<char>), SharersModel)>,
    key: (Seq<char>, Seq<char>),
    name: Seq<char>,
    enabled: bool,
) -> Seq<((Seq<char>, Seq<char>), SharersModel)>
    decreases entries.len(),
{
    if entries.len() == 0 {
        seq![(key, seq![(name, enabled)])]
    } else if entries[0].0 == key {
        seq![(key, upsert_sharer(entries[0].1, name, enabled))] + entries.skip(1)
    } else {
        seq![entries[0]] + upsert_entry2(entries.skip(1), key, name, enabled)
    }
}

pub struct DetectorModel {
    pub files: Seq<(Seq<char>, SharersModel)>,
    pub registry: Seq<(Seq<char>, SharersModel)>,
    pub registry_values: Seq<((Seq<char>, Seq<char>), SharersModel)>,
}

/// Maps content fingerprints to the games sharing them, at file, registry
/// key, and registry value granularity, each an independent namespace.
pub struct DuplicateDetector {
    files: Vec<(String, Vec<(String, bool)>)>,
    registry: Vec<(String, Vec<(String, bool)>)>,
    registry_values: Vec<(String, String, Vec<(String, bool)>)>,
}

impl View for DuplicateDetector {
    type V = DetectorModel;

    closed spec fn view(&self) -> DetectorModel {
        DetectorModel {
            files: entry_views(self.files@),
            registry: entry_views(self.registry@),
            registry_values: value_entry_views(self.registry_values@),
        }
    }
}

pub open spec fn sharer_names(games: SharersModel) -> Seq<Seq<char>> {
    Seq::new(games.len(), |i: int| games[i].0)
}

proof fn lemma_upsert_sharer_at(games: SharersModel, name: Seq<char>, enabled: bool, i: int)
    requires
        0 <= i <= games.len(),
        forall|j: int| 0 <= j < i ==> (#[trigger] games[j]).0 != name,
        i < games.len() ==> games[i].0 == name,
    ensures
        upsert_sharer(games, name, enabled) == if i < games.len() {
            games.update(i, (name, enabled))
        } else {
            games.push((name, enabled))
        },
    decreases games.len(),
{
    if games.len() == 0 {
        assert(upsert_sharer(games, name, enabled) =~= games.push((name, enabled)));
    } else if games[0].0 == name {
        assert(i == 0);
        assert(seq![(name, enabled)] + games.skip(1) =~= games.update(0, (name, enabled)));
    } else {
        assert(i >= 1);
        assert(forall|j: int|
            0 <= j < i - 1 ==> (#[trigger] games.skip(1)[j]).0 != name && games.skip(1)[j]
                == games[j + 1]);
        lemma_upsert_sharer_at(games.skip(1), name, enabled, i - 1);
        if i < games.len() {
            assert(seq![games[0]] + games.skip(1).update(i - 1, (name, enabled)) =~= games.update(
                i,
                (name, enabled),
            ));
        } else {
            assert(seq![games[0]] + games.skip(1).push((name, enabled)) =~= games.push(
                (name, enabled),
            ));
        }
    }
}

proof fn lemma_upsert_entry_at(
    entries: Seq<(Seq<char>, SharersModel)>,
    key: Seq<char>,
    name: Seq<char>,
    enabled: bool,
    i: int,
)
    requires
        0 <= i <= entries.len(),
        forall|j: int| 0 <= j < i ==> (#[trigger] entries[j]).0 != key,
        i < entries.len() ==> entries[i].0 == key,
    ensures
        upsert_entry(entries, key, name, enabled) == if i < entries.len() {
            entries.update(i, (key, upsert_sharer(entries[i].1, name, enabled)))
        } else {
            entries.push((key, seq![(name, enabled)]))
        },
    decreases entries.len(),
{
    if entries.len() == 0 {
        assert(upsert_entry(entries, key, name, enabled) =~= entries.push(
            (key, seq![(name, enabled)]),
        ));
    } else if entries[0].0 == key {
        assert(i == 0);
        assert(seq![(key, upsert_sharer(entries[0].1, name, enabled))] + entries.skip(1)
            =~= entries.update(0, (key, upsert_sharer(entries[0].1, name, enabled))));
    } else {
        assert(i >= 1);
        assert(forall|j: int|
            0 <= j < i - 1 ==> (#[trigger] entries.skip(1)[j]).0 != key && entries.skip(1)[j]
                == entries[j + 1]);
        lemma_upsert_entry_at(entries.skip(1), key, name, enabled, i - 1);
        if i < entries.len() {
            assert(seq![entries[0]] + entries.skip(1).update(
                i - 1,
                (key, upsert_sharer(entries[i].1, name, enabled)),
            ) =~= entries.update(i, (key, upsert_sharer(entries[i].1, name, enabled))));
        } else {
            assert(seq![entries[0]] + entries.skip(1).push((key, seq![(name, enabled)]))
                =~= entries.push((key, seq![(name, enabled)])));
        }
    }
}

proof fn lemma_upsert_entry2_at(
    entries: Seq<((Seq<char>, Seq<char>), SharersModel)>,
    key: (Seq<char>, Seq<char>),
    name: Seq<char>,
    enabled: bool,
    i: int,
)
    requires
        0 <= i <= entries.len(),
        forall|j: int| 0 <= j < i ==> (#[trigger] entries[j]).0 != key,
        i < entries.len() ==> entries[i].0 == key,
    ensures
        upsert_entry2(entries, key, name, enabled) == if i < entries.len() {
            entries.update(i, (key, upsert_sharer(entries[i].1, name, enabled)))
        } else {
            entries.push((key, seq![(name, enabled)]))
        },
    decreases entries.len(),
{
    if entries.len() == 0 {
        assert(upsert_entry2(entries, key, name, enabled) =~= entries.push(
            (key, seq![(name, enabled)]),
        ));
    } else if entries[0].0 == key {
        assert(i == 0);
        assert(seq![(key, upsert_sharer(entries[0].1, name, enabled))] + entries.skip(1)
            =~= entries.update(0, (key, upsert_sharer(entries[0].1, name, enabled))));
    } else {
        assert(i >= 1);
        assert(forall|j: int|
            0 <= j < i - 1 ==> (#[trigger] entries.skip(1)[j]).0 != key && entries.skip(1)[j]
                == entries[j + 1]);
        lemma_upsert_entry2_at(entries.skip(1), key, name, enabled, i - 1);
        if i < entries.len() {
            assert(seq![entries[0]] + entries.skip(1).update(
                i - 1,
                (key, upsert_sharer(entries[i].1, name, enabled)),
            ) =~= entries.update(i, (key, upsert_sharer(entries[i].1, name, enabled))));
        } else {
            assert(seq![entries[0]] + entries.skip(1).push((key, seq![(name, enabled)]))
                =~= entries.push((key, seq![(name, enabled)])));
        }
    }
}

proof fn lemma_lookup_at(entries: Seq<(Seq<char>, SharersModel)>, key: Seq<char>, i: int)
    requires
        0 <= i <= entries.len(),
        forall|j: int| 0 <= j < i ==> (#[trigger] entries[j]).0 != key,
        i < entries.len() ==> entries[i].0 == key,
    ensures
        lookup(entries, key) == if i < entries.len() {
            entries[i].1
        } else {
            Seq::<(Seq<char>, bool)>::empty()
        },
    decreases entries.len(),
{
    if entries.len() == 0 {
        assert(lookup(entries, key) =~= Seq::<(Seq<char>, bool)>::empty());
    } else if entries[0].0 == key {
        assert(i == 0);
    } else {
        assert(i >= 1);
        assert(forall|j: int|
            0 <= j < i - 1 ==> (#[trigger] entries.skip(1)[j]).0 != key && entries.skip(1)[j]
                == entries[j + 1]);
        lemma_lookup_at(entries.skip(1), key, i - 1);
    }
}

proof fn lemma_lookup2_at(
    entries: Seq<((Seq<char>, Seq<char>), SharersModel)>,
    key: (Seq<char>, Seq<char>),
    i: int,
)
    requires
        0 <= i <= entries.len(),
        forall|j: int| 0 <= j < i ==> (#[trigger] entries[j]).0 != key,
        i < entries.len() ==> entries[i].0 == key,
    ensures
        lookup2(entries, key) == if i < entries.len() {
            entries[i].1
        } else {
            Seq::<(Seq<char>, bool)>::empty()
        },
    decreases entries.len(),
{
    if entries.len() == 0 {
        assert(lookup2(entries, key) =~= Seq::<(Seq<char>, bool)>::empty());
    } else if entries[0].0 == key {
        assert(i == 0);
    } else {
        assert(i >= 1);
        assert(forall|j: int|
            0 <= j < i - 1 ==> (#[trigger] entries.skip(1)[j]).0 != key && entries.skip(1)[j]
                == entries[j + 1]);
        lemma_lookup2_at(entries.skip(1), key, i - 1);
    }
}

fn upsert_sharer_vec(games: &mut Vec<(String, bool)>, name: &String, enabled: bool)
    ensures
        sharer_views(final(games)@) == upsert_sharer(sharer_views(old(games)@), name@, enabled),
{
    let ghost pre = sharer_views(games@);
    proof {
        assert(pre.len() == games@.len());
    }
    let mut i: usize = 0;
    while i < games.len()
        invariant
            i <= games@.len(),
            pre == sharer_views(games@),
            pre == sharer_views(old(games)@),
            forall|j: int| 0 <= j < i ==> (#[trigger] pre[j]).0 != name@,
        decreases games@.len() - i,
    {
        if games[i].0 == *name {
            proof {
                assert(pre[i as int].0 == games@[i as int].0@);
            }
            games.set(i, (name.clone(), enabled));
            proof {
                lemma_upsert_sharer_at(pre, name@, enabled, i as int);
                assert(sharer_views(games@).len() == games@.len());
                assert(sharer_views(games@) =~= pre.update(i as int, (name@, enabled)));
            }
            return ;
        }
        i += 1;
    }
    games.push((name.clone(), enabled));
    proof {
        lemma_upsert_sharer_at(pre, name@, enabled, pre.len() as int);
        assert(sharer_views(games@).len() == games@.len());
        assert(sharer_views(games@) =~= pre.push((name@, enabled)));
    }
}

fn upsert_entry_vec(
    entries: &mut Vec<(String, Vec<(String, bool)>)>,
    key: &String,
    name: &String,
    enabled: bool,
)
    ensures
        entry_views(final(entries)@) == upsert_entry(
            entry_views(old(entries)@),
            key@,
            name@,
            enabled,
        ),
{
    let ghost pre = entry_views(entries@);
    proof {
        assert(pre.len() == entries@.len());
    }
    let mut i: usize = 0;
    while i < entries.len()
        invariant
            i <= entries@.len(),
            pre == entry_views(entries@),
            pre == entry_views(old(entries)@),
            forall|j: int| 0 <= j < i ==> (#[trigger] pre[j]).0 != key@,
        decreases entries@.len() - i,
    {
        if entries[i].0 == *key {
            proof {
                assert(pre[i as int].0 == entries@[i as int].0@);
                assert(pre[i as int].1 == sharer_views(entries@[i as int].1@));
            }
            let mut pair = entries.remove(i);
            upsert_sharer_vec(&mut pair.1, name, enabled);
            entries.insert(i, pair);
            proof {
                lemma_upsert_entry_at(pre, key@, name@, enabled, i as int);
                assert(entry_views(entries@).len() == entries@.len());
                assert(entry_views(entries@) =~= pre.update(
                    i as int,
                    (key@, upsert_sharer(pre[i as int].1, name@, enabled)),
                ));
            }
            return ;
        }
        i += 1;
    }
    entries.push((key.clone(), vec![(name.clone(), enabled)]));
    proof {
        lemma_upsert_entry_at(pre, key@, name@, enabled, pre.len() as int);
        assert(entry_views(entries@).len() == entries@.len());
        assert(sharer_views(entries@.last().1@) =~= seq![(name@, enabled)]);
        assert(entry_views(entries@) =~= pre.push((key@, seq![(name@, enabled)])));
    }
}

fn upsert_entry2_vec(
    entries: &mut Vec<(String, String, Vec<(String, bool)>)>,
    key0: &String,
    key1: &String,
    name: &String,
    enabled: bool,
)
    ensures
        value_entry_views(final(entries)@) == upsert_entry2(
            value_entry_views(old(entries)@),
            (key0@, key1@),
            name@,
            enabled,
        ),
{
    let ghost pre = value_entry_views(entries@);
    proof {
        assert(pre.len() == entries@.len());
    }
    let mut i: usize = 0;
    while i < entries.len()
        invariant
            i <= entries@.len(),
            pre == value_entry_views(entries@),
            pre == value_entry_views(old(entries)@),
            forall|j: int| 0 <= j < i ==> (#[trigger] pre[j]).0 != (key0@, key1@),
        decreases entries@.len() - i,
    {
        if entries[i].0 == *key0 && entries[i].1 == *key1 {
            proof {
                assert(pre[i as int].0 == (entries@[i as int].0@, entries@[i as int].1@));
                assert(pre[i as int].1 == sharer_views(entries@[i as int].2@));
            }
            let mut trip = entries.remove(i);
            upsert_sharer_vec(&mut trip.2, name, enabled);
            entries.insert(i, trip);
            proof {
                lemma_upsert_entry2_at(pre, (key0@, key1@), name@, enabled, i as int);
                assert(value_entry_views(entries@).len() == entries@.len());
                assert(value_entry_views(entries@) =~= pre.update(
                    i as int,
                    ((key0@, key1@), upsert_sharer(pre[i as int].1, name@, enabled)),
                ));
            }
            return ;
        }
        i += 1;
    }
    entries.push((key0.clone(), key1.clone(), vec![(name.clone(), enabled)]));
    proof {
        lemma_upsert_entry2_at(pre, (key0@, key1@), name@, enabled, pre.len() as int);
        assert(value_entry_views(entries@).len() == entries@.len());
        assert(sharer_views(entries@.last().2@) =~= seq![(name@, enabled)]);
        assert(value_entry_views(entries@) =~= pre.push(((key0@, key1@), seq![(name@, enabled)])));
    }
}

fn sharers_clone(entries: &Vec<(String, Vec<(String, bool)>)>, key: &String) -> (r: Vec<
    (String, bool),
>)
    ensures
        sharer_views(r@) == lookup(entry_views(entries@), key@),
{
    let ghost ev = entry_views(entries@);
    proof {
        assert(ev.len() == entries@.len());
    }
    let mut i: usize = 0;
    while i < entries.len()
        invariant
            i <= entries@.len(),
            ev == entry_views(entries@),
            forall|j: int| 0 <= j < i ==> (#[trigger] ev[j]).0 != key@,
        decreases entries@.len() - i,
    {
        if entries[i].0 == *key {
            proof {
                lemma_lookup_at(ev, key@, i as int);
            }
            return clone_sharers(&entries[i].1);
        }
        i += 1;
    }
    proof {
        lemma_lookup_at(ev, key@, ev.len() as int);
    }
    let r: Vec<(String, bool)> = Vec::new();
    proof {
        assert(sharer_views(r@) =~= Seq::<(Seq<char>, bool)>::empty());
    }
    r
}

fn sharers_clone2(
    entries: &Vec<(String, String, Vec<(String, bool)>)>,
    key0: &String,
    key1: &String,
) -> (r: Vec<(String, bool)>)
    ensures
        sharer_views(r@) == lookup2(value_entry_views(entries@), (key0@, key1@)),
{
    let ghost ev = value_entry_views(entries@);
    proof {
        assert(ev.len() == entries@.len());
    }
    let mut i: usize = 0;
    while i < entries.len()
        invariant
            i <= entries@.len(),
            ev == value_entry_views(entries@),
            forall|j: int| 0 <= j < i ==> (#[trigger] ev[j]).0 != (key0@, key1@),
        decreases entries@.len() - i,
    {
        if entries[i].0 == *key0 && entries[i].1 == *key1 {
            proof {
                lemma_lookup2_at(ev, (key0@, key1@), i as int);
            }
            return clone_sharers(&entries[i].2);
        }
        i += 1;
    }
    proof {
        lemma_lookup2_at(ev, (key0@, key1@), ev.len() as int);
    }
    let r: Vec<(String, bool)> = Vec::new();
    proof {
        assert(sharer_views(r@) =~= Seq::<(Seq<char>, bool)>::empty());
    }
    r
}

fn clone_sharers(games: &Vec<(String, bool)>) -> (r: Vec<(String, bool)>)
    ensures
        sharer_views(r@) == sharer_views(games@),
{
    let mut r: Vec<(String, bool)> = Vec::new();
    let mut i: usize = 0;
    proof {
        assert(sharer_views(r@) =~= sharer_views(games@).take(0));
    }
    while i < games.len()
        invariant
            i <= games@.len(),
            sharer_views(r@) == sharer_views(games@).take(i as int),
        decreases games@.len() - i,
    {
        let ghost rpre = r@;
        proof {
            assert(sharer_views(rpre).len() == rpre.len());
            assert(sharer_views(games@).take(i as int).len() == i);
        }
        r.push((games[i].0.clone(), games[i].1));
        proof {
            assert(sharer_views(r@) =~= sharer_views(games@).take(i as int + 1));
        }
        i += 1;
    }
    proof {
        assert(sharer_views(games@).take(games@.len() as int) =~= sharer_views(games@));
    }
    r
}

fn classify(games: &Vec<(String, bool)>) -> (r: Duplication)
    ensures
        r == duplication_of(sharer_views(games@)),
{
    let ghost gv = sharer_views(games@);
    if games.len() < 2 {
        return Duplication::Unique;
    }
    let mut enabled: usize = 0;
    let mut i: usize = 0;
    proof {
        assert(gv.take(0) =~= Seq::<(Seq<char>, bool)>::empty());
    }
    while i < games.len()
        invariant
            i <= games@.len(),
            gv == sharer_views(games@),
            enabled <= i,
            enabled == enabled_count(gv.take(i as int)),
        decreases games@.len() - i,
    {
        proof {
            assert(gv.take(i as int + 1).drop_last() =~= gv.take(i as int));
            assert(gv.take(i as int + 1).last() == gv[i as int]);
        }
        if games[i].1 {
            enabled += 1;
        }
        i += 1;
    }
    proof {
        assert(gv.take(games@.len() as int) =~= gv);
    }
    if enabled <= 1 {
        Duplication::Resolved
    } else {
        Duplication::Duplicate
    }
}

fn names_of(games: &Vec<(String, bool)>) -> (r: Vec<String>)
    ensures
        crate::scan::str_views(r@) == sharer_names(sharer_views(games@)),
{
    let mut r: Vec<String> = Vec::new();
    let mut i: usize = 0;
    proof {
        assert(crate::scan::str_views(r@) =~= sharer_names(sharer_views(games@)).take(0));
    }
    while i < games.len()
        invariant
            i <= games@.len(),
            crate::scan::str_views(r@) == sharer_names(sharer_views(games@)).take(i as int),
        decreases games@.len() - i,
    {
        let ghost rpre = r@;
        proof {
            assert(crate::scan::str_views(rpre).len() == rpre.len());
            assert(sharer_names(sharer_views(games@)).take(i as int).len() == i);
        }
        r.push(games[i].0.clone());
        proof {
            assert(crate::scan::str_views(r@) =~= sharer_names(sharer_views(games@)).take(
                i as int + 1,
            ));
        }
        i += 1;
    }
    proof {
        assert(sharer_names(sharer_views(games@)).take(games@.len() as int) =~= sharer_names(
            sharer_views(games@),
        ));
    }
    r
}

fn has_game(games: &Vec<(String, bool)>, name: &String) -> (r: bool)
    ensures
        r == contains_game(sharer_views(games@), name@),
{
    let ghost gv = sharer_views(games@);
    let mut i: usize = 0;
    while i < games.len()
        invariant
            i <= games@.len(),
            gv == sharer_views(games@),
            forall|j: int| 0 <= j < i ==> (#[trigger] gv[j]).0 != name@,
        decreases games@.len() - i,
    {
        if games[i].0 == *name {
            proof {
                assert(gv[i as int].0 == name@);
            }
            return true;
        }
        i += 1;
    }
    false
}

fn worse(a: Duplication, b: Duplication) -> (r: Duplication)
    ensures
        r == dup_max(a, b),
{
    match (a, b) {
        (Duplication::Duplicate, _) => Duplication::Duplicate,
        (_, Duplication::Duplicate) => Duplication::Duplicate,
        (Duplication::Resolved, _) => Duplication::Resolved,
        (_, Duplication::Resolved) => Duplication::Resolved,
        _ => Duplication::Unique,
    }
}

/// What one keyed entry contributes to a game's duplication status: its own
/// status where the game shares the entry, nothing otherwise.
pub open spec fn entry_contribution(games: SharersModel, name: Seq<char>) -> Duplication {
    if contains_game(games, name) {
        duplication_of(games)
    } else {
        Duplication::Unique
    }
}

pub open spec fn map_duplication(
    entries: Seq<(Seq<char>, SharersModel)>,
    name: Seq<char>,
) -> Duplication
    decreases entries.len(),
{
    if entries.len() == 0 {
        Duplication::Unique
    } else {
        dup_max(
            map_duplication(entries.drop_last(), name),
            entry_contribution(entries.last().1, name),
        )
    }
}

pub open spec fn map_duplication2(
    entries: Seq<((Seq<char>, Seq<char>), SharersModel)>,
    name: Seq<char>,
) -> Duplication
    decreases entries.len(),
{
    if entries.len() == 0 {
        Duplication::Unique
    } else {
        dup_max(
            map_duplication2(entries.drop_last(), name),
            entry_contribution(entries.last().1, name),
        )
    }
}

/// A game's overall duplication status: the worst status among every entry,
/// at any granularity, that the game shares.
pub open spec fn spec_game_duplication(det: DetectorModel, name: Seq<char>) -> Duplication {
    dup_max(
        map_duplication(det.files, name),
        dup_max(map_duplication(det.registry, name), map_duplication2(det.registry_values, name)),
    )
}

fn map_duplication_exec(entries: &Vec<(String, Vec<(String, bool)>)>, name: &String) -> (r:
    Duplication)
    ensures
        r == map_duplication(entry_views(entries@), name@),
{
    let ghost ev = entry_views(entries@);
    proof {
        assert(ev.len() == entries@.len());
        assert(ev.take(0) =~= Seq::<(Seq<char>, SharersModel)>::empty());
    }
    let mut acc = Duplication::Unique;
    let mut i: usize = 0;
    while i < entries.len()
        invariant
            i <= entries@.len(),
            ev == entry_views(entries@),
            acc == map_duplication(ev.take(i as int), name@),
        decreases entries@.len() - i,
    {
        proof {
            assert(ev.take(i as int + 1).drop_last() =~= ev.take(i as int));
            assert(ev.take(i as int + 1).last() == ev[i as int]);
            assert(ev[i as int].1 == sharer_views(entries@[i as int].1@));
        }
        let c = if has_game(&entries[i].1, name) {
            classify(&entries[i].1)
        } else {
            Duplication::Unique
        };
        acc = worse(acc, c);
        i += 1;
    }
    proof {
        assert(ev.take(entries@.len() as int) =~= ev);
    }
    acc
}

fn map_duplication2_exec(entries: &Vec<(String, String, Vec<(String, bool)>)>, name: &String) -> (r:
    Duplication)
    ensures
        r == map_duplication2(value_entry_views(entries@), name@),
{
    let ghost ev = value_entry_views(entries@);
    proof {
        assert(ev.len() == entries@.len());
        assert(ev.take(0) =~= Seq::<((Seq<char>, Seq<char>), SharersModel)>::empty());
    }
    let mut acc = Duplication::Unique;
    let mut i: usize = 0;
    while i < entries.len()
        invariant
            i <= entries@.len(),
            ev == value_entry_views(entries@),
            acc == map_duplication2(ev.take(i as int), name@),
        decreases entries@.len() - i,
    {
        proof {
            assert(ev.take(i as int + 1).drop_last() =~= ev.take(i as int));
            assert(ev.take(i as int + 1).last() == ev[i as int]);
            assert(ev[i as int].1 == sharer_views(entries@[i as int].2@));
        }
        let c = if has_game(&entries[i].2, name) {
            classify(&entries[i].2)
        } else {
            Duplication::Unique
        };
        acc = worse(acc, c);
        i += 1;
    }
    proof {
        assert(ev.take(entries@.len() as int) =~= ev);
    }
    acc
}

/// The detector's three maps after one game's scan is recorded: every found
/// file path keyed to the game.
pub open spec fn files_recorded(
    entries: Seq<(Seq<char>, SharersModel)>,
    files: Seq<crate::scan::ScannedFileModel>,
    name: Seq<char>,
    enabled: bool,
) -> Seq<(Seq<char>, SharersModel)>
    decreases files.len(),
{
    if files.len() == 0 {
        entries
    } else {
        upsert_entry(
            files_recorded(entries, files.drop_last(), name, enabled),
            files.last().path,
            name,
            enabled,
        )
    }
}

pub open spec fn keys_recorded(
    entries: Seq<(Seq<char>, SharersModel)>,
    keys: Seq<crate::scan::ScannedRegistryModel>,
    name: Seq<char>,
    enabled: bool,
) -> Seq<(Seq<char>, SharersModel)>
    decreases keys.len(),
{
    if keys.len() == 0 {
        entries
    } else {
        upsert_entry(
            keys_recorded(entries, keys.drop_last(), name, enabled),
            keys.last().path,
            name,
            enabled,
        )
    }
}

pub open spec fn key_values_recorded(
    entries: Seq<((Seq<char>, Seq<char>), SharersModel)>,
    path: Seq<char>,
    values: Seq<crate::scan::ScannedRegistryValueModel>,
    name: Seq<char>,
    enabled: bool,
) -> Seq<((Seq<char>, Seq<char>), SharersModel)>
    decreases values.len(),
{
    if values.len() == 0 {
        entries
    } else {
        upsert_entry2(
            key_values_recorded(entries, path, values.drop_last(), name, enabled),
            (path, values.last().name),
            name,
            enabled,
        )
    }
}

pub open spec fn values_recorded(
    entries: Seq<((Seq<char>, Seq<char>), SharersModel)>,
    keys: Seq<crate::scan::ScannedRegistryModel>,
    name: Seq<char>,
    enabled: bool,
) -> Seq<((Seq<char>, Seq<char>), SharersModel)>
    decreases keys.len(),
{
    if keys.len() == 0 {
        entries
    } else {
        key_values_recorded(
            values_recorded(entries, keys.drop_last(), name, enabled),
            keys.last().path,
            keys.last().values,
            name,
            enabled,
        )
    }
}

/// The whole detector after one game's scan is recorded.
pub open spec fn spec_record_game(
    det: DetectorModel,
    scan: crate::scan::ScanInfoModel,
    enabled: bool,
) -> DetectorModel {
    DetectorModel {
        files: files_recorded(det.files, scan.found_files, scan.game_name, enabled),
        registry: keys_recorded(det.registry, scan.found_registry_keys, scan.game_name, enabled),
        registry_values: values_recorded(
            det.registry_values,
            scan.found_registry_keys,
            scan.game_name,
            enabled,
        ),
    }
}

impl Default for DuplicateDetector {
    /// An index with nothing recorded.
    fn default() -> (r: Self)
        ensures
            r@.files == Seq::<(Seq<char>, SharersModel)>::empty(),
            r@.registry == Seq::<(Seq<char>, SharersModel)>::empty(),
            r@.registry_values == Seq::<((Seq<char>, Seq<char>), SharersModel)>::empty(),
    {
        let r = DuplicateDetector { files: Vec::new(), registry: Vec::new(), registry_values: Vec::new() };
        proof {
            assert(r@.files =~= Seq::<(Seq<char>, SharersModel)>::empty());
            assert(r@.registry =~= Seq::<(Seq<char>, SharersModel)>::empty());
            assert(r@.registry_values =~= Seq::<((Seq<char>, Seq<char>), SharersModel)>::empty());
        }
        r
    }
}

impl DuplicateDetector {
    /// Records every entry of one game's scan under the game's name,
    /// overwriting the game's previous enabled flag on entries it already
    /// holds.
    pub fn add_game(&mut self, scan: &ScanInfo, enabled: bool)
        ensures
            final(self)@ == spec_record_game(old(self)@, scan@, enabled),
    {
        let ghost det0 = old(self)@;
        let ghost fv = scan@.found_files;
        let ghost kv = scan@.found_registry_keys;
        let ghost name = scan@.game_name;
        proof {
            assert(fv.take(0) =~= Seq::<crate::scan::ScannedFileModel>::empty());
            assert(kv.take(0) =~= Seq::<crate::scan::ScannedRegistryModel>::empty());
        }
        let mut i: usize = 0;
        while i < scan.found_files.len()
            invariant
                i <= scan.found_files@.len(),
                fv == scan@.found_files,
                name == scan@.game_name,
                entry_views(self.files@) == files_recorded(det0.files, fv.take(i as int), name, enabled),
                entry_views(self.registry@) == det0.registry,
                value_entry_views(self.registry_values@) == det0.registry_values,
            decreases scan.found_files@.len() - i,
        {
            proof {
                assert(fv.take(i as int + 1).drop_last() =~= fv.take(i as int));
                assert(fv.take(i as int + 1).last() == fv[i as int]);
                assert(fv[i as int].path == scan.found_files@[i as int].path@);
            }
            upsert_entry_vec(&mut self.files, &scan.found_files[i].path, &scan.game_name, enabled);
            i += 1;
        }
        proof {
            assert(fv.take(scan.found_files@.len() as int) =~= fv);
        }
        let mut k: usize = 0;
        while k < scan.found_registry_keys.len()
            invariant
                k <= scan.found_registry_keys@.len(),
                fv == scan@.found_files,
                kv == scan@.found_registry_keys,
                name == scan@.game_name,
                entry_views(self.files@) == files_recorded(det0.files, fv, name, enabled),
                entry_views(self.registry@) == keys_recorded(det0.registry, kv.take(k as int), name, enabled),
                value_entry_views(self.registry_values@) == values_recorded(det0.registry_values, kv.take(k as int), name, enabled),
            decreases scan.found_registry_keys@.len() - k,
        {
            proof {
                assert(kv.take(k as int + 1).drop_last() =~= kv.take(k as int));
                assert(kv.take(k as int + 1).last() == kv[k as int]);
                assert(kv[k as int].path == scan.found_registry_keys@[k as int].path@);
                assert(kv[k as int].values == crate::scan::reg_value_views(
                    scan.found_registry_keys@[k as int].values@,
                ));
            }
            upsert_entry_vec(&mut self.registry, &scan.found_registry_keys[k].path, &scan.game_name, enabled);
            let ghost vals0 = value_entry_views(self.registry_values@);
            let ghost vv = kv[k as int].values;
            proof {
                assert(vv.take(0) =~= Seq::<crate::scan::ScannedRegistryValueModel>::empty());
            }
            let mut j: usize = 0;
            while j < scan.found_registry_keys[k].values.len()
                invariant
                    j <= scan.found_registry_keys@[k as int].values@.len(),
                    k < scan.found_registry_keys@.len(),
                    fv == scan@.found_files,
                    kv == scan@.found_registry_keys,
                    name == scan@.game_name,
                    vv == kv[k as int].values,
                    vv.len() == scan.found_registry_keys@[k as int].values@.len(),
                    entry_views(self.files@) == files_recorded(det0.files, fv, name, enabled),
                    entry_views(self.registry@) == upsert_entry(
                        keys_recorded(det0.registry, kv.take(k as int), name, enabled),
                        kv[k as int].path,
                        name,
                        enabled,
                    ),
                    value_entry_views(self.registry_values@) == key_values_recorded(vals0, kv[k as int].path, vv.take(j as int), name, enabled),
                decreases scan.found_registry_keys@[k as int].values@.len() - j,
            {
                proof {
                    assert(vv.take(j as int + 1).drop_last() =~= vv.take(j as int));
                    assert(vv.take(j as int + 1).last() == vv[j as int]);
                    assert(vv[j as int].name
                        == scan.found_registry_keys@[k as int].values@[j as int].name@);
                }
                upsert_entry2_vec(
                    &mut self.registry_values,
                    &scan.found_registry_keys[k].path,
                    &scan.found_registry_keys[k].values[j].name,
                    &scan.game_name,
                    enabled,
                );
                j += 1;
            }
            proof {
                assert(vv.take(scan.found_registry_keys@[k as int].values@.len() as int) =~= vv);
            }
            k += 1;
        }
        proof {
            assert(kv.take(scan.found_registry_keys@.len() as int) =~= kv);
        }
    }

    /// The games sharing this file entry's path.
    pub fn file(&self, file: &crate::scan::ScannedFile) -> (r: Vec<String>)
        ensures
            crate::scan::str_views(r@) == sharer_names(lookup(self@.files, file@.path)),
    {
        let games = sharers_clone(&self.files, &file.path);
        names_of(&games)
    }

    /// The duplication status of this file entry's path.
    pub fn is_file_duplicated(&self, file: &crate::scan::ScannedFile) -> (r: Duplication)
        ensures
            r == duplication_of(lookup(self@.files, file@.path)),
    {
        let games = sharers_clone(&self.files, &file.path);
        classify(&games)
    }

    /// The games sharing this registry key path.
    pub fn registry(&self, path: &String) -> (r: Vec<String>)
        ensures
            crate::scan::str_views(r@) == sharer_names(lookup(self@.registry, path@)),
    {
        let games = sharers_clone(&self.registry, path);
        names_of(&games)
    }

    /// The duplication status of this registry key path.
    pub fn is_registry_duplicated(&self, path: &String) -> (r: Duplication)
        ensures
            r == duplication_of(lookup(self@.registry, path@)),
    {
        let games = sharers_clone(&self.registry, path);
        classify(&games)
    }

    /// The games sharing this registry value.
    pub fn registry_value(&self, path: &String, name: &String) -> (r: Vec<String>)
        ensures
            crate::scan::str_views(r@) == sharer_names(
                lookup2(self@.registry_values, (path@, name@)),
            ),
    {
        let games = sharers_clone2(&self.registry_values, path, name);
        names_of(&games)
    }

    /// The duplication status of this registry value.
    pub fn is_registry_value_duplicated(&self, path: &String, name: &String) -> (r: Duplication)
        ensures
            r == duplication_of(lookup2(self@.registry_values, (path@, name@))),
    {
        let games = sharers_clone2(&self.registry_values, path, name);
        classify(&games)
    }

    /// The worst duplication status among every entry this game shares.
    pub fn is_game_duplicated(&self, name: &String) -> (r: Duplication)
        ensures
            r == spec_game_duplication(self@, name@),
    {
        let f = map_duplication_exec(&self.files, name);
        let g = map_duplication_exec(&self.registry, name);
        let v = map_duplication2_exec(&self.registry_values, name);
        worse(f, worse(g, v))
    }
}

} // verus!
