//! Decisions of the asset file system that overlays content packs on the
//! default asset directory.
//!
//! Packs come in priority order, later ones overriding earlier ones. Listing
//! a directory walks the default directory and then each pack; every entry is
//! reported once, at its first sighting, and the outcomes of the sources are
//! combined into one.
use vstd::prelude::*;
use vstd::string::*;

verus! {

/// An error of one asset source: `not_found` tells whether it is a plain
/// "not found"; `E` is the caller's error type, only carried.
#[derive(Debug)]
pub struct SourceError<E> {
    pub not_found: bool,
    pub error: E,
}

/// The combined outcome of listing a directory after one more pack was
/// listed: a failure so far other than "not found" stands; otherwise a
/// success so far or of the pack wins, and when both failed the pack's
/// error is kept.
pub open spec fn merged_spec<E>(
    last: Result<(), SourceError<E>>,
    pack: Result<(), SourceError<E>>,
) -> Result<(), SourceError<E>> {
    match last {
        Err(e1) => if !e1.not_found {
            last
        } else {
            pack
        },
        Ok(_) => last,
    }
}

/// Combines the outcome so far with the outcome of listing one more pack.
pub fn merge_read_dir<E>(
    last: Result<(), SourceError<E>>,
    pack: Result<(), SourceError<E>>,
) -> (r: Result<(), SourceError<E>>)
    ensures
        r == merged_spec(last, pack),
{
    match last {
        Err(e1) => {
            if !e1.not_found {
                Err(e1)
            } else {
                pack
            }
        },
        Ok(u) => Ok(u),
    }
}

/// The key of a directory entry: its id and, for a file, its extension.
pub open spec fn entry_key(path: Seq<char>, ext: Option<Seq<char>>) -> (Seq<char>, Option<Seq<char>>) {
    (path, ext)
}

/// The directory entries sighted so far, held in a `hashbrown::HashSet`.
#[verifier::external_body]
pub struct EntrySet {
    set: hashbrown::HashSet<(String, Option<String>)>,
}

/// The keys held by an [`EntrySet`].
pub uninterp spec fn entry_set_contents(s: EntrySet) -> Set<(Seq<char>, Option<Seq<char>>)>;

pub open spec fn opt_view(o: Option<String>) -> Option<Seq<char>> {
    match o {
        Some(s) => Some(s@),
        None => None,
    }
}

/// `hashbrown::HashSet::new`: an empty set.
#[verifier::external_body]
fn entry_set_new() -> (s: EntrySet)
    ensures
        entry_set_contents(s) == Set::<(Seq<char>, Option<Seq<char>>)>::empty(),
{
    EntrySet { set: hashbrown::HashSet::new() }
}

/// `hashbrown::HashSet::insert`: adds the key; returns `true` exactly when
/// the set did not hold it before.
#[verifier::external_body]
fn entry_set_insert(s: &mut EntrySet, key: (String, Option<String>)) -> (fresh: bool)
    ensures
        fresh == !entry_set_contents(*old(s)).contains((key.0@, opt_view(key.1))),
        entry_set_contents(*final(s)) == entry_set_contents(*old(s)).insert(
            (key.0@, opt_view(key.1)),
        ),
{
    s.set.insert(key)
}

/// Remembers which directory entries were already reported.
pub struct EntryFilter {
    seen: EntrySet,
}

impl EntryFilter {
    /// The entries sighted so far.
    pub closed spec fn seen(&self) -> Set<(Seq<char>, Option<Seq<char>>)> {
        entry_set_contents(self.seen)
    }

    /// A filter that has seen nothing.
    pub fn new() -> (f: Self)
        ensures
            f.seen() == Set::<(Seq<char>, Option<Seq<char>>)>::empty(),
    {
        EntryFilter { seen: entry_set_new() }
    }

    /// Records a sighting of the entry `path` (with `ext` for a file);
    /// returns whether this is its first sighting, when it is reported.
    pub fn first_sighting(&mut self, path: &str, ext: Option<&str>) -> (first: bool)
        ensures
            first == !old(self).seen().contains(
                (
                    path@,
                    match ext {
                        Some(e) => Some(e@),
                        None => None,
                    },
                ),
            ),
            final(self).seen().contains(
                (
                    path@,
                    match ext {
                        Some(e) => Some(e@),
                        None => None,
                    },
                ),
            ),
            forall|k: (Seq<char>, Option<Seq<char>>)|
                old(self).seen().contains(k) ==> #[trigger] final(self).seen().contains(k),
            forall|k: (Seq<char>, Option<Seq<char>>)|
                #[trigger] final(self).seen().contains(k) && k != (
                    path@,
                    match ext {
                        Some(e) => Some(e@),
                        None => None,
                    },
                ) ==> old(self).seen().contains(k),
            first == !old(self).seen().contains(
                entry_key(
                    path@,
                    match ext {
                        Some(e) => Some(e@),
                        None => None,
                    },
                ),
            ),
            final(self).seen() == old(self).seen().insert(
                entry_key(
                    path@,
                    match ext {
                        Some(e) => Some(e@),
                        None => None,
                    },
                ),
            ),
    {
        let owned_ext: Option<String> = match ext {
            Some(e) => Some(e.to_owned()),
            None => None,
        };
        entry_set_insert(&mut self.seen, (path.to_owned(), owned_ext))
    }
}

/// One more pack: a success so far stays a success, a failure so far other
/// than "not found" stays that failure, and otherwise a successful pack
/// makes the listing succeed.
pub proof fn lemma_success_sticks<E>(
    last: Result<(), SourceError<E>>,
    pack: Result<(), SourceError<E>>,
)
    ensures
        last is Ok ==> merged_spec(last, pack) is Ok,
        pack is Ok && !(last matches Err(e) && !e.not_found) ==> merged_spec(last, pack) is Ok,
        (last matches Err(e) && !e.not_found) ==> merged_spec(last, pack) == last,
{
}

/// The outcome of listing a directory in the default source (`first`) and
/// then in each pack of `packs`, combined one pack at a time.
pub open spec fn merged_all<E>(
    first: Result<(), SourceError<E>>,
    packs: Seq<Result<(), SourceError<E>>>,
) -> Result<(), SourceError<E>>
    decreases packs.len(),
{
    if packs.len() == 0 {
        first
    } else {
        merged_spec(merged_all(first, packs.drop_last()), packs.last())
    }
}

/// Whether an outcome settles a listing: a success, or a failure other than
/// "not found".
pub open spec fn decisive<E>(r: Result<(), SourceError<E>>) -> bool {
    r is Ok || (r matches Err(e) && !e.not_found)
}

/// The first source (default directory first, then the packs in order) that
/// succeeds or fails for a reason other than "not found" decides the
/// listing; when every source only reports "not found", the last of those
/// errors is reported.
pub proof fn lemma_listing_outcome<E>(
    first: Result<(), SourceError<E>>,
    packs: Seq<Result<(), SourceError<E>>>,
)
    ensures
        forall|k: int|
            0 <= k < packs.len() + 1 && decisive(#[trigger] (seq![first] + packs)[k]) && (forall|j: int|
                0 <= j < k ==> !decisive((seq![first] + packs)[j])) ==> merged_all(first, packs)
                == (seq![first] + packs)[k],
        (forall|j: int| 0 <= j < packs.len() + 1 ==> !decisive(#[trigger] (seq![first] + packs)[j]))
            ==> merged_all(first, packs) == (seq![first] + packs).last(),
    decreases packs.len(),
{
    let s = seq![first] + packs;
    if packs.len() > 0 {
        let prefix = packs.drop_last();
        let s0 = seq![first] + prefix;
        assert(s0 =~= s.drop_last());
        lemma_listing_outcome(first, prefix);
        let m = merged_all(first, prefix);
        assert(merged_all(first, packs) == merged_spec(m, packs.last()));
        assert(s.last() == packs.last());
        assert forall|k: int|
            0 <= k < s.len() && decisive(#[trigger] s[k]) && (forall|j: int|
                0 <= j < k ==> !decisive(s[j])) implies merged_all(first, packs) == s[k] by {
            if k < s0.len() {
                assert(s0[k] == s[k]);
                assert(decisive(s0[k]));
                assert forall|j: int| 0 <= j < k implies !decisive(s0[j]) by {
                    assert(s0[j] == s[j]);
                }
                assert(m == s0[k]);
            } else {
                assert forall|j: int| 0 <= j < s0.len() implies !decisive(#[trigger] s0[j]) by {
                    assert(s0[j] == s[j]);
                }
                assert(m == s0.last());
                assert(!decisive(s0[s0.len() - 1]));
                assert(s[k] == packs.last());
            }
        }
        if forall|j: int| 0 <= j < s.len() ==> !decisive(#[trigger] s[j]) {
            assert forall|j: int| 0 <= j < s0.len() implies !decisive(#[trigger] s0[j]) by {
                assert(s0[j] == s[j]);
            }
            assert(!decisive(s[s.len() - 1]));
            assert(!decisive(s0[s0.len() - 1]));
            assert(m == s0.last());
        }
    } else {
        assert(s =~= seq![first]);
    }
}

/// A source of assets: a content pack by its index (later packs take
/// priority), or the default asset directory.
#[derive(Debug, Clone, Copy, PartialEq, Eq, Structural)]
pub enum SourceId {
    Pack(usize),
    Default,
}

/// The order in which a file is looked up among `n_packs` packs and the
/// default directory: the last (highest-priority) pack first, down to the
/// first pack, then the default directory. The first source that has the
/// file serves it; the default directory's answer is final.
pub fn read_order(n_packs: usize) -> (order: Vec<SourceId>)
    requires
        n_packs < usize::MAX,
    ensures
        order@.len() == n_packs + 1,
        forall|i: int| 0 <= i < n_packs ==> order@[i] == SourceId::Pack((n_packs - 1 - i) as usize),
        order@[n_packs as int] == SourceId::Default,
{
    let mut order: Vec<SourceId> = Vec::new();
    let mut k: usize = n_packs;
    while k > 0
        invariant
            k <= n_packs,
            order@.len() == n_packs - k,
            forall|i: int| 0 <= i < n_packs - k ==> order@[i] == SourceId::Pack((n_packs - 1 - i) as usize),
        decreases k,
    {
        k = k - 1;
        order.push(SourceId::Pack(k));
    }
    order.push(SourceId::Default);
    order
}

/// What a file lookup learned from one source.
#[derive(Debug, Clone, Copy, PartialEq, Eq, Structural)]
pub enum ReadOutcome {
    Found,
    NotFound,
    /// The read failed for another reason.
    Failed,
}

/// What a file lookup does after asking one source.
#[derive(Debug, Clone, Copy, PartialEq, Eq, Structural)]
pub enum ReadStep {
    /// This source's answer is the lookup's answer.
    Serve,
    /// Ask the next source; `warn` tells whether the failure is reported.
    TryNext { warn: bool },
}

/// One step of a file lookup: a pack that has the file serves it, a pack
/// without it passes on silently, a pack that fails otherwise passes on with
/// a warning; the default directory's answer, found or not, is final.
pub fn read_step(source: SourceId, outcome: ReadOutcome) -> (step: ReadStep)
    ensures
        step == match source {
            SourceId::Default => ReadStep::Serve,
            SourceId::Pack(_) => match outcome {
                ReadOutcome::Found => ReadStep::Serve,
                ReadOutcome::NotFound => ReadStep::TryNext { warn: false },
                ReadOutcome::Failed => ReadStep::TryNext { warn: true },
            },
        },
{
    match source {
        SourceId::Default => ReadStep::Serve,
        SourceId::Pack(_) => match outcome {
            ReadOutcome::Found => ReadStep::Serve,
            ReadOutcome::NotFound => ReadStep::TryNext { warn: false },
            ReadOutcome::Failed => ReadStep::TryNext { warn: true },
        },
    }
}

/// The source that serves a file when the lookup asks the packs `k - 1`
/// down to `0` (pack `p` answering `outcomes[p]`) and then the default
/// directory, stepping with [`read_step`].
pub open spec fn serving_source(outcomes: Seq<ReadOutcome>, k: int) -> SourceId
    decreases k,
{
    if k <= 0 {
        SourceId::Default
    } else if outcomes[k - 1] == ReadOutcome::Found {
        SourceId::Pack((k - 1) as usize)
    } else {
        serving_source(outcomes, k - 1)
    }
}

/// A file is served by the highest-priority pack that has it, and by the
/// default directory only when no pack has it.
pub proof fn lemma_highest_pack_serves(outcomes: Seq<ReadOutcome>, k: int)
    requires
        0 <= k <= outcomes.len(),
        k <= usize::MAX,
    ensures
        serving_source(outcomes, k) matches SourceId::Pack(p) ==> p < k && outcomes[p as int]
            == ReadOutcome::Found && forall|q: int|
            p < q < k ==> #[trigger] outcomes[q] != ReadOutcome::Found,
        serving_source(outcomes, k) == SourceId::Default ==> forall|q: int|
            0 <= q < k ==> #[trigger] outcomes[q] != ReadOutcome::Found,
    decreases k,
{
    if k > 0 {
        lemma_highest_pack_serves(outcomes, k - 1);
    }
}


/// Entries are told apart by id and extension: two entries have the same
/// key only when they have the same id and the same extension (or both are
/// directories), so a file is never taken for another file with the same id
/// and another extension, nor for a directory.
pub proof fn lemma_entry_keys_distinguish(
    p1: Seq<char>,
    e1: Option<Seq<char>>,
    p2: Seq<char>,
    e2: Option<Seq<char>>,
)
    ensures
        entry_key(p1, e1) == entry_key(p2, e2) <==> (p1 == p2 && e1 == e2),
{
}

/// An entry is reported at most once: after its first sighting, every later
/// sighting finds it already seen.
pub proof fn lemma_reported_once(
    seen: Set<(Seq<char>, Option<Seq<char>>)>,
    key: (Seq<char>, Option<Seq<char>>),
    other: (Seq<char>, Option<Seq<char>>),
)
    ensures
        seen.insert(key).contains(key),
        seen.insert(key).insert(other).contains(key),
{
}

} // verus!
