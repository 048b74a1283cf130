//! Version ledger: the ordered history of a record's versions.
//!
//! The indices of a ledger's versions follow one another without a gap. A
//! new version is taken only where it continues them. Where that brings the
//! ledger over the largest number of versions it may hold, the oldest
//! versions leave it for the archive, but never so many that fewer than the
//! retained minimum are left.

use crate::error::{CreationError, MutationError};
use crate::identity::FixedAttributes;
use vstd::prelude::*;

verus! {

/// A single version of a record's content.
#[derive(Debug, PartialEq, Eq)]
pub struct Version {
    /// Sequential number of the version.
    pub index: u64,
    /// Content of the version.
    pub payload: Vec<u8>,
}

/// What a [`Version`] holds, with the payload as a sequence of bytes.
pub struct VersionView {
    pub index: u64,
    pub payload: Seq<u8>,
}

impl View for Version {
    type V = VersionView;

    open spec fn view(&self) -> VersionView {
        VersionView { index: self.index, payload: self.payload@ }
    }
}

impl Clone for Version {
    fn clone(&self) -> (copy: Self)
        ensures
            copy@ == self@,
    {
        Version { index: self.index, payload: self.payload.clone() }
    }
}

/// The views of a sequence of versions, in the same order.
pub open spec fn version_views(versions: Seq<Version>) -> Seq<VersionView> {
    Seq::new(versions.len(), |i: int| versions[i]@)
}

/// A ledger is sequential when it is not empty and each of its versions has
/// the index of the one before it plus one.
pub open spec fn sequential(ledger: Seq<VersionView>) -> bool {
    &&& ledger.len() > 0
    &&& forall|i: int| 0 <= i < ledger.len() ==> (#[trigger] ledger[i]).index == ledger[0].index + i
}

/// `new_version` continues `ledger` when its index is the index of the
/// ledger's last version plus one.
pub open spec fn continues(ledger: Seq<VersionView>, new_version: VersionView) -> bool {
    ledger.len() > 0 && new_version.index == ledger.last().index + 1
}

/// The number of versions that leave a ledger of `active` versions: as many
/// as it has over `max_versions`, but no more than leave
/// `min_retained_count` of them behind.
pub open spec fn eviction_count(active: nat, max_versions: nat, min_retained_count: nat) -> nat {
    let over = if active > max_versions {
        (active - max_versions) as nat
    } else {
        0
    };
    let spare = if active > min_retained_count {
        (active - min_retained_count) as nat
    } else {
        0
    };
    if over <= spare {
        over
    } else {
        spare
    }
}

/// The versions that `ledger` holds once `new_version` has been appended
/// and the oldest versions have left for the archive.
pub open spec fn retained(
    ledger: Seq<VersionView>,
    new_version: VersionView,
    max_versions: u64,
    min_retained_count: u8,
) -> Seq<VersionView> {
    let grown = ledger.push(new_version);
    grown.skip(
        eviction_count(grown.len(), max_versions as nat, min_retained_count as nat) as int,
    )
}

/// The versions that leave `ledger` for the archive when `new_version` is
/// appended, oldest first.
pub open spec fn evicted(
    ledger: Seq<VersionView>,
    new_version: VersionView,
    max_versions: u64,
    min_retained_count: u8,
) -> Seq<VersionView> {
    let grown = ledger.push(new_version);
    grown.take(
        eviction_count(grown.len(), max_versions as nat, min_retained_count as nat) as int,
    )
}

/// The number of bytes that a version takes in a record: its index, and its
/// payload behind its length.
pub open spec fn version_size(version: VersionView) -> nat {
    8 + (8 + version.payload.len())
}

/// The number of bytes that `versions` take together.
pub open spec fn versions_size(versions: Seq<VersionView>) -> nat
    decreases versions.len(),
{
    if versions.len() == 0 {
        0
    } else {
        versions_size(versions.drop_last()) + version_size(versions.last())
    }
}

/// The number of bytes that a ledger takes in a record: its versions behind
/// their number.
pub open spec fn ledger_size(ledger: Seq<VersionView>) -> nat {
    8 + versions_size(ledger)
}

/// The versions of a prefix take no more bytes than all of them.
pub proof fn lemma_versions_size_prefix(versions: Seq<VersionView>, count: int)
    requires
        0 <= count <= versions.len(),
    ensures
        versions_size(versions.take(count)) <= versions_size(versions),
    decreases versions.len(),
{
    if count == versions.len() {
        assert(versions.take(count) =~= versions);
    } else {
        lemma_versions_size_prefix(versions.drop_last(), count);
        assert(versions.drop_last().take(count) =~= versions.take(count));
    }
}

/// The active versions of a record, oldest first.
#[derive(Debug, PartialEq, Eq)]
pub struct Ledger {
    versions: Vec<Version>,
}

impl View for Ledger {
    type V = Seq<VersionView>;

    closed spec fn view(&self) -> Seq<VersionView> {
        version_views(self.versions@)
    }
}

impl Clone for Ledger {
    fn clone(&self) -> (copy: Self)
        ensures
            copy@ == self@,
    {
        proof {
            use_type_invariant(self);
        }
        let versions = copy_range(&self.versions, 0, self.versions.len());
        assert(self@.subrange(0, self.versions.len() as int) =~= self@);
        Ledger { versions }
    }
}

/// A ledger after an append, with the versions that left it.
#[derive(Debug)]
pub struct Appended {
    /// The ledger with the new version as its last.
    pub ledger: Ledger,
    /// The versions that left the ledger, oldest first. They are to be
    /// handed to the archive.
    pub archived: Vec<Version>,
}

/// What an append gave, as mathematical values.
pub struct AppendedView {
    pub ledger: Seq<VersionView>,
    pub archived: Seq<VersionView>,
}

impl View for Appended {
    type V = AppendedView;

    open spec fn view(&self) -> AppendedView {
        AppendedView { ledger: self.ledger@, archived: version_views(self.archived@) }
    }
}

/// What appending `new_version` to `ledger` gives, where the ledger may
/// take no more than `size_budget` bytes.
pub open spec fn appended(
    ledger: Seq<VersionView>,
    new_version: VersionView,
    max_versions: u64,
    min_retained_count: u8,
    size_budget: u64,
) -> Result<AppendedView, MutationError> {
    let kept = retained(ledger, new_version, max_versions, min_retained_count);
    if !continues(ledger, new_version) {
        Err(MutationError::NonSequentialIndex)
    } else if ledger_size(kept) > size_budget {
        Err(MutationError::SizeLimitExceeded)
    } else {
        Ok(
            AppendedView {
                ledger: kept,
                archived: evicted(ledger, new_version, max_versions, min_retained_count),
            },
        )
    }
}

/// Copies the versions of `versions` from `from` up to, not including, `to`.
fn copy_range(versions: &Vec<Version>, from: usize, to: usize) -> (copy: Vec<Version>)
    requires
        from <= to <= versions.len(),
    ensures
        version_views(copy@) == version_views(versions@).subrange(from as int, to as int),
{
    let mut copy: Vec<Version> = Vec::new();
    let mut i: usize = from;
    while i < to
        invariant
            from <= i <= to <= versions.len(),
            copy.len() == i - from,
            forall|k: int| 0 <= k < copy.len() ==> (#[trigger] copy[k])@ == versions[from + k]@,
        decreases to - i,
    {
        copy.push(versions[i].clone());
        i += 1;
    }
    assert(version_views(copy@) =~= version_views(versions@).subrange(from as int, to as int));
    copy
}

impl Ledger {
    /// Holds of every ledger: its versions are sequential.
    #[verifier::type_invariant]
    pub open spec fn well_formed(self) -> bool {
        sequential(self@)
    }

    /// The ledger of a new record. Its only version is `initial`.
    ///
    /// Fails with `NonSequentialIndex` when the index of `initial` is not
    /// zero.
    pub fn genesis(initial: Version) -> (result: Result<Ledger, CreationError>)
        ensures
            result is Ok <==> initial.index == 0,
            result matches Ok(ledger) ==> ledger@ == seq![initial@],
            result matches Err(error) ==> error == CreationError::NonSequentialIndex,
    {
        if initial.index != 0 {
            return Err(CreationError::NonSequentialIndex);
        }
        let mut versions: Vec<Version> = Vec::new();
        versions.push(initial);
        assert(version_views(versions@) =~= seq![initial@]);
        Ok(Ledger { versions })
    }

    /// Appends `new_version` and retires the oldest versions as the bounds
    /// of `identity` ask.
    ///
    /// Fails with `NonSequentialIndex` unless the index of `new_version` is
    /// the index of the last version plus one. Else the new ledger holds the
    /// old versions and the new one, but for the oldest of them where they
    /// are more than `max_versions`: then as many leave as are over, yet no
    /// more than leave `min_retained_count` behind. Fails with
    /// `SizeLimitExceeded` when the new ledger would take more than
    /// `size_budget` bytes, which is what the size limit of the record
    /// leaves to its ledger. This ledger itself is not changed.
    pub fn append(
        &self,
        new_version: Version,
        identity: &FixedAttributes,
        size_budget: u64,
    ) -> (result: Result<Appended, MutationError>)
        ensures
            result matches Ok(done) ==> Ok::<AppendedView, MutationError>(done@) == appended(
                self@,
                new_version@,
                identity@.max_versions,
                identity@.min_retained_count,
                size_budget,
            ),
            result matches Err(error) ==> Err::<AppendedView, MutationError>(error) == appended(
                self@,
                new_version@,
                identity@.max_versions,
                identity@.min_retained_count,
                size_budget,
            ),
    {
        proof {
            use_type_invariant(self);
        }
        let count = self.versions.len();
        let last = &self.versions[count - 1];
        assert(last@ == self@.last());
        if last.index == u64::MAX || new_version.index != last.index + 1 {
            return Err(MutationError::NonSequentialIndex);
        }
        let ghost grown = self@.push(new_version@);
        let max_versions = identity.max_versions();
        let min_retained_count = identity.min_retained_count();
        let leaving = Self::leaving(count, max_versions, min_retained_count);
        let archived = copy_range(&self.versions, 0, leaving);
        let mut versions = copy_range(&self.versions, leaving, count);
        let ghost head = versions@;
        versions.push(new_version);
        proof {
            assert(version_views(head).len() == self@.subrange(leaving as int, count as int).len());
            assert forall|i: int| 0 <= i < versions.len() implies (#[trigger] versions[i])@
                == grown[leaving + i] by {
                if i < head.len() {
                    assert(version_views(head)[i] == self@[leaving + i]);
                }
            }
            assert(version_views(versions@) =~= grown.skip(leaving as int));
            assert(version_views(archived@) =~= grown.take(leaving as int));
            law_append_keeps_sequence(
                self@,
                new_version@,
                identity@.max_versions,
                identity@.min_retained_count,
            );
        }
        let ledger = Ledger { versions };
        if !ledger.fits(size_budget) {
            return Err(MutationError::SizeLimitExceeded);
        }
        Ok(Appended { ledger, archived })
    }

    /// The versions of the ledger, oldest first.
    pub fn versions(&self) -> (versions: &Vec<Version>)
        ensures
            version_views(versions@) == self@,
            sequential(self@),
    {
        proof {
            use_type_invariant(self);
        }
        &self.versions
    }

    /// The number of versions in the ledger. It is never zero.
    pub fn len(&self) -> (count: usize)
        ensures
            count == self@.len(),
            count >= 1,
    {
        proof {
            use_type_invariant(self);
        }
        self.versions.len()
    }

    /// The newest version of the ledger.
    pub fn latest(&self) -> (version: &Version)
        ensures
            version@ == self@.last(),
    {
        proof {
            use_type_invariant(self);
        }
        &self.versions[self.versions.len() - 1]
    }

    /// Whether the ledger takes no more than `budget` bytes in a record.
    pub fn fits(&self, budget: u64) -> (fits: bool)
        ensures
            fits == (ledger_size(self@) <= budget),
    {
        let mut size: u128 = 8;
        if size > budget as u128 {
            return false;
        }
        let ghost views = self@;
        let count = self.versions.len();
        let mut i: usize = 0;
        while i < count
            invariant
                i <= count,
                count == self.versions.len(),
                views == version_views(self.versions@),
                size == 8 + versions_size(views.take(i as int)),
                size <= budget,
            decreases count - i,
        {
            proof {
                assert(views.take(i + 1).drop_last() =~= views.take(i as int));
                lemma_versions_size_prefix(views, i + 1);
            }
            size = size + 8 + (8 + self.versions[i].payload.len() as u128);
            if size > budget as u128 {
                return false;
            }
            i += 1;
        }
        proof {
            assert(views.take(count as int) =~= views);
        }
        true
    }

    /// The number of versions that leave a ledger of `count` versions when
    /// one more is appended.
    fn leaving(count: usize, max_versions: u64, min_retained_count: u8) -> (leaving: usize)
        requires
            min_retained_count >= 1,
        ensures
            leaving == eviction_count(
                (count + 1) as nat,
                max_versions as nat,
                min_retained_count as nat,
            ),
            leaving <= count,
    {
        let floor: u64 = if max_versions >= min_retained_count as u64 {
            max_versions
        } else {
            min_retained_count as u64
        };
        if count as u128 + 1 <= floor as u128 {
            0
        } else {
            (count as u128 + 1 - floor as u128) as usize
        }
    }
}

/// Retention. When a version is appended, the grown ledger splits into the
/// versions that leave, which are its oldest, and those that stay, which
/// end with the new version: none is lost and none is in both. Nothing
/// leaves while the ledger holds no more than `max_versions`. Where
/// something leaves, exactly `max_versions` stay, or `min_retained_count`
/// where that is more. Never do fewer than `min_retained_count` stay, unless
/// the ledger never held so many. A ledger that held no more than the
/// larger of the two bounds still holds no more.
pub proof fn law_retention(
    ledger: Seq<VersionView>,
    new_version: VersionView,
    max_versions: u64,
    min_retained_count: u8,
)
    requires
        min_retained_count >= 1,
    ensures
        ({
            let grown = ledger.push(new_version);
            let kept = retained(ledger, new_version, max_versions, min_retained_count);
            let gone = evicted(ledger, new_version, max_versions, min_retained_count);
            &&& gone + kept == grown
            &&& kept.len() >= 1
            &&& kept.last() == new_version
            &&& grown.len() <= max_versions ==> gone.len() == 0
            &&& gone.len() > 0 ==> kept.len() == if max_versions >= min_retained_count {
                max_versions as int
            } else {
                min_retained_count as int
            }
            &&& kept.len() >= min_retained_count || kept.len() == grown.len()
            &&& ledger.len() <= max_versions || ledger.len() <= min_retained_count ==> kept.len()
                <= max_versions || kept.len() <= min_retained_count
        }),
{
    let grown = ledger.push(new_version);
    let kept = retained(ledger, new_version, max_versions, min_retained_count);
    let gone = evicted(ledger, new_version, max_versions, min_retained_count);
    assert(gone + kept =~= grown);
}

/// Appending a version that continues a sequential ledger leaves it
/// sequential, and every version that leaves is older than every version
/// that stays.
pub proof fn law_append_keeps_sequence(
    ledger: Seq<VersionView>,
    new_version: VersionView,
    max_versions: u64,
    min_retained_count: u8,
)
    requires
        sequential(ledger),
        continues(ledger, new_version),
        min_retained_count >= 1,
    ensures
        ({
            let kept = retained(ledger, new_version, max_versions, min_retained_count);
            let gone = evicted(ledger, new_version, max_versions, min_retained_count);
            &&& sequential(kept)
            &&& forall|i: int, j: int|
                0 <= i < gone.len() && 0 <= j < kept.len() ==> (#[trigger] gone[i]).index < (
                #[trigger] kept[j]).index
        }),
{
    let grown = ledger.push(new_version);
    let kept = retained(ledger, new_version, max_versions, min_retained_count);
    let gone = evicted(ledger, new_version, max_versions, min_retained_count);
    let leaving = gone.len() as int;
    assert forall|k: int| 0 <= k < grown.len() implies (#[trigger] grown[k]).index
        == ledger[0].index + k by {
        if k < ledger.len() {
            assert(grown[k] == ledger[k]);
        } else {
            assert(ledger.last() == ledger[ledger.len() - 1]);
        }
    }
    assert forall|j: int| 0 <= j < kept.len() implies (#[trigger] kept[j]).index == kept[0].index
        + j by {
        assert(kept[j] == grown[leaving + j]);
        assert(kept[0] == grown[leaving]);
    }
    assert forall|i: int, j: int| 0 <= i < gone.len() && 0 <= j < kept.len() implies (
    #[trigger] gone[i]).index < (#[trigger] kept[j]).index by {
        assert(gone[i] == grown[i]);
        assert(kept[j] == grown[leaving + j]);
    }
}

/// No version is archived twice. Of two appends in a row, every version
/// that leaves at the second is newer than every version that left at the
/// first.
pub proof fn law_archived_once(
    ledger: Seq<VersionView>,
    first: VersionView,
    second: VersionView,
    max_versions: u64,
    min_retained_count: u8,
)
    requires
        sequential(ledger),
        continues(ledger, first),
        continues(retained(ledger, first, max_versions, min_retained_count), second),
        min_retained_count >= 1,
    ensures
        ({
            let kept = retained(ledger, first, max_versions, min_retained_count);
            let gone = evicted(ledger, first, max_versions, min_retained_count);
            let later = evicted(kept, second, max_versions, min_retained_count);
            forall|i: int, j: int|
                0 <= i < gone.len() && 0 <= j < later.len() ==> (#[trigger] gone[i]).index < (
                #[trigger] later[j]).index
        }),
{
    let kept = retained(ledger, first, max_versions, min_retained_count);
    let gone = evicted(ledger, first, max_versions, min_retained_count);
    let later = evicted(kept, second, max_versions, min_retained_count);
    law_append_keeps_sequence(ledger, first, max_versions, min_retained_count);
    law_retention(kept, second, max_versions, min_retained_count);
    assert forall|i: int, j: int| 0 <= i < gone.len() && 0 <= j < later.len() implies (
    #[trigger] gone[i]).index < (#[trigger] later[j]).index by {
        assert(later[j] == kept[j]);
    }
}

/// Appending one index twice fails the second time. Once a version has been
/// appended, appending a version with the same index to the ledger that
/// came out fails with `NonSequentialIndex`, whatever it holds otherwise.
pub proof fn law_same_index_twice_fails(
    ledger: Seq<VersionView>,
    first: VersionView,
    second: VersionView,
    max_versions: u64,
    min_retained_count: u8,
    first_budget: u64,
    second_budget: u64,
)
    requires
        min_retained_count >= 1,
        appended(ledger, first, max_versions, min_retained_count, first_budget) is Ok,
        second.index == first.index,
    ensures
        appended(
            appended(ledger, first, max_versions, min_retained_count, first_budget)->Ok_0.ledger,
            second,
            max_versions,
            min_retained_count,
            second_budget,
        ) == Err::<AppendedView, MutationError>(MutationError::NonSequentialIndex),
{
    law_retention(ledger, first, max_versions, min_retained_count);
}

} // verus!
